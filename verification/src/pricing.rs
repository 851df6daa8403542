//! Pricing and totals: turns a validated cart into per-line figures and
//! aggregate totals. Promotion lines split their group's combo price in
//! proportion to each line's retail value; other lines price at retail or
//! wholesale and take the global discount.
//!
//! The combo price is split by cumulative rounding: line `i` receives the
//! difference between the floors of the group price scaled by the retail
//! value up to and including `i` and up to `i`. Each line is within one
//! cent of its exact proportional share, and the group's lines always sum
//! to exactly the combo price times the instance count.

use vstd::prelude::*;
use crate::cart::{cart_wf, find_product, lookup_product, products_wf, FinalLineData, PriceType,
    ProductInfo, SaleItemRequest};
use crate::errors::PosError;
use crate::promotions::{line_in_promo, ValidatedPromotion};
use crate::{MAX_DISCOUNT_BP, MAX_PRICE, MAX_QTY};

verus! {

/// Validated entries are within the bounds pricing arithmetic needs and
/// carry pairwise distinct promotion ids.
pub open spec fn validated_wf(v: Seq<ValidatedPromotion>) -> bool {
    &&& forall|e: int|
        0 <= e < v.len() ==> 1 <= (#[trigger] v[e]).instance_count <= 10_000_000 && 0
            <= v[e].combo_price <= MAX_PRICE
    &&& forall|e1: int, e2: int|
        0 <= e1 < v.len() && 0 <= e2 < v.len() && e1 != e2 ==> v[e1].promotion_id@
            != v[e2].promotion_id@
}

/// The first validated entry of a promotion.
pub open spec fn find_vp(v: Seq<ValidatedPromotion>, pid: Seq<char>) -> Option<ValidatedPromotion>
    decreases v.len(),
{
    if v.len() == 0 {
        None
    } else if v[0].promotion_id@ == pid {
        Some(v[0])
    } else {
        find_vp(v.drop_first(), pid)
    }
}

/// With pairwise distinct ids, the entry holding `pid` is the one found.
pub proof fn lemma_find_vp_unique(v: Seq<ValidatedPromotion>, pid: Seq<char>, e: int)
    requires
        forall|e1: int, e2: int|
            0 <= e1 < v.len() && 0 <= e2 < v.len() && e1 != e2 ==> v[e1].promotion_id@
                != v[e2].promotion_id@,
        0 <= e < v.len(),
        v[e].promotion_id@ == pid,
    ensures
        find_vp(v, pid) == Some(v[e]),
    decreases v.len(),
{
    if v[0].promotion_id@ != pid {
        assert(forall|q: int|
            0 <= q < v.drop_first().len() ==> #[trigger] v.drop_first()[q] == v[q + 1]);
        lemma_find_vp_unique(v.drop_first(), pid, e - 1);
    }
}

/// If no entry holds `pid`, none is found.
pub proof fn lemma_find_vp_none(v: Seq<ValidatedPromotion>, pid: Seq<char>)
    requires
        find_vp(v, pid) is None,
    ensures
        forall|e: int| 0 <= e < v.len() ==> (#[trigger] v[e]).promotion_id@ != pid,
    decreases v.len(),
{
    if v.len() > 0 {
        assert(v[0].promotion_id@ != pid);
        lemma_find_vp_none(v.drop_first(), pid);
        assert forall|e: int| 0 <= e < v.len() implies (#[trigger] v[e]).promotion_id@ != pid by {
            if e > 0 {
                assert(v.drop_first()[e - 1] == v[e]);
            }
        }
    }
}

/// A line's base unit price in cents: zero for kit gifts, wholesale or
/// retail otherwise.
pub open spec fn line_base_price(l: SaleItemRequest, products: Seq<ProductInfo>) -> int {
    match l.price_type {
        PriceType::KitItem => 0,
        PriceType::Wholesale => find_product(products, l.product_id@)->0.wholesale_price as int,
        _ => find_product(products, l.product_id@)->0.retail_price as int,
    }
}

/// A non-promotion line's gross amount in cents.
pub open spec fn spec_line_gross(l: SaleItemRequest, products: Seq<ProductInfo>) -> int {
    (line_base_price(l, products) * l.quantity) / 1000
}

/// A non-promotion line's discount amount in cents.
pub open spec fn spec_line_discount(
    l: SaleItemRequest,
    products: Seq<ProductInfo>,
    bp: int,
) -> int {
    match l.price_type {
        PriceType::KitItem => 0,
        _ => (spec_line_gross(l, products) * bp) / 10000,
    }
}

/// A line's retail value in milli-cents.
pub open spec fn line_retail(l: SaleItemRequest, products: Seq<ProductInfo>) -> int {
    (find_product(products, l.product_id@)->0.retail_price as int) * l.quantity
}

/// The retail value of a promotion group's first `upto` lines, milli-cents.
pub open spec fn group_retail_upto(
    items: Seq<SaleItemRequest>,
    products: Seq<ProductInfo>,
    pid: Seq<char>,
    upto: int,
) -> int
    decreases upto,
{
    if upto <= 0 {
        0
    } else {
        group_retail_upto(items, products, pid, upto - 1) + if line_in_promo(items[upto - 1], pid) {
            line_retail(items[upto - 1], products)
        } else {
            0
        }
    }
}

/// The total retail value of a promotion group, milli-cents.
pub open spec fn group_retail(
    items: Seq<SaleItemRequest>,
    products: Seq<ProductInfo>,
    pid: Seq<char>,
) -> int {
    group_retail_upto(items, products, pid, items.len() as int)
}

/// The whole group's final price in cents: the combo price times the
/// instance count.
pub open spec fn group_promo_price(vp: ValidatedPromotion) -> int {
    (vp.combo_price as int) * (vp.instance_count as int)
}

/// The group price scaled down to a cumulative retail value `c`, cents.
pub open spec fn scaled_price(vp: ValidatedPromotion, c: int, gr: int) -> int {
    (group_promo_price(vp) * c) / gr
}

/// The slice of the group price allocated to promotion line `i`, cents:
/// the step its retail value adds to the scaled cumulative price.
pub open spec fn spec_allocated(
    items: Seq<SaleItemRequest>,
    products: Seq<ProductInfo>,
    vp: ValidatedPromotion,
    i: int,
) -> int {
    let gr = group_retail(items, products, vp.promotion_id@);
    if gr > 0 {
        scaled_price(vp, group_retail_upto(items, products, vp.promotion_id@, i + 1), gr)
            - scaled_price(vp, group_retail_upto(items, products, vp.promotion_id@, i), gr)
    } else {
        0
    }
}

/// The fully priced figures of line `i` of the cart.
pub open spec fn spec_final_line(
    items: Seq<SaleItemRequest>,
    products: Seq<ProductInfo>,
    v: Seq<ValidatedPromotion>,
    bp: int,
    i: int,
) -> FinalLineData {
    let l = items[i];
    let p = find_product(products, l.product_id@)->0;
    match l.promotion_id {
        Some(pid) => {
            let vp = find_vp(v, pid@)->0;
            let alloc = spec_allocated(items, products, vp, i);
            FinalLineData {
                request_id: l.id,
                product_id: l.product_id,
                product_name: p.name,
                product_code: p.code,
                quantity: l.quantity,
                price_type: l.price_type,
                promotion_id: l.promotion_id,
                kit_option_id: l.kit_option_id,
                unit_price: ((alloc * 1000) / (l.quantity as int)) as i64,
                discount_amount: 0,
                subtotal: alloc as i64,
                total: alloc as i64,
            }
        },
        None => {
            let gross = spec_line_gross(l, products);
            let disc = spec_line_discount(l, products, bp);
            FinalLineData {
                request_id: l.id,
                product_id: l.product_id,
                product_name: p.name,
                product_code: p.code,
                quantity: l.quantity,
                price_type: l.price_type,
                promotion_id: l.promotion_id,
                kit_option_id: l.kit_option_id,
                unit_price: line_base_price(l, products) as i64,
                discount_amount: disc as i64,
                subtotal: gross as i64,
                total: (gross - disc) as i64,
            }
        },
    }
}

/// Sum of the gross amounts of the first `upto` lines: a promotion line
/// contributes its allocated amount, the rest their gross.
pub open spec fn spec_total_gross(
    items: Seq<SaleItemRequest>,
    products: Seq<ProductInfo>,
    v: Seq<ValidatedPromotion>,
    upto: int,
) -> int
    decreases upto,
{
    if upto <= 0 {
        0
    } else {
        spec_total_gross(items, products, v, upto - 1) + {
            let l = items[upto - 1];
            match l.promotion_id {
                Some(pid) => spec_allocated(items, products, find_vp(v, pid@)->0, upto - 1),
                None => spec_line_gross(l, products),
            }
        }
    }
}

/// Sum of the discount amounts of the first `upto` non-promotion lines.
pub open spec fn spec_total_discount(
    items: Seq<SaleItemRequest>,
    products: Seq<ProductInfo>,
    bp: int,
    upto: int,
) -> int
    decreases upto,
{
    if upto <= 0 {
        0
    } else {
        spec_total_discount(items, products, bp, upto - 1) + {
            let l = items[upto - 1];
            match l.promotion_id {
                Some(_) => 0,
                None => spec_line_discount(l, products, bp),
            }
        }
    }
}

/// Sum of the subtotal figures of priced lines.
pub open spec fn sum_subtotals(lines: Seq<FinalLineData>) -> int
    decreases lines.len(),
{
    if lines.len() == 0 {
        0
    } else {
        sum_subtotals(lines.drop_last()) + lines.last().subtotal as int
    }
}

/// Sum of the discount figures of priced lines.
pub open spec fn sum_discounts(lines: Seq<FinalLineData>) -> int
    decreases lines.len(),
{
    if lines.len() == 0 {
        0
    } else {
        sum_discounts(lines.drop_last()) + lines.last().discount_amount as int
    }
}

/// Sum of the subtotal figures of the first `upto` lines tagged with one
/// promotion.
pub open spec fn sum_promo_subtotals(lines: Seq<FinalLineData>, pid: Seq<char>, upto: int) -> int
    decreases upto,
{
    if upto <= 0 {
        0
    } else {
        sum_promo_subtotals(lines, pid, upto - 1) + if lines[upto - 1].promotion_id matches Some(q)
            && q@ == pid {
            lines[upto - 1].subtotal as int
        } else {
            0
        }
    }
}

proof fn lemma_group_retail_upto_bounds(
    items: Seq<SaleItemRequest>,
    products: Seq<ProductInfo>,
    pid: Seq<char>,
    upto: int,
)
    requires
        cart_wf(items),
        products_wf(products),
        0 <= upto <= items.len(),
        forall|i: int|
            0 <= i < items.len() ==> 0 <= line_retail(#[trigger] items[i], products) <= MAX_PRICE
                * MAX_QTY,
    ensures
        0 <= group_retail_upto(items, products, pid, upto) <= upto * (MAX_PRICE * MAX_QTY),
    decreases upto,
{
    if upto > 0 {
        lemma_group_retail_upto_bounds(items, products, pid, upto - 1);
        vstd::arithmetic::mul::lemma_mul_is_distributive_add_other_way(
            MAX_PRICE * MAX_QTY,
            upto - 1,
            1,
        );
    }
}

proof fn lemma_group_retail_upto_mono(
    items: Seq<SaleItemRequest>,
    products: Seq<ProductInfo>,
    pid: Seq<char>,
    a: int,
    b: int,
)
    requires
        0 <= a <= b <= items.len(),
        forall|i: int|
            0 <= i < items.len() ==> 0 <= line_retail(#[trigger] items[i], products),
    ensures
        group_retail_upto(items, products, pid, a) <= group_retail_upto(items, products, pid, b),
    decreases b - a,
{
    if a < b {
        lemma_group_retail_upto_mono(items, products, pid, a, b - 1);
    }
}

/// Within one promotion, the allocated amounts of the first `upto` lines
/// telescope to the scaled cumulative price.
proof fn lemma_alloc_telescopes(
    items: Seq<SaleItemRequest>,
    products: Seq<ProductInfo>,
    v: Seq<ValidatedPromotion>,
    bp: int,
    lines: Seq<FinalLineData>,
    e: int,
    upto: int,
)
    requires
        validated_wf(v),
        0 <= e < v.len(),
        lines.len() == items.len(),
        0 <= upto <= items.len(),
        group_retail(items, products, v[e].promotion_id@) > 0,
        forall|i: int|
            0 <= i < items.len() ==> 0 <= line_retail(#[trigger] items[i], products),
        forall|i: int|
            0 <= i < items.len() ==> #[trigger] lines[i] == spec_final_line(
                items,
                products,
                v,
                bp,
                i,
            ),
        forall|i: int|
            0 <= i < items.len() && (#[trigger] items[i]).promotion_id is Some ==> find_vp(
                v,
                items[i].promotion_id->0@,
            ) is Some,
    ensures
        sum_promo_subtotals(lines, v[e].promotion_id@, upto) == scaled_price(
            v[e],
            group_retail_upto(items, products, v[e].promotion_id@, upto),
            group_retail(items, products, v[e].promotion_id@),
        ),
    decreases upto,
{
    let pid = v[e].promotion_id@;
    let gr = group_retail(items, products, pid);
    if upto == 0 {
        assert(scaled_price(v[e], 0, gr) == 0) by {
            vstd::arithmetic::mul::lemma_mul_basics(group_promo_price(v[e]));
        }
    } else {
        lemma_alloc_telescopes(items, products, v, bp, lines, e, upto - 1);
        let l = items[upto - 1];
        if line_in_promo(l, pid) {
            let vp_found = find_vp(v, pid)->0;
            lemma_find_vp_unique(v, pid, e);
            assert(vp_found == v[e]);
            let tp = group_promo_price(v[e]);
            let cum_lo = group_retail_upto(items, products, pid, upto - 1);
            let cum_hi = group_retail_upto(items, products, pid, upto);
            lemma_group_retail_upto_mono(items, products, pid, 0, upto - 1);
            lemma_group_retail_upto_mono(items, products, pid, upto - 1, upto);
            lemma_group_retail_upto_mono(items, products, pid, upto, items.len() as int);
            vstd::arithmetic::mul::lemma_mul_nonnegative(
                v[e].combo_price as int,
                v[e].instance_count as int,
            );
            vstd::arithmetic::mul::lemma_mul_upper_bound(
                v[e].combo_price as int,
                MAX_PRICE as int,
                v[e].instance_count as int,
                10_000_000,
            );
            vstd::arithmetic::mul::lemma_mul_inequality(cum_lo, cum_hi, tp);
            vstd::arithmetic::mul::lemma_mul_inequality(cum_hi, gr, tp);
            vstd::arithmetic::mul::lemma_mul_is_commutative(cum_lo, tp);
            vstd::arithmetic::mul::lemma_mul_is_commutative(cum_hi, tp);
            vstd::arithmetic::mul::lemma_mul_is_commutative(gr, tp);
            vstd::arithmetic::div_mod::lemma_div_is_ordered(tp * cum_lo, tp * cum_hi, gr);
            vstd::arithmetic::div_mod::lemma_div_is_ordered(tp * cum_hi, tp * gr, gr);
            vstd::arithmetic::div_mod::lemma_div_multiples_vanish(tp, gr);
            vstd::arithmetic::mul::lemma_mul_nonnegative(tp, cum_lo);
            vstd::arithmetic::div_mod::lemma_div_pos_is_pos(tp * cum_lo, gr);
            assert(0 <= spec_allocated(items, products, v[e], upto - 1) <= tp);
            assert(lines[upto - 1].subtotal as int == spec_allocated(items, products, v[e], upto - 1));
        } else {
            if lines[upto - 1].promotion_id matches Some(q) && q@ == pid {
                assert(l.promotion_id is Some && l.promotion_id->0@ == pid);
                assert(false);
            }
        }
    }
}

/// Computes the retail value of a promotion group's first `upto` lines.
fn group_retail_sum(
    items: &Vec<SaleItemRequest>,
    products: &Vec<ProductInfo>,
    pid: &String,
    upto: usize,
) -> (r: i64)
    requires
        cart_wf(items@),
        products_wf(products@),
        upto <= items@.len(),
        forall|i: int|
            0 <= i < items@.len() ==> find_product(products@, (#[trigger] items@[i]).product_id@)
                is Some,
    ensures
        r == group_retail_upto(items@, products@, pid@, upto as int),
        0 <= r <= (upto as int) * (MAX_PRICE * MAX_QTY),
{
    let mut r: i64 = 0;
    let mut i: usize = 0;
    while i < upto
        invariant
            0 <= i <= upto <= items@.len(),
            cart_wf(items@),
            products_wf(products@),
            forall|q: int|
                0 <= q < items@.len() ==> find_product(
                    products@,
                    (#[trigger] items@[q]).product_id@,
                ) is Some,
            r == group_retail_upto(items@, products@, pid@, i as int),
            0 <= r <= (i as int) * (MAX_PRICE * MAX_QTY),
        decreases upto - i,
    {
        proof {
            vstd::arithmetic::mul::lemma_mul_is_distributive_add_other_way(
                MAX_PRICE * MAX_QTY,
                i as int,
                1,
            );
            vstd::arithmetic::mul::lemma_mul_inequality(i as int, 500, MAX_PRICE * MAX_QTY);
        }
        if crate::promotions::line_promo_is(&items[i], pid) {
            let pidx = lookup_product(products, &items[i].product_id).unwrap();
            proof {
                vstd::arithmetic::mul::lemma_mul_nonnegative(
                    products@[pidx as int].retail_price as int,
                    items@[i as int].quantity as int,
                );
                vstd::arithmetic::mul::lemma_mul_upper_bound(
                    products@[pidx as int].retail_price as int,
                    MAX_PRICE as int,
                    items@[i as int].quantity as int,
                    MAX_QTY as int,
                );
            }
            r = r + products[pidx].retail_price * items[i].quantity;
        }
        i += 1;
    }
    r
}

/// Finds the validated entry of a promotion.
fn lookup_vp(v: &Vec<ValidatedPromotion>, pid: &String) -> (r: Option<usize>)
    ensures
        match r {
            Some(e) => e < v@.len() && find_vp(v@, pid@) == Some(v@[e as int]) && v@[
                e as int
            ].promotion_id@ == pid@,
            None => find_vp(v@, pid@) is None,
        },
{
    let mut e: usize = 0;
    proof {
        assert(v@.skip(0) =~= v@);
    }
    while e < v.len()
        invariant
            0 <= e <= v@.len(),
            find_vp(v@, pid@) == find_vp(v@.skip(e as int), pid@),
        decreases v@.len() - e,
    {
        proof {
            assert(v@.skip(e as int)[0] == v@[e as int]);
        }
        if v[e].promotion_id == *pid {
            return Some(e);
        }
        proof {
            assert(v@.skip(e as int).drop_first() =~= v@.skip(e + 1));
        }
        e += 1;
    }
    proof {
        assert(v@.skip(e as int).len() == 0);
    }
    None
}

/// Prices every cart line and sums the gross and discount totals.
///
/// Promotion lines take their proportional slice of the validated combo
/// price by cumulative rounding, with no further discount; within each
/// group the slices sum exactly to the combo price times the instance
/// count. Kit gifts price at zero; other lines price at retail or
/// wholesale with the global discount applied. Run twice over the same
/// inputs, the figures are identical.
#[verifier::rlimit(50)]
pub fn calculate_sale_items(
    items: &Vec<SaleItemRequest>,
    products: &Vec<ProductInfo>,
    validated: &Vec<ValidatedPromotion>,
    discount_bp: i64,
) -> (r: Result<(i64, i64, Vec<FinalLineData>), PosError>)
    requires
        cart_wf(items@),
        products_wf(products@),
        validated_wf(validated@),
        0 <= discount_bp <= MAX_DISCOUNT_BP,
    ensures
        match r {
            Ok((gross, disc, lines)) => {
                &&& forall|i: int|
                    0 <= i < items@.len() ==> find_product(
                        products@,
                        (#[trigger] items@[i]).product_id@,
                    ) is Some
                &&& forall|i: int|
                    0 <= i < items@.len() && (#[trigger] items@[i]).promotion_id is Some
                        ==> find_vp(validated@, items@[i].promotion_id->0@) is Some
                &&& lines@.len() == items@.len()
                &&& forall|i: int|
                    0 <= i < items@.len() ==> #[trigger] lines@[i] == spec_final_line(
                        items@,
                        products@,
                        validated@,
                        discount_bp as int,
                        i,
                    )
                &&& forall|i: int|
                    0 <= i < lines@.len() ==> 0 <= (#[trigger] lines@[i]).discount_amount
                        <= lines@[i].subtotal <= 1_000_000_000_000_000i64 && lines@[i].total
                        == lines@[i].subtotal - lines@[i].discount_amount
                &&& gross == spec_total_gross(items@, products@, validated@, items@.len() as int)
                &&& disc == spec_total_discount(
                    items@,
                    products@,
                    discount_bp as int,
                    items@.len() as int,
                )
                &&& gross == sum_subtotals(lines@)
                &&& disc == sum_discounts(lines@)
                &&& 0 <= disc <= gross
                &&& forall|e: int|
                    0 <= e < validated@.len() && group_retail(
                        items@,
                        products@,
                        (#[trigger] validated@[e]).promotion_id@,
                    ) > 0 ==> sum_promo_subtotals(
                        lines@,
                        validated@[e].promotion_id@,
                        lines@.len() as int,
                    ) == group_promo_price(validated@[e])
            },
            Err(e) => match e {
                PosError::ProductNotFound { line } => line < items@.len() && find_product(
                    products@,
                    items@[line as int].product_id@,
                ) is None,
                PosError::PromotionNotAvailable { group } => group < items@.len() && (
                items@[group as int].promotion_id matches Some(p) && find_vp(validated@, p@)
                    is None),
                _ => false,
            },
        },
{
    let n: usize = items.len();

    // Every product must be known, every promotion validated.
    let mut i: usize = 0;
    while i < n
        invariant
            0 <= i <= n,
            n == items@.len(),
            cart_wf(items@),
            products_wf(products@),
            forall|q: int|
                0 <= q < i ==> find_product(products@, (#[trigger] items@[q]).product_id@)
                    is Some,
            forall|q: int|
                0 <= q < i && (#[trigger] items@[q]).promotion_id is Some ==> find_vp(
                    validated@,
                    items@[q].promotion_id->0@,
                ) is Some,
        decreases n - i,
    {
        if lookup_product(products, &items[i].product_id).is_none() {
            return Err(PosError::ProductNotFound { line: i });
        }
        match &items[i].promotion_id {
            Some(pid) => {
                if lookup_vp(validated, pid).is_none() {
                    return Err(PosError::PromotionNotAvailable { group: i });
                }
            },
            None => {},
        }
        i += 1;
    }

    proof {
        assert forall|q: int|
            0 <= q < items@.len() implies 0 <= line_retail(#[trigger] items@[q], products@)
            <= MAX_PRICE * MAX_QTY by {
            let p = find_product(products@, items@[q].product_id@)->0;
            crate::cart::lemma_find_product_found(products@, items@[q].product_id@);
            vstd::arithmetic::mul::lemma_mul_nonnegative(
                p.retail_price as int,
                items@[q].quantity as int,
            );
            vstd::arithmetic::mul::lemma_mul_upper_bound(
                p.retail_price as int,
                MAX_PRICE as int,
                items@[q].quantity as int,
                MAX_QTY as int,
            );
        }
    }

    let mut lines: Vec<FinalLineData> = Vec::new();
    let mut total_gross: i64 = 0;
    let mut total_disc: i64 = 0;
    let mut k: usize = 0;
    proof {
        assert(lines@.take(0) =~= Seq::<FinalLineData>::empty());
    }
    while k < n
        invariant
            0 <= k <= n,
            n == items@.len(),
            cart_wf(items@),
            products_wf(products@),
            validated_wf(validated@),
            0 <= discount_bp <= MAX_DISCOUNT_BP,
            forall|q: int|
                0 <= q < items@.len() ==> find_product(products@, (#[trigger] items@[q]).product_id@)
                    is Some,
            forall|q: int|
                0 <= q < items@.len() && (#[trigger] items@[q]).promotion_id is Some ==> find_vp(
                    validated@,
                    items@[q].promotion_id->0@,
                ) is Some,
            forall|q: int|
                0 <= q < items@.len() ==> 0 <= line_retail(#[trigger] items@[q], products@)
                    <= MAX_PRICE * MAX_QTY,
            lines@.len() == k,
            forall|q: int|
                0 <= q < k ==> #[trigger] lines@[q] == spec_final_line(
                    items@,
                    products@,
                    validated@,
                    discount_bp as int,
                    q,
                ),
            forall|q: int|
                0 <= q < k ==> 0 <= (#[trigger] lines@[q]).discount_amount <= lines@[q].subtotal
                    <= 1_000_000_000_000_000i64 && lines@[q].total == lines@[q].subtotal
                    - lines@[q].discount_amount,
            total_gross == spec_total_gross(items@, products@, validated@, k as int),
            total_disc == spec_total_discount(items@, products@, discount_bp as int, k as int),
            total_gross == sum_subtotals(lines@),
            total_disc == sum_discounts(lines@),
            0 <= total_disc <= total_gross <= (k as int) * 1_000_000_000_000_000i64,
        decreases n - k,
    {
        let ghost old_lines = lines@;
        let l = &items[k];
        let pidx = lookup_product(products, &l.product_id).unwrap();
        let p = &products[pidx];
        match &l.promotion_id {
            Some(pid) => {
                let ve = lookup_vp(validated, pid).unwrap();
                let vp = &validated[ve];
                let gr: i64 = group_retail_sum(items, products, pid, items.len());
                let pre: i64 = group_retail_sum(items, products, pid, k);
                proof {
                    vstd::arithmetic::mul::lemma_mul_nonnegative(
                        vp.combo_price as int,
                        vp.instance_count as int,
                    );
                    vstd::arithmetic::mul::lemma_mul_upper_bound(
                        vp.combo_price as int,
                        MAX_PRICE as int,
                        vp.instance_count as int,
                        10_000_000,
                    );
                }
                let tp: i64 = vp.combo_price * vp.instance_count;
                let lr: i64 = p.retail_price * l.quantity;
                proof {
                    vstd::arithmetic::mul::lemma_mul_nonnegative(
                        p.retail_price as int,
                        l.quantity as int,
                    );
                    assert(lr == line_retail(items@[k as int], products@));
                    assert(pre + lr == group_retail_upto(
                        items@,
                        products@,
                        pid@,
                        k + 1,
                    ));
                }
                let alloc: i64;
                if gr > 0 {
                    proof {
                        lemma_group_retail_upto_mono(items@, products@, pid@, k + 1, n as int);
                        vstd::arithmetic::mul::lemma_mul_inequality(
                            pre as int,
                            pre + lr,
                            tp as int,
                        );
                        vstd::arithmetic::mul::lemma_mul_inequality(
                            pre + lr,
                            gr as int,
                            tp as int,
                        );
                        vstd::arithmetic::mul::lemma_mul_is_commutative(pre as int, tp as int);
                        vstd::arithmetic::mul::lemma_mul_is_commutative(pre + lr, tp as int);
                        vstd::arithmetic::mul::lemma_mul_is_commutative(gr as int, tp as int);
                        vstd::arithmetic::div_mod::lemma_div_is_ordered(
                            (tp as int) * (pre as int),
                            (tp as int) * (pre + lr),
                            gr as int,
                        );
                        vstd::arithmetic::div_mod::lemma_div_is_ordered(
                            (tp as int) * (pre + lr),
                            (tp as int) * (gr as int),
                            gr as int,
                        );
                        vstd::arithmetic::div_mod::lemma_div_multiples_vanish(
                            tp as int,
                            gr as int,
                        );
                        vstd::arithmetic::mul::lemma_mul_nonnegative(tp as int, pre as int);
                        vstd::arithmetic::div_mod::lemma_div_pos_is_pos(
                            (tp as int) * (pre as int),
                            gr as int,
                        );
                    }
                    let wide_hi: i128 = crate::util::mul_wide(tp, pre + lr);
                    let wide_lo: i128 = crate::util::mul_wide(tp, pre);
                    let a1: i128 = wide_hi / (gr as i128);
                    let a0: i128 = wide_lo / (gr as i128);
                    alloc = (a1 - a0) as i64;
                } else {
                    alloc = 0;
                }
                proof {
                    assert(alloc == spec_allocated(
                        items@,
                        products@,
                        validated@[ve as int],
                        k as int,
                    ));
                    vstd::arithmetic::div_mod::lemma_div_pos_is_pos(
                        (alloc as int) * 1000,
                        l.quantity as int,
                    );
                    vstd::arithmetic::div_mod::lemma_div_is_ordered(
                        (alloc as int) * 1000,
                        1_000_000_000_000_000_000,
                        l.quantity as int,
                    );
                }
                let up: i64 = (((alloc as i128) * 1000) / (l.quantity as i128)) as i64;
                lines.push(
                    FinalLineData {
                        request_id: crate::cart::copy_opt_string(&l.id),
                        product_id: l.product_id.clone(),
                        product_name: p.name.clone(),
                        product_code: p.code.clone(),
                        quantity: l.quantity,
                        price_type: l.price_type,
                        promotion_id: crate::cart::copy_opt_string(&l.promotion_id),
                        kit_option_id: crate::cart::copy_opt_string(&l.kit_option_id),
                        unit_price: up,
                        discount_amount: 0,
                        subtotal: alloc,
                        total: alloc,
                    },
                );
                proof {
                    assert(lines@.drop_last() =~= old_lines);
                    vstd::arithmetic::mul::lemma_mul_is_distributive_add_other_way(
                        1_000_000_000_000_000i64 as int,
                        k as int,
                        1,
                    );
                }
                total_gross = total_gross + alloc;
            },
            None => {
                let base: i64 = match l.price_type {
                    PriceType::KitItem => 0,
                    PriceType::Wholesale => p.wholesale_price,
                    _ => p.retail_price,
                };
                proof {
                    vstd::arithmetic::mul::lemma_mul_nonnegative(base as int, l.quantity as int);
                    vstd::arithmetic::mul::lemma_mul_upper_bound(
                        base as int,
                        MAX_PRICE as int,
                        l.quantity as int,
                        MAX_QTY as int,
                    );
                    vstd::arithmetic::div_mod::lemma_div_pos_is_pos(
                        (base as int) * (l.quantity as int),
                        1000,
                    );
                    vstd::arithmetic::div_mod::lemma_div_is_ordered(
                        (base as int) * (l.quantity as int),
                        MAX_PRICE * MAX_QTY,
                        1000,
                    );
                }
                let scaled: u64 = ((base as u64) * (l.quantity as u64));
                let gross: i64 = (scaled / 1000) as i64;
                let disc: i64;
                if matches!(l.price_type, PriceType::KitItem) {
                    disc = 0;
                } else {
                    proof {
                        vstd::arithmetic::mul::lemma_mul_nonnegative(
                            gross as int,
                            discount_bp as int,
                        );
                        vstd::arithmetic::mul::lemma_mul_upper_bound(
                            gross as int,
                            1_000_000_000_000i64 as int,
                            discount_bp as int,
                            MAX_DISCOUNT_BP as int,
                        );
                        vstd::arithmetic::div_mod::lemma_div_pos_is_pos(
                            (gross as int) * (discount_bp as int),
                            10000,
                        );
                        vstd::arithmetic::mul::lemma_mul_inequality(
                            discount_bp as int,
                            10000,
                            gross as int,
                        );
                        vstd::arithmetic::mul::lemma_mul_is_commutative(
                            discount_bp as int,
                            gross as int,
                        );
                        vstd::arithmetic::mul::lemma_mul_is_commutative(10000, gross as int);
                        vstd::arithmetic::div_mod::lemma_div_is_ordered(
                            (gross as int) * (discount_bp as int),
                            (gross as int) * 10000,
                            10000,
                        );
                        vstd::arithmetic::div_mod::lemma_div_multiples_vanish(
                            gross as int,
                            10000,
                        );
                    }
                    let dscaled: u64 = (gross as u64) * (discount_bp as u64);
                    disc = (dscaled / 10000) as i64;
                }
                lines.push(
                    FinalLineData {
                        request_id: crate::cart::copy_opt_string(&l.id),
                        product_id: l.product_id.clone(),
                        product_name: p.name.clone(),
                        product_code: p.code.clone(),
                        quantity: l.quantity,
                        price_type: l.price_type,
                        promotion_id: crate::cart::copy_opt_string(&l.promotion_id),
                        kit_option_id: crate::cart::copy_opt_string(&l.kit_option_id),
                        unit_price: base,
                        discount_amount: disc,
                        subtotal: gross,
                        total: gross - disc,
                    },
                );
                proof {
                    assert(lines@.drop_last() =~= old_lines);
                    vstd::arithmetic::mul::lemma_mul_is_distributive_add_other_way(
                        1_000_000_000_000_000i64 as int,
                        k as int,
                        1,
                    );
                }
                total_gross = total_gross + gross;
                total_disc = total_disc + disc;
            },
        }
        k += 1;
    }
    proof {
        assert forall|e: int|
            0 <= e < validated@.len() && group_retail(
                items@,
                products@,
                (#[trigger] validated@[e]).promotion_id@,
            ) > 0 implies sum_promo_subtotals(
            lines@,
            validated@[e].promotion_id@,
            lines@.len() as int,
        ) == group_promo_price(validated@[e]) by {
            let pid = validated@[e].promotion_id@;
            let gr = group_retail(items@, products@, pid);
            lemma_alloc_telescopes(
                items@,
                products@,
                validated@,
                discount_bp as int,
                lines@,
                e,
                items@.len() as int,
            );
            vstd::arithmetic::div_mod::lemma_div_multiples_vanish(
                group_promo_price(validated@[e]),
                gr,
            );
            vstd::arithmetic::mul::lemma_mul_is_commutative(gr, group_promo_price(validated@[e]));
        }
    }
    Ok((total_gross, total_disc, lines))
}

/// Pricing has no hidden state: any two results that meet the calculator's
/// contract on the same validated cart carry identical figures, line by
/// line and in total.
pub proof fn lemma_pricing_idempotent(
    items: Seq<SaleItemRequest>,
    products: Seq<ProductInfo>,
    v: Seq<ValidatedPromotion>,
    bp: int,
    g1: int,
    d1: int,
    l1: Seq<FinalLineData>,
    g2: int,
    d2: int,
    l2: Seq<FinalLineData>,
)
    requires
        g1 == spec_total_gross(items, products, v, items.len() as int),
        g2 == spec_total_gross(items, products, v, items.len() as int),
        d1 == spec_total_discount(items, products, bp, items.len() as int),
        d2 == spec_total_discount(items, products, bp, items.len() as int),
        l1.len() == items.len(),
        l2.len() == items.len(),
        forall|i: int|
            0 <= i < items.len() ==> #[trigger] l1[i] == spec_final_line(items, products, v, bp, i),
        forall|i: int|
            0 <= i < items.len() ==> #[trigger] l2[i] == spec_final_line(items, products, v, bp, i),
    ensures
        g1 == g2,
        d1 == d2,
        l1 == l2,
{
    assert(l1 =~= l2);
}

} // verus!
