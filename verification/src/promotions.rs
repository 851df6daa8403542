//! Promotion validation: checks that the lines tagged with each promotion
//! form complete, proportionally scaled instances of a fixed combo, and
//! derives the instance count used by pricing.
//!
//! An accepted group provides, for every required product, exactly the
//! required quantity times the instance count (within one milliunit), and
//! provides no product outside the combo.

use vstd::prelude::*;
use crate::cart::{cart_wf, SaleItemRequest};
use crate::errors::PosError;
use crate::{MAX_COMBO_QTY, MAX_PRICE, MAX_QTY, QTY_EPS};

verus! {

/// One product requirement of a promotion combo.
#[derive(Clone, Debug)]
pub struct ComboItemDto {
    pub product_id: String,
    /// Whole units required per combo instance.
    pub quantity: i32,
}

/// A promotion definition as loaded from storage. Days are day numbers on
/// a single calendar scale chosen by the caller.
#[derive(Clone, Debug)]
pub struct PromotionDef {
    pub id: String,
    /// Final price of one combo instance, cents.
    pub combo_price: i64,
    pub start_day: i64,
    pub end_day: i64,
    pub is_active: bool,
    pub items: Vec<ComboItemDto>,
}

/// One validated promotion group: how many combo instances the cart holds
/// and at what combo price.
#[derive(Clone, Debug)]
pub struct ValidatedPromotion {
    pub promotion_id: String,
    /// Cents.
    pub combo_price: i64,
    pub instance_count: i64,
}

pub open spec fn promo_def_wf(d: PromotionDef) -> bool {
    &&& 0 <= d.combo_price <= MAX_PRICE
    &&& forall|t: int|
        0 <= t < d.items.len() ==> 1 <= (#[trigger] d.items[t]).quantity <= MAX_COMBO_QTY
    &&& forall|t: int, u: int|
        0 <= t < d.items.len() && 0 <= u < d.items.len() && t != u ==> d.items[t].product_id@
            != d.items[u].product_id@
}

/// Definitions are within bounds and carry pairwise distinct ids.
pub open spec fn promos_wf(ds: Seq<PromotionDef>) -> bool {
    &&& forall|i: int| 0 <= i < ds.len() ==> promo_def_wf(#[trigger] ds[i])
    &&& forall|i: int, j: int|
        0 <= i < ds.len() && 0 <= j < ds.len() && i != j ==> ds[i].id@ != ds[j].id@
}

/// The line is tagged with the promotion `pid`.
pub open spec fn line_in_promo(l: SaleItemRequest, pid: Seq<char>) -> bool {
    l.promotion_id matches Some(q) && q@ == pid
}

/// Total quantity the cart provides of product `p` under promotion `pid`,
/// in milliunits.
pub open spec fn promo_provided(items: Seq<SaleItemRequest>, pid: Seq<char>, p: Seq<char>) -> int
    decreases items.len(),
{
    if items.len() == 0 {
        0
    } else {
        promo_provided(items.drop_last(), pid, p) + if line_in_promo(items.last(), pid)
            && items.last().product_id@ == p {
            items.last().quantity as int
        } else {
            0
        }
    }
}

/// Some line of the cart is tagged with promotion `pid`.
pub open spec fn promo_id_used(items: Seq<SaleItemRequest>, pid: Seq<char>) -> bool {
    exists|q: int|
        0 <= q < items.len() && (#[trigger] items[q]).promotion_id is Some
            && items[q].promotion_id->0@ == pid
}

/// Some line of the group provides product `p`.
pub open spec fn group_has_product(items: Seq<SaleItemRequest>, pid: Seq<char>, p: Seq<char>) -> bool {
    exists|i: int|
        0 <= i < items.len() && line_in_promo(#[trigger] items[i], pid) && items[i].product_id@ == p
}

/// Number of distinct products among the lines of the group: a line counts
/// when no earlier line of the group carries its product.
pub open spec fn group_product_count(items: Seq<SaleItemRequest>, pid: Seq<char>) -> int
    decreases items.len(),
{
    if items.len() == 0 {
        0
    } else {
        group_product_count(items.drop_last(), pid) + if line_in_promo(items.last(), pid)
            && !group_has_product(items.drop_last(), pid, items.last().product_id@) {
            1int
        } else {
            0
        }
    }
}

/// The instance count the combo's first requirement pins down: the provided
/// quantity over the required one, rounded half-up.
pub open spec fn promo_instances(items: Seq<SaleItemRequest>, def: PromotionDef) -> int
    recommends
        def.items.len() > 0,
{
    let r0 = def.items[0].quantity as int;
    let prov0 = promo_provided(items, def.id@, def.items[0].product_id@);
    (prov0 + 500 * r0) / (1000 * r0)
}

/// An accepted promotion group: `k` is the pinned instance count, at least
/// one whole instance is present, every required product is provided in
/// quantity `required x k` within one milliunit, and no foreign product is
/// tagged with the promotion.
#[verifier::opaque]
pub open spec fn promo_accept(items: Seq<SaleItemRequest>, def: PromotionDef, k: int) -> bool {
    let r0 = def.items[0].quantity as int;
    let prov0 = promo_provided(items, def.id@, def.items[0].product_id@);
    &&& def.items.len() > 0
    &&& k == promo_instances(items, def)
    &&& k >= 1
    &&& prov0 >= 1000 * r0
    &&& -r0 <= prov0 - k * (1000 * r0) <= r0
    &&& forall|t: int|
        0 <= t < def.items.len() ==> {
            let prov = promo_provided(items, def.id@, (#[trigger] def.items[t]).product_id@);
            &&& prov > 0
            &&& -QTY_EPS <= prov - (def.items[t].quantity as int) * k * 1000 <= QTY_EPS
        }
    &&& forall|i: int|
        0 <= i < items.len() && line_in_promo(#[trigger] items[i], def.id@) ==> exists|t: int|
            0 <= t < def.items.len() && (#[trigger] def.items[t]).product_id@
                == items[i].product_id@
}

/// The provided quantity of any product under any promotion stays within
/// what the cart can hold.
pub proof fn lemma_promo_provided_bound(items: Seq<SaleItemRequest>, pid: Seq<char>, p: Seq<char>)
    requires
        cart_wf(items),
    ensures
        0 <= promo_provided(items, pid, p) <= items.len() * MAX_QTY,
    decreases items.len(),
{
    if items.len() > 0 {
        assert(cart_wf(items.drop_last()));
        lemma_promo_provided_bound(items.drop_last(), pid, p);
        vstd::arithmetic::mul::lemma_mul_is_distributive_add_other_way(
            MAX_QTY as int,
            items.len() - 1 as int,
            1,
        );
    }
}

/// A validated entry's figures are within the bounds pricing needs.
pub proof fn lemma_entry_bounds(
    ent: ValidatedPromotion,
    items: Seq<SaleItemRequest>,
    promos: Seq<PromotionDef>,
    today: int,
)
    requires
        cart_wf(items),
        promos_wf(promos),
        promo_entry_ok(ent, items, promos, today),
    ensures
        1 <= ent.instance_count <= 10_000_000,
        0 <= ent.combo_price <= MAX_PRICE,
{
    reveal(promo_accept);
    let d = choose|d: int|
        0 <= d < promos.len() && (#[trigger] promos[d]).id@ == ent.promotion_id@
            && promos[d].is_active && promos[d].start_day <= today <= promos[d].end_day
            && ent.combo_price == promos[d].combo_price && promo_accept(
            items,
            promos[d],
            ent.instance_count as int,
        );
    let def = promos[d];
    let r0 = def.items[0].quantity as int;
    let prov0 = promo_provided(items, def.id@, def.items[0].product_id@);
    lemma_promo_provided_bound(items, def.id@, def.items[0].product_id@);
    vstd::arithmetic::mul::lemma_mul_inequality(items.len() as int, 500, MAX_QTY as int);
    let num = prov0 + 500 * r0;
    let denom = 1000 * r0;
    vstd::arithmetic::div_mod::lemma_div_is_ordered_by_denominator(num, 1000, denom);
    vstd::arithmetic::div_mod::lemma_div_is_ordered(num, 5_500_000_000int, 1000);
}

/// Exec test for `line_in_promo`.
pub fn line_promo_is(l: &SaleItemRequest, pid: &String) -> (r: bool)
    ensures
        r == line_in_promo(*l, pid@),
{
    match &l.promotion_id {
        Some(q) => *q == *pid,
        None => false,
    }
}

/// Total provided quantity of `p` under `pid`, matching `promo_provided`.
fn provided_qty(items: &Vec<SaleItemRequest>, pid: &String, p: &String) -> (r: i64)
    requires
        cart_wf(items@),
    ensures
        r == promo_provided(items@, pid@, p@),
        0 <= r <= items@.len() * MAX_QTY,
{
    let mut r: i64 = 0;
    let mut i: usize = 0;
    proof {
        assert(items@.take(0) =~= Seq::<SaleItemRequest>::empty());
    }
    while i < items.len()
        invariant
            0 <= i <= items@.len(),
            cart_wf(items@),
            r == promo_provided(items@.take(i as int), pid@, p@),
            0 <= r <= (i as int) * MAX_QTY,
        decreases items@.len() - i,
    {
        proof {
            assert(items@.take(i + 1).drop_last() =~= items@.take(i as int));
            assert(items@.take(i + 1).last() == items@[i as int]);
            vstd::arithmetic::mul::lemma_mul_is_distributive_add_other_way(
                MAX_QTY as int,
                i as int,
                1,
            );
        }
        if line_promo_is(&items[i], pid) && items[i].product_id == *p {
            r = r + items[i].quantity;
        }
        i += 1;
    }
    proof {
        assert(items@.take(items@.len() as int) =~= items@);
    }
    r
}

/// Whether any line of the group before `upto` carries product `p`.
fn group_seen(items: &Vec<SaleItemRequest>, pid: &String, upto: usize, p: &String) -> (r: bool)
    requires
        upto <= items@.len(),
    ensures
        r == group_has_product(items@.take(upto as int), pid@, p@),
{
    let mut j: usize = 0;
    while j < upto
        invariant
            0 <= j <= upto <= items@.len(),
            forall|q: int|
                0 <= q < j ==> !(line_in_promo(#[trigger] items@[q], pid@) && items@[q].product_id@
                    == p@),
        decreases upto - j,
    {
        if line_promo_is(&items[j], pid) && items[j].product_id == *p {
            proof {
                assert(items@.take(upto as int)[j as int] == items@[j as int]);
            }
            return true;
        }
        j += 1;
    }
    proof {
        assert(forall|q: int|
            0 <= q < upto ==> items@.take(upto as int)[q] == items@[q]);
    }
    false
}

/// Distinct products among the group's lines, matching
/// `group_product_count`.
fn count_group_products(items: &Vec<SaleItemRequest>, pid: &String) -> (r: usize)
    ensures
        r == group_product_count(items@, pid@),
{
    let mut r: usize = 0;
    let mut i: usize = 0;
    proof {
        assert(items@.take(0) =~= Seq::<SaleItemRequest>::empty());
    }
    while i < items.len()
        invariant
            0 <= i <= items@.len(),
            r <= i,
            r == group_product_count(items@.take(i as int), pid@),
        decreases items@.len() - i,
    {
        proof {
            assert(items@.take(i + 1).drop_last() =~= items@.take(i as int));
            assert(items@.take(i + 1).last() == items@[i as int]);
        }
        if line_promo_is(&items[i], pid) {
            if !group_seen(items, pid, i, &items[i].product_id) {
                r = r + 1;
            }
        }
        i += 1;
    }
    proof {
        assert(items@.take(items@.len() as int) =~= items@);
    }
    r
}

/// Whether the combo lists product `p`.
fn def_has_product(def: &PromotionDef, p: &String) -> (r: bool)
    ensures
        r == exists|t: int|
            0 <= t < def.items@.len() && (#[trigger] def.items@[t]).product_id@ == p@,
{
    let mut t: usize = 0;
    while t < def.items.len()
        invariant
            0 <= t <= def.items@.len(),
            forall|q: int| 0 <= q < t ==> (#[trigger] def.items@[q]).product_id@ != p@,
        decreases def.items@.len() - t,
    {
        if def.items[t].product_id == *p {
            return true;
        }
        t += 1;
    }
    false
}

/// Finds the definition carrying the given promotion id.
fn find_promo(promos: &Vec<PromotionDef>, pid: &String) -> (r: Option<usize>)
    ensures
        match r {
            Some(d) => d < promos@.len() && promos@[d as int].id@ == pid@,
            None => forall|d: int| 0 <= d < promos@.len() ==> (#[trigger] promos@[d]).id@ != pid@,
        },
{
    let mut d: usize = 0;
    while d < promos.len()
        invariant
            0 <= d <= promos@.len(),
            forall|q: int| 0 <= q < d ==> (#[trigger] promos@[q]).id@ != pid@,
        decreases promos@.len() - d,
    {
        if promos[d].id == *pid {
            return Some(d);
        }
        d += 1;
    }
    None
}



/// One validated entry is backed by an active, in-window definition that the
/// cart satisfies.
pub open spec fn promo_entry_ok(
    ent: ValidatedPromotion,
    items: Seq<SaleItemRequest>,
    promos: Seq<PromotionDef>,
    today: int,
) -> bool {
    exists|d: int|
        0 <= d < promos.len() && (#[trigger] promos[d]).id@ == ent.promotion_id@
            && promos[d].is_active && promos[d].start_day <= today <= promos[d].end_day
            && ent.combo_price == promos[d].combo_price && promo_accept(
            items,
            promos[d],
            ent.instance_count as int,
        )
}

/// What each rejection of promotion validation says of the cart and the
/// definitions.
pub open spec fn promo_rejection(
    e: PosError,
    items: Seq<SaleItemRequest>,
    promos: Seq<PromotionDef>,
    today: int,
) -> bool {
    match e {
        PosError::PromotionNotAvailable { .. } => exists|i: int|
            0 <= i < items.len() && (#[trigger] items[i]).promotion_id is Some && (forall|d: int|
                0 <= d < promos.len() ==> !((#[trigger] promos[d]).id@
                    == items[i].promotion_id->0@ && promos[d].is_active && promos[d].start_day
                    <= today <= promos[d].end_day)),
        PosError::PromotionNotConfigured { .. } => exists|i: int, d: int|
            0 <= i < items.len() && 0 <= d < promos.len() && (#[trigger] items[i]).promotion_id
                is Some && (#[trigger] promos[d]).id@ == items[i].promotion_id->0@
                && promos[d].items@.len() == 0,
        PosError::PromotionCardinality { required, provided, .. } => exists|i: int, d: int|
            0 <= i < items.len() && 0 <= d < promos.len() && (#[trigger] items[i]).promotion_id
                is Some && (#[trigger] promos[d]).id@ == items[i].promotion_id->0@ && required
                == promos[d].items@.len() && provided == group_product_count(items, promos[d].id@)
                && required != provided,
        PosError::PromotionMissingProduct { .. } => exists|i: int, d: int|
            0 <= i < items.len() && 0 <= d < promos.len() && (#[trigger] items[i]).promotion_id
                is Some && (#[trigger] promos[d]).id@ == items[i].promotion_id->0@ && (exists|
                t: int,
            |
                0 <= t < promos[d].items@.len() && promo_provided(
                    items,
                    promos[d].id@,
                    (#[trigger] promos[d].items@[t]).product_id@,
                ) == 0),
        PosError::PromotionBadMultiplier { provided, required, .. } => exists|i: int, d: int|
            0 <= i < items.len() && 0 <= d < promos.len() && (#[trigger] items[i]).promotion_id
                is Some && (#[trigger] promos[d]).id@ == items[i].promotion_id->0@
                && promos[d].items@.len() > 0 && {
                let r0 = promos[d].items@[0].quantity as int;
                let prov0 = promo_provided(items, promos[d].id@, promos[d].items@[0].product_id@);
                &&& provided == prov0
                &&& required == r0
                &&& (prov0 < 1000 * r0 || {
                    let k = promo_instances(items, promos[d]);
                    prov0 - k * (1000 * r0) > r0 || prov0 - k * (1000 * r0) < -r0
                })
            },
        PosError::PromotionQuantityMismatch { expected, provided, .. } => exists|
            i: int,
            d: int,
            t: int,
        |
            0 <= i < items.len() && 0 <= d < promos.len() && (#[trigger] items[i]).promotion_id
                is Some && (#[trigger] promos[d]).id@ == items[i].promotion_id->0@ && 0 <= t
                < promos[d].items@.len() && {
                let k = promo_instances(items, promos[d]);
                let prov = promo_provided(
                    items,
                    promos[d].id@,
                    (#[trigger] promos[d].items@[t]).product_id@,
                );
                &&& expected == (promos[d].items@[t].quantity as int) * k * 1000
                &&& provided == prov
                &&& (prov - expected > QTY_EPS || prov - expected < -QTY_EPS)
            },
        PosError::PromotionExtraProduct { line } => {
            &&& line < items.len()
            &&& items[line as int].promotion_id is Some
            &&& (exists|d: int|
                0 <= d < promos.len() && (#[trigger] promos[d]).id@
                    == items[line as int].promotion_id->0@ && (forall|t: int|
                    0 <= t < promos[d].items@.len() ==> (
                    #[trigger] promos[d].items@[t]).product_id@
                        != items[line as int].product_id@))
        },
        _ => false,
    }
}

/// Validates one promotion group and pins its instance count.
fn validate_group(
    items: &Vec<SaleItemRequest>,
    promos: &Vec<PromotionDef>,
    d: usize,
    g: usize,
    pid: &String,
    today: i64,
) -> (r: Result<i64, PosError>)
    requires
        cart_wf(items@),
        promos_wf(promos@),
        d < promos@.len(),
        promos@[d as int].id@ == pid@,
        promo_id_used(items@, pid@),
    ensures
        match r {
            Ok(k) => promo_accept(items@, promos@[d as int], k as int),
            Err(e) => promo_rejection(e, items@, promos@, today as int),
        },
{
    let n: usize = items.len();
    let ghost pv = pid@;
    proof {
        let qq = choose|q: int|
            0 <= q < items@.len() && (#[trigger] items@[q]).promotion_id is Some
                && items@[q].promotion_id->0@ == pv;
        assert(items@[qq].promotion_id->0@ == promos@[d as int].id@);
    }
    if promos[d].items.len() == 0 {
        return Err(PosError::PromotionNotConfigured { group: g });
    }

    // Step one: the numbers of distinct products must agree.
    let provided_count = count_group_products(items, pid);
    if provided_count != promos[d].items.len() {
        return Err(PosError::PromotionCardinality {
            group: g,
            required: promos[d].items.len(),
            provided: provided_count,
        });
    }

    // Step two: the first requirement pins the multiplier.
    let r0: i64 = promos[d].items[0].quantity as i64;
    let prov0: i64 = provided_qty(items, pid, &promos[d].items[0].product_id);
    if prov0 == 0 {
        return Err(PosError::PromotionMissingProduct { group: g, product: 0 });
    }
    if prov0 < 1000 * r0 {
        return Err(PosError::PromotionBadMultiplier { group: g, provided: prov0, required: r0 });
    }
    let denom: i64 = 1000 * r0;
    let num: i64 = prov0 + 500 * r0;
    let k: i64 = ((num as u64) / (denom as u64)) as i64;
    proof {
        vstd::arithmetic::div_mod::lemma_div_pos_is_pos(num as int, denom as int);
        vstd::arithmetic::div_mod::lemma_div_nonincreasing(num as int, denom as int);
        vstd::arithmetic::div_mod::lemma_fundamental_div_mod(num as int, denom as int);
        vstd::arithmetic::div_mod::lemma_mod_bound(num as int, denom as int);
        assert(k == promo_instances(items@, promos@[d as int]));
        vstd::arithmetic::mul::lemma_mul_inequality(items@.len() as int, 500, MAX_QTY as int);
        assert(k <= 6_000_000_000i64);
        assert(k * denom == denom * k) by {
            vstd::arithmetic::mul::lemma_mul_is_commutative(k as int, denom as int);
        }
    }
    let diff: i64 = prov0 - k * denom;
    if diff > r0 || diff < -r0 {
        return Err(PosError::PromotionBadMultiplier { group: g, provided: prov0, required: r0 });
    }
    proof {
        assert(k >= 1) by {
            assert(k * denom >= prov0 - r0);
            if k <= 0 {
                vstd::arithmetic::mul::lemma_mul_inequality(k as int, 0, denom as int);
            }
        }
    }

    // Step three: every required product in the exact multiple.
    let mut t: usize = 0;
    while t < promos[d].items.len()
        invariant
            n == items@.len(),
            cart_wf(items@),
            promos_wf(promos@),
            d < promos@.len(),
            promos@[d as int].id@ == pid@,
            promo_id_used(items@, pid@),
            promos@[d as int].items@.len() > 0,
            0 <= t <= promos@[d as int].items@.len(),
            1 <= k,
            k == promo_instances(items@, promos@[d as int]),
            k <= 6_000_000_000i64,
            forall|u: int|
                0 <= u < t ==> {
                    let prov = promo_provided(
                        items@,
                        promos@[d as int].id@,
                        (#[trigger] promos@[d as int].items@[u]).product_id@,
                    );
                    &&& prov > 0
                    &&& -QTY_EPS <= prov - (promos@[d as int].items@[u].quantity as int) * (
                    k as int) * 1000 <= QTY_EPS
                },
        decreases promos@[d as int].items@.len() - t,
    {
        let q_t: i64 = promos[d].items[t].quantity as i64;
        let prov_t: i64 = provided_qty(items, pid, &promos[d].items[t].product_id);
        if prov_t == 0 {
            proof {
                let qq = choose|q: int|
                    0 <= q < items@.len() && (#[trigger] items@[q]).promotion_id is Some
                        && items@[q].promotion_id->0@ == pid@;
                assert(items@[qq].promotion_id->0@ == promos@[d as int].id@);
                assert(promo_provided(
                    items@,
                    promos@[d as int].id@,
                    promos@[d as int].items@[t as int].product_id@,
                ) == 0);
            }
            return Err(PosError::PromotionMissingProduct { group: g, product: t });
        }
        proof {
            assert(promo_def_wf(promos@[d as int]));
            assert(1 <= q_t <= MAX_COMBO_QTY);
            vstd::arithmetic::mul::lemma_mul_nonnegative(q_t as int, k as int);
            vstd::arithmetic::mul::lemma_mul_upper_bound(
                q_t as int,
                MAX_COMBO_QTY as int,
                k as int,
                6_000_000_000int,
            );
        }
        let expected: i64 = q_t * k * 1000;
        let delta: i64 = prov_t - expected;
        if delta > QTY_EPS || delta < -QTY_EPS {
            return Err(PosError::PromotionQuantityMismatch {
                group: g,
                product: t,
                expected,
                provided: prov_t,
            });
        }
        t += 1;
    }

    // Step four: no foreign product may ride on the promotion.
    let mut li: usize = 0;
    while li < n
        invariant
            n == items@.len(),
            d < promos@.len(),
            promos@[d as int].id@ == pid@,
            0 <= li <= n,
            forall|q: int|
                0 <= q < li && line_in_promo(#[trigger] items@[q], pid@) ==> exists|w: int|
                    0 <= w < promos@[d as int].items@.len() && (
                    #[trigger] promos@[d as int].items@[w]).product_id@ == items@[q].product_id@,
        decreases n - li,
    {
        if line_promo_is(&items[li], pid) {
            if !def_has_product(&promos[d], &items[li].product_id) {
                proof {
                    assert(items@[li as int].promotion_id is Some);
                    assert(items@[li as int].promotion_id->0@ == promos@[d as int].id@);
                }
                return Err(PosError::PromotionExtraProduct { line: li });
            }
        }
        li += 1;
    }
    proof {
        reveal(promo_accept);
        assert(promo_accept(items@, promos@[d as int], k as int));
    }
    Ok(k)
}

/// Validates every promotion group of one list of promotion ids.
fn validate_each(
    items: &Vec<SaleItemRequest>,
    promos: &Vec<PromotionDef>,
    used: &Vec<String>,
    today: i64,
) -> (r: Result<Vec<ValidatedPromotion>, PosError>)
    requires
        cart_wf(items@),
        promos_wf(promos@),
        forall|u: int| 0 <= u < used@.len() ==> promo_id_used(items@, (#[trigger] used@[u])@),
        forall|u1: int, u2: int|
            0 <= u1 < used@.len() && 0 <= u2 < used@.len() && u1 != u2 ==> (
            #[trigger] used@[u1])@ != (#[trigger] used@[u2])@,
    ensures
        match r {
            Ok(v) => {
                &&& v@.len() == used@.len()
                &&& forall|e: int| 0 <= e < v@.len() ==> (#[trigger] v@[e]).promotion_id@ == used@[e]@
                &&& forall|e: int|
                    0 <= e < v@.len() ==> promo_entry_ok(
                        #[trigger] v@[e],
                        items@,
                        promos@,
                        today as int,
                    )
            },
            Err(e) => {
                &&& promo_rejection(e, items@, promos@, today as int)
                &&& exists|i: int|
                    0 <= i < items@.len() && !((#[trigger] items@[i]).promotion_id is None)
            },
        },
{
    let n: usize = items.len();
    let mut result: Vec<ValidatedPromotion> = Vec::new();
    let mut g: usize = 0;
    while g < used.len()
        invariant
            n == items@.len(),
            cart_wf(items@),
            promos_wf(promos@),
            0 <= g <= used@.len(),
            result@.len() == g,
            forall|u: int| 0 <= u < used@.len() ==> promo_id_used(items@, (#[trigger] used@[u])@),
            forall|u1: int, u2: int|
                0 <= u1 < used@.len() && 0 <= u2 < used@.len() && u1 != u2 ==> (
                #[trigger] used@[u1])@ != (#[trigger] used@[u2])@,
            forall|e: int| 0 <= e < g ==> (#[trigger] result@[e]).promotion_id@ == used@[e]@,
            forall|e: int|
                0 <= e < g ==> promo_entry_ok(#[trigger] result@[e], items@, promos@, today as int),
        decreases used@.len() - g,
    {
        let pid: &String = &used[g];
        let dopt = find_promo(promos, pid);
        let d: usize;
        match dopt {
            None => {
                proof {
                    assert(promo_id_used(items@, used@[g as int]@));
                }
                return Err(PosError::PromotionNotAvailable { group: g });
            },
            Some(dd) => {
                d = dd;
            },
        }
        if !promos[d].is_active || today < promos[d].start_day || today > promos[d].end_day {
            proof {
                assert(promo_id_used(items@, used@[g as int]@));
                let qq = choose|q: int|
                    0 <= q < items@.len() && (#[trigger] items@[q]).promotion_id is Some
                        && items@[q].promotion_id->0@ == used@[g as int]@;
                assert forall|d2: int| 0 <= d2 < promos@.len() implies !((
                #[trigger] promos@[d2]).id@ == items@[qq].promotion_id->0@ && promos@[d2].is_active
                    && promos@[d2].start_day <= today <= promos@[d2].end_day) by {
                    if promos@[d2].id@ == items@[qq].promotion_id->0@ {
                        assert(d2 == d);
                    }
                }
            }
            return Err(PosError::PromotionNotAvailable { group: g });
        }
        let k: i64;
        match validate_group(items, promos, d, g, pid, today) {
            Ok(kk) => {
                k = kk;
            },
            Err(e) => {
                proof {
                    assert(promo_id_used(items@, used@[g as int]@));
                }
                return Err(e);
            },
        }
        result.push(
            ValidatedPromotion {
                promotion_id: pid.clone(),
                combo_price: promos[d].combo_price,
                instance_count: k,
            },
        );
        proof {
            assert(promo_entry_ok(result@.last(), items@, promos@, today as int));
        }
        g += 1;
    }
    Ok(result)
}

/// Validates every promotion group of the cart against the definitions,
/// for the given day.
///
/// On acceptance, each returned entry pins the instance count of one
/// promotion used by the cart, and that group satisfies `promo_accept`:
/// every required product is provided in exact multiple quantity and no
/// foreign product is tagged. A cart without promotion tags is always
/// accepted with an empty result.
pub fn validate_promotions(
    items: &Vec<SaleItemRequest>,
    promos: &Vec<PromotionDef>,
    today: i64,
) -> (r: Result<Vec<ValidatedPromotion>, PosError>)
    requires
        cart_wf(items@),
        promos_wf(promos@),
    ensures
        match r {
            Ok(v) => {
                &&& forall|e1: int, e2: int|
                    0 <= e1 < v@.len() && 0 <= e2 < v@.len() && e1 != e2 ==> (
                    #[trigger] v@[e1]).promotion_id@ != (#[trigger] v@[e2]).promotion_id@
                &&& forall|e: int|
                    0 <= e < v@.len() ==> promo_entry_ok(
                        #[trigger] v@[e],
                        items@,
                        promos@,
                        today as int,
                    )
                &&& forall|e: int|
                    0 <= e < v@.len() ==> exists|i: int|
                        0 <= i < items@.len() && line_in_promo(
                            #[trigger] items@[i],
                            (#[trigger] v@[e]).promotion_id@,
                        )
                &&& forall|i: int|
                    0 <= i < items@.len() && (#[trigger] items@[i]).promotion_id is Some
                        ==> exists|e: int|
                        0 <= e < v@.len() && (#[trigger] v@[e]).promotion_id@
                            == items@[i].promotion_id->0@
                &&& (forall|i: int|
                    0 <= i < items@.len() ==> (#[trigger] items@[i]).promotion_id is None)
                    ==> v@.len() == 0
            },
            Err(e) => {
                &&& exists|i: int|
                    0 <= i < items@.len() && !((#[trigger] items@[i]).promotion_id is None)
                &&& promo_rejection(e, items@, promos@, today as int)
            },
        },
{
    let n: usize = items.len();

    // Promotion ids in order of first appearance.
    let mut used: Vec<String> = Vec::new();
    let mut i: usize = 0;
    while i < n
        invariant
            0 <= i <= n,
            n == items@.len(),
            forall|u: int|
                0 <= u < used@.len() ==> promo_id_used(items@, (#[trigger] used@[u])@),
            forall|q: int|
                0 <= q < i && (#[trigger] items@[q]).promotion_id is Some ==> crate::util::has_str(
                    used@,
                    items@[q].promotion_id->0@,
                ),
            forall|u1: int, u2: int|
                0 <= u1 < used@.len() && 0 <= u2 < used@.len() && u1 != u2 ==> (
                #[trigger] used@[u1])@ != (#[trigger] used@[u2])@,
        decreases n - i,
    {
        match &items[i].promotion_id {
            Some(p) => {
                if !crate::util::contains_str(&used, p) {
                    let ghost old_used = used@;
                    used.push(p.clone());
                    proof {
                        assert(old_used.push(used@.last()) =~= used@);
                        assert(used@.last()@ == items@[i as int].promotion_id->0@);
                        assert(promo_id_used(items@, used@.last()@));
                        assert forall|q: int|
                            0 <= q < i + 1 && (#[trigger] items@[q]).promotion_id is Some implies crate::util::has_str(
                            used@,
                            items@[q].promotion_id->0@,
                        ) by {
                            crate::util::lemma_has_str_push(
                                old_used,
                                used@.last(),
                                items@[q].promotion_id->0@,
                            );
                        }
                    }
                }
            },
            None => {},
        }
        i += 1;
    }

    let result: Vec<ValidatedPromotion>;
    match validate_each(items, promos, &used, today) {
        Ok(v) => {
            result = v;
        },
        Err(e) => {
            return Err(e);
        },
    }
    proof {
        assert forall|i2: int|
            0 <= i2 < items@.len() && (#[trigger] items@[i2]).promotion_id is Some implies exists|
            e: int,
        | 0 <= e < result@.len() && (#[trigger] result@[e]).promotion_id@
            == items@[i2].promotion_id->0@ by {
            assert(crate::util::has_str(used@, items@[i2].promotion_id->0@));
            let u = choose|u: int|
                0 <= u < used@.len() && (#[trigger] used@[u])@ == items@[i2].promotion_id->0@;
            assert(result@[u].promotion_id@ == used@[u]@);
        }
        assert forall|e: int| 0 <= e < result@.len() implies exists|i2: int|
            0 <= i2 < items@.len() && line_in_promo(
                #[trigger] items@[i2],
                (#[trigger] result@[e]).promotion_id@,
            ) by {
            assert(promo_id_used(items@, used@[e]@));
            let q = choose|q: int|
                0 <= q < items@.len() && (#[trigger] items@[q]).promotion_id is Some
                    && items@[q].promotion_id->0@ == used@[e]@;
            assert(line_in_promo(items@[q], result@[e].promotion_id@));
        }
        if forall|i2: int| 0 <= i2 < items@.len() ==> (#[trigger] items@[i2]).promotion_id is None {
            if used@.len() > 0 {
                assert(promo_id_used(items@, used@[0]@));
            }
        }
    }
    Ok(result)
}

} // verus!
