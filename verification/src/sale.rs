//! Sale commit planning: folio sequencing, payment and credit-limit
//! checks, and the orchestration that turns a cart into a persistable
//! sale plan.

use vstd::prelude::*;
use crate::cart::{cart_wf, customer_wf, find_product, products_wf, CustomerAccount, FinalLineData,
    ProductInfo, SaleItemRequest, SaleRequest};
use crate::errors::PosError;
use crate::kits::{apply_kit_rules, kit_consumption, kit_credit, kit_rejection, no_kit_involvement,
    partial_resolution, rules_wf, same_line_except_kit, KitRule};
use crate::pricing::{calculate_sale_items, lemma_find_vp_none, spec_final_line,
    spec_total_discount, spec_total_gross, validated_wf};
use crate::promotions::{promo_entry_ok, promo_rejection, promos_wf, validate_promotions,
    PromotionDef, ValidatedPromotion};
use crate::util::{contains_str, has_str, push_decimal, spec_digits};
use crate::{MAX_AMOUNT, MAX_DISCOUNT_BP, MONEY_EPS, QTY_EPS};

verus! {

/// Everything a validated sale changes, to be persisted atomically.
#[derive(Clone, Debug)]
pub struct SalePlan {
    /// Zero-padded sequential folio.
    pub folio: String,
    /// Gross, cents.
    pub subtotal: i64,
    /// Cents.
    pub discount_amount: i64,
    /// Net, cents.
    pub total: i64,
    /// Cents.
    pub change: i64,
    /// On credit sales, the customer and the balance to write back.
    pub customer_update: Option<(String, i64)>,
    /// The cart with kit links resolved.
    pub adjusted_items: Vec<SaleItemRequest>,
    pub validated_promotions: Vec<ValidatedPromotion>,
    /// Fully priced lines, ready to persist.
    pub items: Vec<FinalLineData>,
}

/// True when every character of `s` is a decimal digit and the string is
/// short enough to read as a machine integer.
pub open spec fn decimal_ok(s: Seq<char>) -> bool {
    &&& 0 < s.len() <= 18
    &&& forall|i: int| 0 <= i < s.len() ==> 48 <= (#[trigger] s[i]) as u32 <= 57
}

/// The value of a decimal digit string.
pub open spec fn decimal_val(s: Seq<char>) -> int
    decreases s.len(),
{
    if s.len() == 0 {
        0
    } else {
        decimal_val(s.drop_last()) * 10 + ((s.last() as u32) - 48)
    }
}

/// Ten to the `k`.
pub open spec fn pow10(k: nat) -> int
    decreases k,
{
    if k == 0 {
        1
    } else {
        10 * pow10((k - 1) as nat)
    }
}

proof fn lemma_decimal_val_bound(s: Seq<char>)
    requires
        forall|i: int| 0 <= i < s.len() ==> 48 <= (#[trigger] s[i]) as u32 <= 57,
    ensures
        0 <= decimal_val(s) < pow10(s.len()),
    decreases s.len(),
{
    if s.len() > 0 {
        lemma_decimal_val_bound(s.drop_last());
        vstd::arithmetic::mul::lemma_mul_inequality(
            decimal_val(s.drop_last()),
            pow10((s.len() - 1) as nat) - 1,
            10,
        );
    }
}

proof fn lemma_pow10_pos(k: nat)
    ensures
        pow10(k) >= 1,
    decreases k,
{
    if k > 0 {
        lemma_pow10_pos((k - 1) as nat);
    }
}

proof fn lemma_pow10_mono(a: nat, b: nat)
    requires
        a <= b,
    ensures
        pow10(a) <= pow10(b),
        pow10(a) >= 1,
    decreases b,
{
    lemma_pow10_pos(a);
    if a < b {
        lemma_pow10_mono(a, (b - 1) as nat);
    }
}

/// The suffix of `s` after its last dash; the whole of `s` when it has no
/// dash.
pub open spec fn after_last_dash(s: Seq<char>) -> Seq<char>
    decreases s.len(),
{
    if s.len() == 0 {
        Seq::empty()
    } else if s.last() == '-' {
        Seq::empty()
    } else {
        after_last_dash(s.drop_last()).push(s.last())
    }
}

/// The next folio sequence number: one past what the last issued folio
/// encodes; its trailing dash-separated part is read first, then the whole
/// folio, and an unreadable folio restarts at one.
pub open spec fn spec_next_sequence(last: Option<Seq<char>>) -> int {
    match last {
        None => 1,
        Some(f) => if decimal_ok(after_last_dash(f)) {
            decimal_val(after_last_dash(f)) + 1
        } else if decimal_ok(f) {
            decimal_val(f) + 1
        } else {
            1
        },
    }
}

/// Reads a digit string as a number, matching `decimal_ok`/`decimal_val`.
fn parse_decimal_chars(cs: &Vec<char>, from: usize) -> (r: Option<i64>)
    requires
        from <= cs@.len(),
    ensures
        r is Some <==> decimal_ok(cs@.skip(from as int)),
        r matches Some(v) ==> v == decimal_val(cs@.skip(from as int)),
{
    let n: usize = cs.len();
    if n == from || n - from > 18 {
        return None;
    }
    let ghost tail = cs@.skip(from as int);
    let mut val: i64 = 0;
    let mut i: usize = from;
    proof {
        assert(tail.take(0) =~= Seq::<char>::empty());
    }
    while i < n
        invariant
            from <= i <= n,
            n == cs@.len(),
            0 < n - from <= 18,
            tail == cs@.skip(from as int),
            forall|q: int| 0 <= q < i - from ==> 48 <= (#[trigger] tail[q]) as u32 <= 57,
            val == decimal_val(tail.take(i - from)),
            0 <= val < pow10((i - from) as nat),
        decreases n - i,
    {
        let c: char = cs[i];
        let v: u32 = c as u32;
        if v < 48 || v > 57 {
            proof {
                assert(tail[i - from] == cs@[i as int]);
                assert(!(48 <= (tail[i - from]) as u32 <= 57));
            }
            return None;
        }
        proof {
            assert(tail.take(i - from + 1).drop_last() =~= tail.take(i - from));
            assert(tail.take(i - from + 1).last() == tail[i - from]);
            assert(tail[i - from] == cs@[i as int]);
            lemma_pow10_mono(((i - from)) as nat, 17);
            assert(pow10(17) == 100_000_000_000_000_000int) by {
                reveal_with_fuel(pow10, 19);
            }
            lemma_decimal_val_bound(tail.take(i - from + 1));
        }
        val = val * 10 + ((v - 48) as i64);
        i += 1;
    }
    proof {
        assert(tail.take(n - from) =~= tail);
    }
    Some(val)
}

proof fn lemma_after_dash_at(s: Seq<char>, d: int)
    requires
        0 <= d < s.len(),
        s[d] == '-',
        forall|j: int| d < j < s.len() ==> s[j] != '-',
    ensures
        after_last_dash(s) == s.skip(d + 1),
    decreases s.len(),
{
    if s.len() == d + 1 {
        assert(s.last() == '-');
        assert(after_last_dash(s) =~= s.skip(d + 1));
    } else {
        lemma_after_dash_at(s.drop_last(), d);
        assert(s.drop_last().skip(d + 1) =~= s.skip(d + 1).drop_last());
        assert(after_last_dash(s) =~= s.skip(d + 1));
    }
}

proof fn lemma_after_dash_none(s: Seq<char>)
    requires
        forall|j: int| 0 <= j < s.len() ==> s[j] != '-',
    ensures
        after_last_dash(s) == s,
    decreases s.len(),
{
    if s.len() > 0 {
        lemma_after_dash_none(s.drop_last());
        assert(after_last_dash(s) =~= s);
    }
}

/// Computes the next folio sequence number from the last issued folio.
pub fn get_sequence(last_folio: Option<&String>) -> (r: i64)
    ensures
        r == spec_next_sequence(
            match last_folio {
                Some(f) => Some(f@),
                None => None,
            },
        ),
        1 <= r <= 1_000_000_000_000_000_000i64,
{
    let f: &String;
    match last_folio {
        None => {
            return 1;
        },
        Some(s) => {
            f = s;
        },
    }
    let st: &str = f.as_str();
    let n: usize = st.unicode_len();
    let mut cs: Vec<char> = Vec::new();
    let mut i: usize = 0;
    while i < n
        invariant
            0 <= i <= n,
            n == st@.len(),
            st@ == f@,
            cs@.len() == i,
            forall|q: int| 0 <= q < i ==> #[trigger] cs@[q] == f@[q],
        decreases n - i,
    {
        cs.push(st.get_char(i));
        i += 1;
    }
    proof {
        assert(cs@ =~= f@);
    }
    // Position after the last dash, if any.
    let mut dash: Option<usize> = None;
    let mut j: usize = 0;
    while j < n
        invariant
            0 <= j <= n,
            n == cs@.len(),
            match dash {
                Some(d) => d < j && cs@[d as int] == '-' && (forall|q: int|
                    d < q < j ==> cs@[q] != '-'),
                None => forall|q: int| 0 <= q < j ==> cs@[q] != '-',
            },
        decreases n - j,
    {
        if cs[j] == '-' {
            dash = Some(j);
        }
        j += 1;
    }
    let tail_from: usize = match dash {
        Some(d) => d + 1,
        None => 0,
    };
    proof {
        match dash {
            Some(d) => {
                lemma_after_dash_at(cs@, d as int);
            },
            None => {
                lemma_after_dash_none(cs@);
                assert(cs@.skip(0) =~= cs@);
            },
        }
    }
    match parse_decimal_chars(&cs, tail_from) {
        Some(v) => {
            proof {
                lemma_decimal_val_bound(cs@.skip(tail_from as int));
                lemma_pow10_mono(cs@.skip(tail_from as int).len() as nat, 18);
                assert(pow10(18) == 1_000_000_000_000_000_000int) by {
                    reveal_with_fuel(pow10, 20);
                }
            }
            return v + 1;
        },
        None => {},
    }
    match parse_decimal_chars(&cs, 0) {
        Some(v) => {
            proof {
                assert(cs@.skip(0) =~= cs@);
                lemma_decimal_val_bound(cs@);
                lemma_pow10_mono(cs@.len() as nat, 18);
                assert(pow10(18) == 1_000_000_000_000_000_000int) by {
                    reveal_with_fuel(pow10, 20);
                }
            }
            v + 1
        },
        None => 1,
    }
}

/// The zero-padded folio for a sequence number: at least eight digits.
pub open spec fn spec_folio(seq: int) -> Seq<char>
    recommends
        seq >= 0,
{
    let digits = spec_digits(seq as nat);
    if digits.len() >= 8 {
        digits
    } else {
        Seq::new((8 - digits.len()) as nat, |i: int| '0') + digits
    }
}

/// Formats a sequence number as its zero-padded folio.
pub fn generate_smart_folio(seq: i64) -> (r: String)
    requires
        1 <= seq,
    ensures
        r@ == spec_folio(seq as int),
{
    proof {
        reveal_strlit("0");
    }
    let mut digits = String::new();
    push_decimal(&mut digits, seq as u64);
    let w: usize = digits.as_str().unicode_len();
    let mut out = String::new();
    let pad_needed: usize = if w >= 8 {
        0
    } else {
        8 - w
    };
    let mut pad: usize = 0;
    while pad < pad_needed
        invariant
            0 <= pad <= pad_needed,
            out@ =~= Seq::new(pad as nat, |i: int| '0'),
        decreases pad_needed - pad,
    {
        out.append("0");
        proof {
            reveal_strlit("0");
            assert(out@ =~= Seq::new((pad + 1) as nat, |i: int| '0'));
        }
        pad += 1;
    }
    out.append(digits.as_str());
    proof {
        assert(out@ =~= spec_folio(seq as int));
    }
    out
}

/// Decides a credit sale: rejected without a customer, or when the balance
/// after the sale would pass the credit limit; other payment methods pass
/// through untouched.
pub fn validate_credit_sale(
    payment_method: &String,
    customer_id: &Option<String>,
    customer: Option<&CustomerAccount>,
    total_amount: i64,
) -> (r: Result<Option<(String, i64)>, PosError>)
    requires
        match customer {
            Some(c) => customer_wf(*c),
            None => true,
        },
        0 <= total_amount <= 3 * MAX_AMOUNT,
    ensures
        payment_method@ != "credit"@ ==> (r matches Ok(u) && u is None),
        payment_method@ == "credit"@ ==> match r {
            Ok(u) => {
                &&& customer_id is Some
                &&& customer matches Some(c) && (u matches Some(p) && p.0@ == c.id@ && p.1
                    == c.current_balance + total_amount && p.1 <= c.credit_limit)
            },
            Err(e) => match e {
                PosError::CreditCustomerRequired => customer_id is None,
                PosError::CustomerNotFound => customer_id is Some && customer is None,
                PosError::CreditLimitExceeded { available, new_balance } => customer matches Some(
                    c,
                ) && new_balance == c.current_balance + total_amount && new_balance
                    > c.credit_limit && available == c.credit_limit - c.current_balance,
                _ => false,
            },
        },
{
    let credit_lit: String = String::from_str("credit");
    if !(*payment_method == credit_lit) {
        return Ok(None);
    }
    if customer_id.is_none() {
        return Err(PosError::CreditCustomerRequired);
    }
    let c: &CustomerAccount;
    match customer {
        None => {
            return Err(PosError::CustomerNotFound);
        },
        Some(cc) => {
            c = cc;
        },
    }
    let new_balance: i64 = c.current_balance + total_amount;
    if new_balance > c.credit_limit {
        return Err(PosError::CreditLimitExceeded {
            available: c.credit_limit - c.current_balance,
            new_balance,
        });
    }
    Ok(Some((c.id.clone(), new_balance)))
}

/// The cart with its kit links resolved: every line unchanged but for the
/// link, every gift linked to a rule listing its product, and every kit's
/// credit and consumption cancelling to within one milliunit.
pub open spec fn adjusted_cart_ok(
    items: Seq<SaleItemRequest>,
    adj: Seq<SaleItemRequest>,
    rules: Seq<KitRule>,
) -> bool {
    &&& partial_resolution(items, adj, rules, items.len() as int)
    &&& forall|j: int|
        0 <= j < rules.len() ==> -QTY_EPS <= kit_credit(items, #[trigger] rules[j])
            - kit_consumption(adj, rules[j]) <= QTY_EPS
}

/// A pricing context for the adjusted cart: validated promotion entries
/// within bounds, each backed by an active in-window definition the cart
/// satisfies, covering every tagged line.
pub open spec fn pricing_context(
    items: Seq<SaleItemRequest>,
    adj: Seq<SaleItemRequest>,
    v: Seq<ValidatedPromotion>,
    rules: Seq<KitRule>,
    promos: Seq<PromotionDef>,
    today: int,
) -> bool {
    &&& adjusted_cart_ok(items, adj, rules)
    &&& validated_wf(v)
    &&& forall|e: int| 0 <= e < v.len() ==> promo_entry_ok(#[trigger] v[e], adj, promos, today)
    &&& forall|i: int|
        0 <= i < adj.len() && (#[trigger] adj[i]).promotion_id is Some ==> exists|e2: int|
            0 <= e2 < v.len() && (#[trigger] v[e2]).promotion_id@ == adj[i].promotion_id->0@
}

/// Commits a cart: validates kits and promotions, prices every line,
/// checks payment and credit, assigns the next folio and verifies that
/// every product has an inventory row. The returned plan is persisted
/// atomically by the caller; nothing is written when an error comes back.
pub fn process_sale(
    payload: &SaleRequest,
    kit_rules: &Vec<KitRule>,
    promos: &Vec<PromotionDef>,
    products: &Vec<ProductInfo>,
    inventory_products: &Vec<String>,
    customer: Option<&CustomerAccount>,
    last_folio: Option<&String>,
    today: i64,
) -> (r: Result<SalePlan, PosError>)
    requires
        cart_wf(payload.items@),
        rules_wf(kit_rules@),
        promos_wf(promos@),
        products_wf(products@),
        0 <= payload.cash_amount <= MAX_AMOUNT,
        0 <= payload.card_transfer_amount <= MAX_AMOUNT,
        match customer {
            Some(c) => customer_wf(*c),
            None => true,
        },
    ensures
        match r {
            Ok(plan) => {
                &&& payload.items@.len() > 0
                &&& 0 <= payload.discount_percentage <= MAX_DISCOUNT_BP
                &&& pricing_context(
                    payload.items@,
                    plan.adjusted_items@,
                    plan.validated_promotions@,
                    kit_rules@,
                    promos@,
                    today as int,
                )
                &&& plan.items@.len() == payload.items@.len()
                &&& forall|i: int|
                    0 <= i < plan.items@.len() ==> #[trigger] plan.items@[i] == spec_final_line(
                        plan.adjusted_items@,
                        products@,
                        plan.validated_promotions@,
                        payload.discount_percentage as int,
                        i,
                    )
                &&& plan.subtotal == spec_total_gross(
                    plan.adjusted_items@,
                    products@,
                    plan.validated_promotions@,
                    plan.adjusted_items@.len() as int,
                )
                &&& plan.discount_amount == spec_total_discount(
                    plan.adjusted_items@,
                    products@,
                    payload.discount_percentage as int,
                    plan.adjusted_items@.len() as int,
                )
                &&& plan.total == plan.subtotal - plan.discount_amount
                &&& payload.cash_amount + payload.card_transfer_amount >= plan.total - MONEY_EPS
                &&& plan.change == if payload.cash_amount + payload.card_transfer_amount
                    > plan.total {
                    payload.cash_amount + payload.card_transfer_amount - plan.total
                } else {
                    0
                }
                &&& (payload.payment_method@ == "credit"@ ==> (plan.customer_update matches Some(
                    p,
                ) && (customer matches Some(c) && p.0@ == c.id@ && p.1 == c.current_balance
                    + plan.total && p.1 <= c.credit_limit)))
                &&& (payload.payment_method@ != "credit"@ ==> plan.customer_update is None)
                &&& plan.folio@ == spec_folio(
                    spec_next_sequence(
                        match last_folio {
                            Some(f) => Some(f@),
                            None => None,
                        },
                    ),
                )
                &&& forall|i: int|
                    0 <= i < plan.items@.len() ==> has_str(
                        inventory_products@,
                        (#[trigger] plan.items@[i]).product_id@,
                    )
            },
            Err(e) => {
                &&& ((e is KitNotFound || e is KitProductNotEligible || e
                    is InsufficientKitCredit || e is GiftActivatesNoKit || e is IncompleteKit)
                    ==> kit_rejection(e, payload.items@, kit_rules@) && !no_kit_involvement(
                    payload.items@,
                    kit_rules@,
                ))
                &&& ((e is PromotionNotAvailable || e is PromotionNotConfigured || e
                    is PromotionCardinality || e is PromotionMissingProduct || e
                    is PromotionBadMultiplier || e is PromotionQuantityMismatch || e
                    is PromotionExtraProduct) ==> exists|adj: Seq<SaleItemRequest>|
                    #[trigger] adjusted_cart_ok(payload.items@, adj, kit_rules@)
                        && promo_rejection(e, adj, promos@, today as int))
                &&& match e {
                    PosError::EmptyCart => payload.items@.len() == 0,
                    PosError::InvalidDiscount { requested, max } => requested
                        == payload.discount_percentage && max == MAX_DISCOUNT_BP && (requested < 0
                        || requested > MAX_DISCOUNT_BP),
                    PosError::ProductNotFound { line } => line < payload.items@.len()
                        && find_product(products@, payload.items@[line as int].product_id@)
                        is None,
                    PosError::InsufficientPayment { calculated, paid } => paid
                        == payload.cash_amount + payload.card_transfer_amount && paid < calculated
                        - MONEY_EPS && (exists|adj: Seq<SaleItemRequest>, v: Seq<ValidatedPromotion>|
                        #[trigger] pricing_context(
                            payload.items@,
                            adj,
                            v,
                            kit_rules@,
                            promos@,
                            today as int,
                        ) && calculated == spec_total_gross(adj, products@, v, adj.len() as int)
                            - spec_total_discount(
                            adj,
                            products@,
                            payload.discount_percentage as int,
                            adj.len() as int,
                        )),
                    PosError::CreditCustomerRequired => payload.payment_method@ == "credit"@
                        && payload.customer_id is None,
                    PosError::CustomerNotFound => payload.payment_method@ == "credit"@
                        && payload.customer_id is Some && customer is None,
                    PosError::CreditLimitExceeded { available, new_balance } => payload.payment_method@
                        == "credit"@ && (customer matches Some(c) && available == c.credit_limit
                        - c.current_balance && new_balance > c.credit_limit && (exists|
                        adj: Seq<SaleItemRequest>,
                        v: Seq<ValidatedPromotion>,
                    |
                        #[trigger] pricing_context(
                            payload.items@,
                            adj,
                            v,
                            kit_rules@,
                            promos@,
                            today as int,
                        ) && new_balance == c.current_balance + spec_total_gross(
                            adj,
                            products@,
                            v,
                            adj.len() as int,
                        ) - spec_total_discount(
                            adj,
                            products@,
                            payload.discount_percentage as int,
                            adj.len() as int,
                        ))),
                    PosError::InventoryRowMissing { line } => !has_str(
                        inventory_products@,
                        payload.items@[line as int].product_id@,
                    ) && line < payload.items@.len(),
                    // The kit and promotion variants are constrained by the
                    // kit_rejection and promo_rejection conjuncts above.
                    PosError::KitNotFound { .. } => true,
                    PosError::KitProductNotEligible { .. } => true,
                    PosError::InsufficientKitCredit { .. } => true,
                    PosError::GiftActivatesNoKit { .. } => true,
                    PosError::IncompleteKit { .. } => true,
                    PosError::PromotionNotAvailable { .. } => true,
                    PosError::PromotionNotConfigured { .. } => true,
                    PosError::PromotionCardinality { .. } => true,
                    PosError::PromotionMissingProduct { .. } => true,
                    PosError::PromotionBadMultiplier { .. } => true,
                    PosError::PromotionQuantityMismatch { .. } => true,
                    PosError::PromotionExtraProduct { .. } => true,
                    _ => false,
                }
            },
        },
{
    let n: usize = payload.items.len();
    if n == 0 {
        return Err(PosError::EmptyCart);
    }
    if payload.discount_percentage < 0 || payload.discount_percentage > MAX_DISCOUNT_BP {
        return Err(PosError::InvalidDiscount {
            requested: payload.discount_percentage,
            max: MAX_DISCOUNT_BP,
        });
    }

    let adjusted: Vec<SaleItemRequest>;
    match apply_kit_rules(&payload.items, kit_rules) {
        Ok(a) => {
            adjusted = a;
        },
        Err(e) => {
            return Err(e);
        },
    }
    proof {
        assert(cart_wf(adjusted@));
        assert(adjusted_cart_ok(payload.items@, adjusted@, kit_rules@));
    }

    let validated: Vec<ValidatedPromotion>;
    match validate_promotions(&adjusted, promos, today) {
        Ok(v) => {
            validated = v;
        },
        Err(e) => {
            proof {
                assert(adjusted_cart_ok(payload.items@, adjusted@, kit_rules@));
            }
            return Err(e);
        },
    }
    proof {
        assert forall|e: int| 0 <= e < validated@.len() implies 1 <= (
        #[trigger] validated@[e]).instance_count <= 10_000_000 && 0 <= validated@[e].combo_price
            <= crate::MAX_PRICE by {
            crate::promotions::lemma_entry_bounds(
                validated@[e],
                adjusted@,
                promos@,
                today as int,
            );
        }
    }

    proof {
        assert(pricing_context(
            payload.items@,
            adjusted@,
            validated@,
            kit_rules@,
            promos@,
            today as int,
        ));
    }
    let priced = calculate_sale_items(&adjusted, products, &validated, payload.discount_percentage);
    let total_gross: i64;
    let total_disc: i64;
    let lines: Vec<FinalLineData>;
    match priced {
        Ok((g, d, l)) => {
            total_gross = g;
            total_disc = d;
            lines = l;
        },
        Err(e) => {
            proof {
                match e {
                    PosError::ProductNotFound { line } => {
                        assert(payload.items@[line as int].product_id@ == adjusted@[
                        line as int].product_id@);
                    },
                    PosError::PromotionNotAvailable { group } => {
                        // Every tagged promotion was validated, so pricing
                        // cannot miss an entry.
                        lemma_find_vp_none(
                            validated@,
                            adjusted@[group as int].promotion_id->0@,
                        );
                        assert(false);
                    },
                    _ => {},
                }
            }
            return Err(e);
        },
    }
    let final_total: i64 = total_gross - total_disc;

    let total_paid: i64 = payload.cash_amount + payload.card_transfer_amount;
    if total_paid < final_total - MONEY_EPS {
        proof {
            assert(pricing_context(
                payload.items@,
                adjusted@,
                validated@,
                kit_rules@,
                promos@,
                today as int,
            ));
        }
        return Err(PosError::InsufficientPayment { calculated: final_total, paid: total_paid });
    }

    let customer_update: Option<(String, i64)>;
    match validate_credit_sale(
        &payload.payment_method,
        &payload.customer_id,
        customer,
        final_total,
    ) {
        Ok(u) => {
            customer_update = u;
        },
        Err(e) => {
            proof {
                assert(pricing_context(
                    payload.items@,
                    adjusted@,
                    validated@,
                    kit_rules@,
                    promos@,
                    today as int,
                ));
            }
            return Err(e);
        },
    }

    let folio = generate_smart_folio(get_sequence(last_folio));

    let mut li: usize = 0;
    while li < lines.len()
        invariant
            0 <= li <= lines@.len(),
            lines@.len() == adjusted@.len() == payload.items@.len(),
            forall|q: int|
                0 <= q < lines@.len() ==> (#[trigger] lines@[q]).product_id@
                    == adjusted@[q].product_id@,
            forall|q: int|
                0 <= q < payload.items@.len() ==> same_line_except_kit(
                    payload.items@[q],
                    #[trigger] adjusted@[q],
                ),
            forall|q: int|
                0 <= q < li ==> has_str(inventory_products@, (#[trigger] lines@[q]).product_id@),
        decreases lines@.len() - li,
    {
        if !contains_str(inventory_products, &lines[li].product_id) {
            proof {
                assert(payload.items@[li as int].product_id@ == lines@[li as int].product_id@);
            }
            return Err(PosError::InventoryRowMissing { line: li });
        }
        li += 1;
    }

    let change: i64 = if total_paid > final_total {
        total_paid - final_total
    } else {
        0
    };

    Ok(
        SalePlan {
            folio,
            subtotal: total_gross,
            discount_amount: total_disc,
            total: final_total,
            change,
            customer_update,
            adjusted_items: adjusted,
            validated_promotions: validated,
            items: lines,
        },
    )
}

} // verus!
