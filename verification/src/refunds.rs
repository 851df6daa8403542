//! Returns reconciliation: validates a partial or full return against the
//! remaining quantities of a sale and against kit and promotion
//! proportionality, computes the refund, plans the store-voucher update and
//! inventory restocking, and recomputes the sale's lifecycle status.

use vstd::prelude::*;
use crate::cart::copy_opt_string;
use crate::codes::{generate_voucher_code, spec_voucher_code};
use crate::errors::{PosError, SaleStatus, status_rank};
use crate::kits::{rules_wf, KitRule};
use crate::util::{contains_str, has_str};
use crate::{MAX_AMOUNT, MAX_LINES, MAX_LINE_TOTAL, MAX_QTY, MAX_SELECTIONS, QTY_EPS};

verus! {

/// One line of a return request: which sale item, and how much of it, in
/// milliunits. The unit price is filled in during validation from the sale
/// item's persisted net total.
#[derive(Clone, Debug)]
pub struct ReturnItemRequest {
    pub sale_item_id: String,
    pub product_id: String,
    pub quantity: i64,
    /// Cents; computed by validation, ignored on input.
    pub unit_price: i64,
}

/// A whole return request.
#[derive(Clone, Debug)]
pub struct ProcessReturnRequest {
    pub sale_id: String,
    pub reason: String,
    pub notes: String,
    pub user_id: String,
    pub items: Vec<ReturnItemRequest>,
}

/// What the caller reports back once the return is persisted.
#[derive(Clone, Debug)]
pub struct ReturnResponse {
    pub return_id: String,
    pub voucher_code: String,
    /// Cents.
    pub total: i64,
}

/// One sale item of the sale under return, as loaded from storage, with the
/// cumulative quantity already returned by earlier returns.
#[derive(Clone, Debug)]
pub struct SaleItemRecord {
    pub id: String,
    pub product_id: String,
    pub product_name: String,
    pub product_code: String,
    pub kit_option_id: Option<String>,
    pub promotion_id: Option<String>,
    /// Original quantity, milliunits.
    pub quantity: i64,
    /// Net line total, cents.
    pub total: i64,
    /// Milliunits.
    pub already_returned: i64,
}

/// The sale under return, as loaded from storage.
#[derive(Clone, Debug)]
pub struct SaleRecord {
    pub id: String,
    pub folio: String,
    /// As persisted: either "%Y-%m-%d %H:%M:%S" or RFC 3339.
    pub sale_date: String,
    pub status: SaleStatus,
}

/// The active store voucher of a sale, if one exists.
#[derive(Clone, Debug)]
pub struct VoucherState {
    pub id: String,
    pub code: String,
    /// Cents.
    pub current_balance: i64,
    /// Cents.
    pub initial_balance: i64,
}

/// What to do to the store voucher of the sale.
#[derive(Clone, Debug)]
pub enum VoucherPlan {
    /// Add the refund to the existing voucher's balances.
    Update { voucher_id: String, code: String, new_current: i64, new_initial: i64 },
    /// Create a voucher with the refund as both balances.
    Create { code: String, balance: i64 },
}

/// One validated return line, ready to persist.
#[derive(Clone, Debug)]
pub struct ReturnLinePlan {
    pub sale_item_id: String,
    pub product_id: String,
    /// Milliunits.
    pub quantity: i64,
    /// Cents per unit, recomputed from the net line total.
    pub unit_price: i64,
    /// Cents.
    pub subtotal: i64,
}

/// Everything a validated return changes, to be applied atomically.
#[derive(Clone, Debug)]
pub struct ReturnPlan {
    /// Sequential folio of the return.
    pub folio: i64,
    /// Cents.
    pub total: i64,
    pub voucher: VoucherPlan,
    pub lines: Vec<ReturnLinePlan>,
    /// Quantities to add back to store inventory, milliunits per product.
    pub restocks: Vec<(String, i64)>,
    pub new_status: SaleStatus,
}

/// Sale items are within machine bounds, their ids are pairwise distinct,
/// and nothing beyond the original quantity has been returned.
pub open spec fn sale_items_wf(rs: Seq<SaleItemRecord>) -> bool {
    &&& rs.len() <= MAX_LINES
    &&& forall|i: int|
        0 <= i < rs.len() ==> {
            let r = #[trigger] rs[i];
            &&& 0 < r.quantity <= MAX_QTY
            &&& 0 <= r.total <= MAX_LINE_TOTAL
            &&& 0 <= r.already_returned <= r.quantity + QTY_EPS
        }
    &&& forall|i: int, j: int|
        0 <= i < rs.len() && 0 <= j < rs.len() && i != j ==> rs[i].id@ != rs[j].id@
}

/// Request lines are within machine bounds.
pub open spec fn return_request_wf(req: Seq<ReturnItemRequest>) -> bool {
    &&& req.len() <= MAX_LINES
    &&& forall|i: int| 0 <= i < req.len() ==> (#[trigger] req[i]).quantity <= MAX_QTY
}

// ---------------------------------------------------------------------------
// Sale status recomputation.

/// Every sale item is fully returned, to within one milliunit.
pub open spec fn all_fully_returned(entries: Seq<(i64, i64)>) -> bool {
    forall|i: int|
        0 <= i < entries.len() ==> -QTY_EPS <= (#[trigger] entries[i]).0 - entries[i].1 <= QTY_EPS
}

/// Some sale item has more than one milliunit returned.
pub open spec fn any_returned(entries: Seq<(i64, i64)>) -> bool {
    exists|i: int| 0 <= i < entries.len() && (#[trigger] entries[i]).1 > QTY_EPS
}

/// The lifecycle status a sale deserves, given each item's original and
/// cumulative returned quantities and whether the triggering reason was a
/// cancellation.
pub open spec fn spec_status(entries: Seq<(i64, i64)>, cancellation: bool) -> SaleStatus {
    if all_fully_returned(entries) && any_returned(entries) && cancellation {
        SaleStatus::Cancelled
    } else if all_fully_returned(entries) && any_returned(entries) {
        SaleStatus::FullyReturned
    } else if any_returned(entries) {
        SaleStatus::PartialReturn
    } else {
        SaleStatus::Completed
    }
}

/// Recomputes the sale status from (original, returned) quantity pairs.
pub fn recompute_status(entries: &Vec<(i64, i64)>, cancellation: bool) -> (r: SaleStatus)
    requires
        forall|i: int|
            0 <= i < entries@.len() ==> 0 <= (#[trigger] entries@[i]).0 <= MAX_QTY && 0
                <= entries@[i].1 <= 10_000_000_000i64,
    ensures
        r == spec_status(entries@, cancellation),
{
    let mut fully: bool = true;
    let mut any: bool = false;
    let mut i: usize = 0;
    while i < entries.len()
        invariant
            0 <= i <= entries@.len(),
            forall|q: int|
                0 <= q < entries@.len() ==> 0 <= (#[trigger] entries@[q]).0 <= MAX_QTY && 0
                    <= entries@[q].1 <= 10_000_000_000i64,
            fully == (forall|q: int|
                0 <= q < i ==> -QTY_EPS <= (#[trigger] entries@[q]).0 - entries@[q].1 <= QTY_EPS),
            any == (exists|q: int| 0 <= q < i && (#[trigger] entries@[q]).1 > QTY_EPS),
        decreases entries@.len() - i,
    {
        let (orig, ret) = entries[i];
        if ret > QTY_EPS {
            any = true;
        }
        if orig - ret > QTY_EPS || orig - ret < -QTY_EPS {
            fully = false;
        }
        i += 1;
    }
    if fully && any && cancellation {
        SaleStatus::Cancelled
    } else if fully && any {
        SaleStatus::FullyReturned
    } else if any {
        SaleStatus::PartialReturn
    } else {
        SaleStatus::Completed
    }
}

/// Sale status never regresses: if every item's returned quantity only
/// grows, while staying within one milliunit of the original, the
/// recomputed status never ranks lower than before, whatever reasons
/// triggered the two recomputations.
pub proof fn lemma_status_monotonic(
    e1: Seq<(i64, i64)>,
    e2: Seq<(i64, i64)>,
    c1: bool,
    c2: bool,
)
    requires
        e1.len() == e2.len(),
        forall|i: int| 0 <= i < e1.len() ==> (#[trigger] e1[i]).0 == e2[i].0,
        forall|i: int| 0 <= i < e1.len() ==> 0 <= (#[trigger] e1[i]).1 <= e2[i].1,
        forall|i: int| 0 <= i < e2.len() ==> (#[trigger] e2[i]).1 <= e2[i].0 + QTY_EPS,
    ensures
        status_rank(spec_status(e1, c1)) <= status_rank(spec_status(e2, c2)),
{
    if any_returned(e1) {
        let w = choose|i: int| 0 <= i < e1.len() && (#[trigger] e1[i]).1 > QTY_EPS;
        assert(e2[w].1 > QTY_EPS);
        assert(any_returned(e2));
        if all_fully_returned(e1) {
            assert forall|i: int|
                0 <= i < e2.len() implies -QTY_EPS <= (#[trigger] e2[i]).0 - e2[i].1 <= QTY_EPS by {
                assert(e1[i].0 - e1[i].1 <= QTY_EPS);
            }
            assert(all_fully_returned(e2));
        }
    }
}

// ---------------------------------------------------------------------------
// Store voucher accumulation.

/// Applying one accepted refund to a voucher balance: the first refund
/// creates the voucher, later ones add to it.
pub open spec fn apply_voucher(bal: Option<int>, total: int) -> int {
    match bal {
        None => total,
        Some(b) => b + total,
    }
}

/// The balance after a run of accepted refunds, applied in order to a sale
/// that starts without a voucher.
pub open spec fn balance_after(totals: Seq<int>) -> Option<int>
    decreases totals.len(),
{
    if totals.len() == 0 {
        None
    } else {
        Some(apply_voucher(balance_after(totals.drop_last()), totals.last()))
    }
}

/// The plain sum of a run of refund totals.
pub open spec fn sum_totals(totals: Seq<int>) -> int
    decreases totals.len(),
{
    if totals.len() == 0 {
        0
    } else {
        sum_totals(totals.drop_last()) + totals.last()
    }
}

/// Voucher balances accumulate: after any run of accepted partial returns,
/// the voucher's current balance equals the sum of all their refund totals.
pub proof fn lemma_voucher_accumulates(totals: Seq<int>)
    requires
        totals.len() > 0,
    ensures
        balance_after(totals) == Some(sum_totals(totals)),
    decreases totals.len(),
{
    if totals.len() == 1 {
        assert(totals.drop_last().len() == 0);
        assert(balance_after(totals.drop_last()) is None);
        assert(sum_totals(totals.drop_last()) == 0);
    } else {
        lemma_voucher_accumulates(totals.drop_last());
    }
}

/// Plans the store-voucher change for one accepted refund: an existing
/// active voucher gains the refund on both balances, otherwise a voucher is
/// created, coded after the sale folio, holding the refund.
pub fn manage_store_voucher(
    existing: Option<&VoucherState>,
    sale_folio: &str,
    return_total: i64,
) -> (p: VoucherPlan)
    requires
        0 < return_total <= 2_000_000_000_000_000_000i64,
        match existing {
            Some(v) => -MAX_AMOUNT <= v.current_balance <= MAX_AMOUNT && -MAX_AMOUNT
                <= v.initial_balance <= MAX_AMOUNT,
            None => true,
        },
    ensures
        match existing {
            Some(v) => p matches VoucherPlan::Update { voucher_id, code, new_current, new_initial }
                && voucher_id@ == v.id@ && code@ == v.code@ && new_current == apply_voucher(
                Some(v.current_balance as int),
                return_total as int,
            ) && new_initial == v.initial_balance + return_total,
            None => p matches VoucherPlan::Create { code, balance } && code@ == spec_voucher_code(
                sale_folio@,
            ) && balance == apply_voucher(None, return_total as int),
        },
{
    match existing {
        Some(v) => VoucherPlan::Update {
            voucher_id: v.id.clone(),
            code: v.code.clone(),
            new_current: v.current_balance + return_total,
            new_initial: v.initial_balance + return_total,
        },
        None => VoucherPlan::Create {
            code: generate_voucher_code(sale_folio),
            balance: return_total,
        },
    }
}

// ---------------------------------------------------------------------------
// Request lines against sale items.

/// The first sale item carrying the given id.
pub open spec fn find_sale_item(rs: Seq<SaleItemRecord>, id: Seq<char>) -> Option<SaleItemRecord>
    decreases rs.len(),
{
    if rs.len() == 0 {
        None
    } else if rs[0].id@ == id {
        Some(rs[0])
    } else {
        find_sale_item(rs.drop_first(), id)
    }
}

/// Linear lookup of a sale item by id; the index witnesses
/// `find_sale_item`.
pub fn lookup_sale_item(rs: &Vec<SaleItemRecord>, id: &String) -> (r: Option<usize>)
    ensures
        match r {
            Some(i) => i < rs@.len() && find_sale_item(rs@, id@) == Some(rs@[i as int]) && rs@[
                i as int
            ].id@ == id@,
            None => find_sale_item(rs@, id@) is None,
        },
{
    let mut i: usize = 0;
    proof {
        assert(rs@.skip(0) =~= rs@);
    }
    while i < rs.len()
        invariant
            0 <= i <= rs@.len(),
            find_sale_item(rs@, id@) == find_sale_item(rs@.skip(i as int), id@),
        decreases rs@.len() - i,
    {
        proof {
            assert(rs@.skip(i as int)[0] == rs@[i as int]);
        }
        if rs[i].id == *id {
            return Some(i);
        }
        proof {
            assert(rs@.skip(i as int).drop_first() =~= rs@.skip(i + 1));
        }
        i += 1;
    }
    proof {
        assert(rs@.skip(i as int).len() == 0);
    }
    None
}

/// Total quantity this request asks back of one sale item, milliunits.
pub open spec fn req_qty_for(req: Seq<ReturnItemRequest>, id: Seq<char>) -> int
    decreases req.len(),
{
    if req.len() == 0 {
        0
    } else {
        req_qty_for(req.drop_last(), id) + if req.last().sale_item_id@ == id {
            req.last().quantity as int
        } else {
            0
        }
    }
}

/// Sums the quantity the request's first `upto` lines ask back of one sale
/// item.
fn sum_req_qty(req: &Vec<ReturnItemRequest>, upto: usize, id: &String) -> (r: i64)
    requires
        upto <= req@.len(),
        return_request_wf(req@),
        forall|i: int| 0 <= i < upto ==> (#[trigger] req@[i]).quantity >= 0,
    ensures
        r == req_qty_for(req@.take(upto as int), id@),
        0 <= r <= (upto as int) * MAX_QTY,
{
    let mut r: i64 = 0;
    let mut i: usize = 0;
    proof {
        assert(req@.take(0) =~= Seq::<ReturnItemRequest>::empty());
    }
    while i < upto
        invariant
            0 <= i <= upto <= req@.len(),
            return_request_wf(req@),
            forall|q: int| 0 <= q < upto ==> (#[trigger] req@[q]).quantity >= 0,
            r == req_qty_for(req@.take(i as int), id@),
            0 <= r <= (i as int) * MAX_QTY,
        decreases upto - i,
    {
        proof {
            assert(req@.take(i + 1).drop_last() =~= req@.take(i as int));
            assert(req@.take(i + 1).last() == req@[i as int]);
            vstd::arithmetic::mul::lemma_mul_is_distributive_add_other_way(
                MAX_QTY as int,
                i as int,
                1,
            );
        }
        if req[i].sale_item_id == *id {
            r = r + req[i].quantity;
        }
        i += 1;
    }
    r
}

/// The reason string that marks a same-session cancellation.
pub open spec fn is_cancellation(s: Seq<char>) -> bool {
    s == "cancellation"@
}

fn reason_is_cancellation(reason: &String) -> (r: bool)
    ensures
        r == is_cancellation(reason@),
{
    let lit: String = String::from_str("cancellation");
    *reason == lit
}

// ---------------------------------------------------------------------------
// Refund amounts.

/// The per-unit refund of a sale item: its persisted net total spread over
/// its original quantity, in cents.
pub open spec fn spec_unit_price(total: int, orig: int) -> int {
    (total * 1000) / orig
}

/// The refund of one return line, in cents.
pub open spec fn spec_line_refund(total: int, orig: int, qty: int) -> int {
    (spec_unit_price(total, orig) * qty) / 1000
}

/// Computes a line's refund unit price and subtotal.
fn refund_amounts(total: i64, orig: i64, qty: i64) -> (r: (i64, i64))
    requires
        0 < orig <= MAX_QTY,
        0 <= total <= MAX_LINE_TOTAL,
        0 < qty <= orig + QTY_EPS,
    ensures
        r.0 == spec_unit_price(total as int, orig as int),
        r.1 == spec_line_refund(total as int, orig as int, qty as int),
        0 <= r.0,
        0 <= r.1 <= 2 * MAX_LINE_TOTAL + 2,
{
    let scaled: u64 = (total as u64) * 1000;
    let up_u: u64 = scaled / (orig as u64);
    proof {
        vstd::arithmetic::div_mod::lemma_div_pos_is_pos(scaled as int, orig as int);
        vstd::arithmetic::div_mod::lemma_div_nonincreasing(scaled as int, orig as int);
    }
    let up: i64 = up_u as i64;
    let ghost upi = up as int;
    proof {
        vstd::arithmetic::div_mod::lemma_fundamental_div_mod(scaled as int, orig as int);
        vstd::arithmetic::div_mod::lemma_mod_bound(scaled as int, orig as int);
        // up * orig <= total * 1000, hence up * qty <= 2000 * total + 2000.
        vstd::arithmetic::mul::lemma_mul_inequality(qty as int, orig as int + 1, upi);
        vstd::arithmetic::mul::lemma_mul_is_distributive_add(upi, orig as int, 1);
        vstd::arithmetic::mul::lemma_mul_is_commutative(upi, qty as int);
        vstd::arithmetic::mul::lemma_mul_is_commutative(upi, orig as int);
        assert(upi * (qty as int) <= (total as int) * 1000 + upi);
    }
    let wide: u64 = (up as u64) * (qty as u64);
    let sub_u: u64 = wide / 1000;
    proof {
        vstd::arithmetic::div_mod::lemma_div_pos_is_pos(wide as int, 1000);
        vstd::arithmetic::div_mod::lemma_div_is_ordered(
            wide as int,
            2000 * (total as int) + 2000,
            1000,
        );
    }
    let sub: i64 = sub_u as i64;
    (up, sub)
}

/// The whole request's refund, in cents: the sum of each line's refund
/// against the sale item it references.
pub open spec fn spec_return_total(req: Seq<ReturnItemRequest>, rs: Seq<SaleItemRecord>) -> int
    decreases req.len(),
{
    if req.len() == 0 {
        0
    } else {
        spec_return_total(req.drop_last(), rs) + match find_sale_item(
            rs,
            req.last().sale_item_id@,
        ) {
            Some(s) => spec_line_refund(s.total as int, s.quantity as int, req.last().quantity as int),
            None => 0,
        }
    }
}

/// The inventory restocks a set of refund lines implies: every line whose
/// unit price is at least one cent puts its quantity back.
pub open spec fn spec_restocks(lines: Seq<ReturnLinePlan>) -> Seq<(String, i64)>
    decreases lines.len(),
{
    if lines.len() == 0 {
        Seq::empty()
    } else if lines.last().unit_price >= 1 {
        spec_restocks(lines.drop_last()).push((lines.last().product_id, lines.last().quantity))
    } else {
        spec_restocks(lines.drop_last())
    }
}

// ---------------------------------------------------------------------------
// Kit proportionality of a return.

/// The request line's sale item belongs to kit `kid`.
pub open spec fn in_kit(rs: Seq<SaleItemRecord>, l: ReturnItemRequest, kid: Seq<char>) -> bool {
    &&& find_sale_item(rs, l.sale_item_id@) matches Some(s)
    &&& find_sale_item(rs, l.sale_item_id@)->0.kit_option_id matches Some(k) && k@ == kid
}

/// The product the request line's sale item carries.
pub open spec fn req_product(rs: Seq<SaleItemRecord>, l: ReturnItemRequest) -> Seq<char> {
    find_sale_item(rs, l.sale_item_id@)->0.product_id@
}

/// Trigger credit the returned lines of a kit earn, milliunit-scaled.
pub open spec fn ret_trigger_credits(
    req: Seq<ReturnItemRequest>,
    rs: Seq<SaleItemRecord>,
    rule: KitRule,
) -> int
    decreases req.len(),
{
    if req.len() == 0 {
        0
    } else {
        ret_trigger_credits(req.drop_last(), rs, rule) + if in_kit(rs, req.last(), rule.id@)
            && has_str(rule.triggers@, req_product(rs, req.last())) {
            req.last().quantity * rule.max_selections
        } else {
            0
        }
    }
}

/// Gift quantity the returned lines of a kit consume, milliunits.
pub open spec fn ret_gift_consumption(
    req: Seq<ReturnItemRequest>,
    rs: Seq<SaleItemRecord>,
    rule: KitRule,
) -> int
    decreases req.len(),
{
    if req.len() == 0 {
        0
    } else {
        ret_gift_consumption(req.drop_last(), rs, rule) + if in_kit(rs, req.last(), rule.id@)
            && !has_str(rule.triggers@, req_product(rs, req.last())) && has_str(
            rule.items@,
            req_product(rs, req.last()),
        ) {
            req.last().quantity as int
        } else {
            0
        }
    }
}

/// Returned trigger quantity of a kit, milliunits.
pub open spec fn ret_trigger_qty(
    req: Seq<ReturnItemRequest>,
    rs: Seq<SaleItemRecord>,
    rule: KitRule,
) -> int
    decreases req.len(),
{
    if req.len() == 0 {
        0
    } else {
        ret_trigger_qty(req.drop_last(), rs, rule) + if in_kit(rs, req.last(), rule.id@)
            && has_str(rule.triggers@, req_product(rs, req.last())) {
            req.last().quantity as int
        } else {
            0
        }
    }
}

/// Returned non-trigger quantity of a kit, milliunits.
pub open spec fn ret_gift_qty(
    req: Seq<ReturnItemRequest>,
    rs: Seq<SaleItemRecord>,
    rule: KitRule,
) -> int
    decreases req.len(),
{
    if req.len() == 0 {
        0
    } else {
        ret_gift_qty(req.drop_last(), rs, rule) + if in_kit(rs, req.last(), rule.id@) && !has_str(
            rule.triggers@,
            req_product(rs, req.last()),
        ) {
            req.last().quantity as int
        } else {
            0
        }
    }
}

/// Trigger quantity of the kit still available for return, milliunits.
pub open spec fn avail_trigger_qty(rs: Seq<SaleItemRecord>, rule: KitRule) -> int
    decreases rs.len(),
{
    if rs.len() == 0 {
        0
    } else {
        avail_trigger_qty(rs.drop_last(), rule) + if (rs.last().kit_option_id matches Some(k)
            && k@ == rule.id@) && has_str(rule.triggers@, rs.last().product_id@) {
            rs.last().quantity - rs.last().already_returned
        } else {
            0
        }
    }
}

/// Non-trigger quantity of the kit still available for return, milliunits.
pub open spec fn avail_gift_qty(rs: Seq<SaleItemRecord>, rule: KitRule) -> int
    decreases rs.len(),
{
    if rs.len() == 0 {
        0
    } else {
        avail_gift_qty(rs.drop_last(), rule) + if (rs.last().kit_option_id matches Some(k) && k@
            == rule.id@) && !has_str(rule.triggers@, rs.last().product_id@) {
            rs.last().quantity - rs.last().already_returned
        } else {
            0
        }
    }
}

/// A kit is returned in balance: its trigger credits cancel its gift
/// consumption, some trigger quantity is still available, and the share of
/// gifts returned is at least the share of triggers returned.
pub open spec fn kit_return_ok(
    req: Seq<ReturnItemRequest>,
    rs: Seq<SaleItemRecord>,
    rule: KitRule,
) -> bool {
    &&& -QTY_EPS <= ret_trigger_credits(req, rs, rule) - ret_gift_consumption(req, rs, rule)
        <= QTY_EPS
    &&& avail_trigger_qty(rs, rule) >= 1
    &&& ret_gift_qty(req, rs, rule) * avail_trigger_qty(rs, rule) >= avail_gift_qty(rs, rule)
        * ret_trigger_qty(req, rs, rule) - avail_trigger_qty(rs, rule)
}

/// A returned line is consistent with the kit rules: if its sale item
/// belongs to a kit, a rule of that kit exists, the product is listed by
/// the rule, and the kit's returned lines balance.
pub open spec fn kit_line_ok(
    req: Seq<ReturnItemRequest>,
    rs: Seq<SaleItemRecord>,
    rules: Seq<KitRule>,
    i: int,
) -> bool {
    find_sale_item(rs, req[i].sale_item_id@)->0.kit_option_id matches Some(k) ==> exists|j: int|
        0 <= j < rules.len() && (#[trigger] rules[j]).id@ == k@ && (has_str(
            rules[j].triggers@,
            req_product(rs, req[i]),
        ) || has_str(rules[j].items@, req_product(rs, req[i]))) && kit_return_ok(
            req,
            rs,
            rules[j],
        )
}

/// Sums, over the request, a kit's trigger credits, gift consumption,
/// returned trigger quantity and returned gift quantity.
fn kit_req_sums(
    req: &Vec<ReturnItemRequest>,
    rs: &Vec<SaleItemRecord>,
    rules: &Vec<KitRule>,
    j: usize,
) -> (r: (i64, i64, i64, i64))
    requires
        return_request_wf(req@),
        forall|i: int| 0 <= i < req@.len() ==> (#[trigger] req@[i]).quantity >= 0,
        sale_items_wf(rs@),
        rules_wf(rules@),
        j < rules@.len(),
        forall|i: int|
            0 <= i < req@.len() ==> find_sale_item(rs@, (#[trigger] req@[i]).sale_item_id@)
                is Some,
    ensures
        r.0 == ret_trigger_credits(req@, rs@, rules@[j as int]),
        r.1 == ret_gift_consumption(req@, rs@, rules@[j as int]),
        r.2 == ret_trigger_qty(req@, rs@, rules@[j as int]),
        r.3 == ret_gift_qty(req@, rs@, rules@[j as int]),
        0 <= r.0 <= 50_000_000_000_000_000i64,
        0 <= r.1 <= 5_000_000_000i64,
        0 <= r.2 <= 5_000_000_000i64,
        0 <= r.3 <= 5_000_000_000i64,
{
    let rule = &rules[j];
    let mut credits: i64 = 0;
    let mut cons: i64 = 0;
    let mut t_ret: i64 = 0;
    let mut g_ret: i64 = 0;
    let mut i: usize = 0;
    proof {
        assert(req@.take(0) =~= Seq::<ReturnItemRequest>::empty());
    }
    while i < req.len()
        invariant
            0 <= i <= req@.len(),
            return_request_wf(req@),
            forall|q: int| 0 <= q < req@.len() ==> (#[trigger] req@[q]).quantity >= 0,
            sale_items_wf(rs@),
            rules_wf(rules@),
            j < rules@.len(),
            rule == rules@[j as int],
            forall|q: int|
                0 <= q < req@.len() ==> find_sale_item(rs@, (#[trigger] req@[q]).sale_item_id@)
                    is Some,
            credits == ret_trigger_credits(req@.take(i as int), rs@, rules@[j as int]),
            cons == ret_gift_consumption(req@.take(i as int), rs@, rules@[j as int]),
            t_ret == ret_trigger_qty(req@.take(i as int), rs@, rules@[j as int]),
            g_ret == ret_gift_qty(req@.take(i as int), rs@, rules@[j as int]),
            0 <= credits <= (i as int) * (MAX_QTY * MAX_SELECTIONS),
            0 <= cons <= (i as int) * MAX_QTY,
            0 <= t_ret <= (i as int) * MAX_QTY,
            0 <= g_ret <= (i as int) * MAX_QTY,
        decreases req@.len() - i,
    {
        proof {
            assert(req@.take(i + 1).drop_last() =~= req@.take(i as int));
            assert(req@.take(i + 1).last() == req@[i as int]);
            vstd::arithmetic::mul::lemma_mul_is_distributive_add_other_way(
                MAX_QTY * MAX_SELECTIONS,
                i as int,
                1,
            );
            vstd::arithmetic::mul::lemma_mul_is_distributive_add_other_way(
                MAX_QTY as int,
                i as int,
                1,
            );
        }
        let si = lookup_sale_item(rs, &req[i].sale_item_id);
        match si {
            Some(sidx) => {
                let s = &rs[sidx];
                let matches_kit: bool = match &s.kit_option_id {
                    Some(k) => *k == rule.id,
                    None => false,
                };
                if matches_kit {
                    if contains_str(&rule.triggers, &s.product_id) {
                        proof {
                            vstd::arithmetic::mul::lemma_mul_nonnegative(
                                req@[i as int].quantity as int,
                                rules@[j as int].max_selections as int,
                            );
                            vstd::arithmetic::mul::lemma_mul_upper_bound(
                                req@[i as int].quantity as int,
                                MAX_QTY as int,
                                rules@[j as int].max_selections as int,
                                MAX_SELECTIONS as int,
                            );
                        }
                        credits = credits + req[i].quantity * rule.max_selections;
                        t_ret = t_ret + req[i].quantity;
                    } else {
                        g_ret = g_ret + req[i].quantity;
                        if contains_str(&rule.items, &s.product_id) {
                            cons = cons + req[i].quantity;
                        }
                    }
                }
            },
            None => {},
        }
        i += 1;
    }
    proof {
        assert(req@.take(req@.len() as int) =~= req@);
    }
    (credits, cons, t_ret, g_ret)
}

/// Sums a kit's still-available trigger and gift quantities over the
/// sale's items.
fn kit_avail_sums(rs: &Vec<SaleItemRecord>, rules: &Vec<KitRule>, j: usize) -> (r: (i64, i64))
    requires
        sale_items_wf(rs@),
        j < rules@.len(),
    ensures
        r.0 == avail_trigger_qty(rs@, rules@[j as int]),
        r.1 == avail_gift_qty(rs@, rules@[j as int]),
        -5_005_000_000i64 <= r.0 <= 5_000_000_000i64,
        -5_005_000_000i64 <= r.1 <= 5_000_000_000i64,
{
    let rule = &rules[j];
    let mut t_av: i64 = 0;
    let mut g_av: i64 = 0;
    let mut i: usize = 0;
    proof {
        assert(rs@.take(0) =~= Seq::<SaleItemRecord>::empty());
    }
    while i < rs.len()
        invariant
            0 <= i <= rs@.len(),
            sale_items_wf(rs@),
            j < rules@.len(),
            rule == rules@[j as int],
            t_av == avail_trigger_qty(rs@.take(i as int), rules@[j as int]),
            g_av == avail_gift_qty(rs@.take(i as int), rules@[j as int]),
            t_av + (i as int) * (MAX_QTY + 1) >= 0,
            t_av <= (i as int) * MAX_QTY,
            g_av + (i as int) * (MAX_QTY + 1) >= 0,
            g_av <= (i as int) * MAX_QTY,
        decreases rs@.len() - i,
    {
        proof {
            assert(rs@.take(i + 1).drop_last() =~= rs@.take(i as int));
            assert(rs@.take(i + 1).last() == rs@[i as int]);
            vstd::arithmetic::mul::lemma_mul_is_distributive_add_other_way(
                MAX_QTY as int,
                i as int,
                1,
            );
            vstd::arithmetic::mul::lemma_mul_is_distributive_add_other_way(
                MAX_QTY + 1,
                i as int,
                1,
            );
            vstd::arithmetic::mul::lemma_mul_inequality(i as int, 500, MAX_QTY + 1);
            vstd::arithmetic::mul::lemma_mul_inequality(i as int, 500, MAX_QTY as int);
        }
        let s = &rs[i];
        let matches_kit: bool = match &s.kit_option_id {
            Some(k) => *k == rule.id,
            None => false,
        };
        if matches_kit {
            let avail: i64 = s.quantity - s.already_returned;
            if contains_str(&rule.triggers, &s.product_id) {
                t_av = t_av + avail;
            } else {
                g_av = g_av + avail;
            }
        }
        i += 1;
    }
    proof {
        assert(rs@.take(rs@.len() as int) =~= rs@);
    }
    (t_av, g_av)
}

/// Validates the kit proportionality of a return: every returned kit's
/// trigger credits and gift consumption cancel out, and gifts are returned
/// in at least the share the returned triggers demand.
pub fn validate_kit_instances(
    req: &Vec<ReturnItemRequest>,
    rs: &Vec<SaleItemRecord>,
    rules: &Vec<KitRule>,
) -> (r: Result<(), PosError>)
    requires
        return_request_wf(req@),
        forall|i: int| 0 <= i < req@.len() ==> (#[trigger] req@[i]).quantity >= 0,
        sale_items_wf(rs@),
        rules_wf(rules@),
        forall|i: int|
            0 <= i < req@.len() ==> find_sale_item(rs@, (#[trigger] req@[i]).sale_item_id@)
                is Some,
    ensures
        r is Ok ==> forall|i: int| 0 <= i < req@.len() ==> kit_line_ok(req@, rs@, rules@, i),
        !(r is Ok) ==> exists|i: int|
            0 <= i < req@.len() && !kit_line_ok(req@, rs@, rules@, i),
        r matches Err(e) ==> match e {
            PosError::KitNotFound { line } => line < req@.len() && (find_sale_item(
                rs@,
                req@[line as int].sale_item_id@,
            )->0.kit_option_id matches Some(k) && (forall|j: int|
                0 <= j < rules@.len() ==> (#[trigger] rules@[j]).id@ != k@)),
            PosError::KitReturnForeignProduct { kit } => kit < req@.len() && (exists|j: int|
                0 <= j < rules@.len() && (find_sale_item(
                    rs@,
                    req@[kit as int].sale_item_id@,
                )->0.kit_option_id matches Some(k) && (#[trigger] rules@[j]).id@ == k@)
                    && !has_str(rules@[j].triggers@, req_product(rs@, req@[kit as int]))
                    && !has_str(rules@[j].items@, req_product(rs@, req@[kit as int]))),
            PosError::KitReturnImbalance { kit, credits, consumption } => kit < req@.len() && (
            exists|j: int|
                0 <= j < rules@.len() && (find_sale_item(
                    rs@,
                    req@[kit as int].sale_item_id@,
                )->0.kit_option_id matches Some(k) && (#[trigger] rules@[j]).id@ == k@) && credits
                    == ret_trigger_credits(req@, rs@, rules@[j]) && consumption
                    == ret_gift_consumption(req@, rs@, rules@[j]) && (credits - consumption
                    > QTY_EPS || credits - consumption < -QTY_EPS)),
            PosError::KitReturnNoTriggers { kit } => kit < req@.len() && (exists|j: int|
                0 <= j < rules@.len() && (find_sale_item(
                    rs@,
                    req@[kit as int].sale_item_id@,
                )->0.kit_option_id matches Some(k) && (#[trigger] rules@[j]).id@ == k@)
                    && avail_trigger_qty(rs@, rules@[j]) < 1),
            PosError::KitReturnUnbalancedShare { kit } => kit < req@.len() && (exists|j: int|
                0 <= j < rules@.len() && (find_sale_item(
                    rs@,
                    req@[kit as int].sale_item_id@,
                )->0.kit_option_id matches Some(k) && (#[trigger] rules@[j]).id@ == k@)
                    && avail_trigger_qty(rs@, rules@[j]) >= 1 && ret_gift_qty(req@, rs@, rules@[j])
                    * avail_trigger_qty(rs@, rules@[j]) < avail_gift_qty(rs@, rules@[j])
                    * ret_trigger_qty(req@, rs@, rules@[j]) - avail_trigger_qty(rs@, rules@[j])),
            _ => false,
        },
{
    let mut i: usize = 0;
    while i < req.len()
        invariant
            0 <= i <= req@.len(),
            return_request_wf(req@),
            forall|q: int| 0 <= q < req@.len() ==> (#[trigger] req@[q]).quantity >= 0,
            sale_items_wf(rs@),
            rules_wf(rules@),
            forall|q: int|
                0 <= q < req@.len() ==> find_sale_item(rs@, (#[trigger] req@[q]).sale_item_id@)
                    is Some,
            forall|q: int| 0 <= q < i ==> kit_line_ok(req@, rs@, rules@, q),
        decreases req@.len() - i,
    {
        let sidx = lookup_sale_item(rs, &req[i].sale_item_id).unwrap();
        let has_kit: bool = rs[sidx].kit_option_id.is_some();
        if has_kit {
            let kid_ref = &rs[sidx];
            let j_opt = match &kid_ref.kit_option_id {
                Some(k) => crate::kits::find_rule(rules, k),
                None => None,
            };
            match j_opt {
                None => {
                    proof {
                        assert(!kit_line_ok(req@, rs@, rules@, i as int));
                    }
                    return Err(PosError::KitNotFound { line: i });
                },
                Some(j) => {
                    if !contains_str(&rules[j].triggers, &kid_ref.product_id) && !contains_str(
                        &rules[j].items,
                        &kid_ref.product_id,
                    ) {
                        proof {
                            assert(!kit_line_ok(req@, rs@, rules@, i as int)) by {
                                assert forall|j2: int|
                                    0 <= j2 < rules@.len() && (#[trigger] rules@[j2]).id@
                                        == rules@[j as int].id@ implies j2 == j by {}
                            }
                        }
                        return Err(PosError::KitReturnForeignProduct { kit: i });
                    }
                    let (credits, cons, t_ret, g_ret) = kit_req_sums(req, rs, rules, j);
                    if credits - cons > QTY_EPS || credits - cons < -QTY_EPS {
                        proof {
                            assert(!kit_line_ok(req@, rs@, rules@, i as int)) by {
                                assert forall|j2: int|
                                    0 <= j2 < rules@.len() && (#[trigger] rules@[j2]).id@
                                        == rules@[j as int].id@ implies j2 == j by {}
                            }
                        }
                        return Err(PosError::KitReturnImbalance {
                            kit: i,
                            credits,
                            consumption: cons,
                        });
                    }
                    let (t_av, g_av) = kit_avail_sums(rs, rules, j);
                    if t_av < 1 {
                        proof {
                            assert(!kit_line_ok(req@, rs@, rules@, i as int)) by {
                                assert forall|j2: int|
                                    0 <= j2 < rules@.len() && (#[trigger] rules@[j2]).id@
                                        == rules@[j as int].id@ implies j2 == j by {}
                            }
                        }
                        return Err(PosError::KitReturnNoTriggers { kit: i });
                    }
                    let lhs: i128 = crate::util::mul_wide(g_ret, t_av);
                    let rhs_prod: i128 = crate::util::mul_wide(g_av, t_ret);
                    proof {
                        assert(-30_000_000_000_000_000_000_000int <= (g_av as int) * (t_ret as int)
                            <= 30_000_000_000_000_000_000_000int) by (nonlinear_arith)
                            requires
                                -6_000_000_000 <= g_av as int <= 6_000_000_000,
                                0 <= t_ret as int <= 6_000_000_000,
                        ;
                    }
                    if lhs < rhs_prod - (t_av as i128) {
                        proof {
                            assert(!kit_line_ok(req@, rs@, rules@, i as int)) by {
                                assert forall|j2: int|
                                    0 <= j2 < rules@.len() && (#[trigger] rules@[j2]).id@
                                        == rules@[j as int].id@ implies j2 == j by {}
                            }
                        }
                        return Err(PosError::KitReturnUnbalancedShare { kit: i });
                    }
                    proof {
                        assert(kit_return_ok(req@, rs@, rules@[j as int]));
                        assert(kit_line_ok(req@, rs@, rules@, i as int));
                    }
                },
            }
        }
        i += 1;
    }
    Ok(())
}

// ---------------------------------------------------------------------------
// Promotion proportionality of a return.

/// The request line's sale item belongs to promotion `pid`.
pub open spec fn in_promo_req(rs: Seq<SaleItemRecord>, l: ReturnItemRequest, pid: Seq<char>) -> bool {
    &&& find_sale_item(rs, l.sale_item_id@) matches Some(s)
    &&& find_sale_item(rs, l.sale_item_id@)->0.promotion_id matches Some(p) && p@ == pid
}

/// Quantity of `prod` still available for return within promotion `pid`,
/// milliunits.
pub open spec fn avail_in_promo(rs: Seq<SaleItemRecord>, pid: Seq<char>, prod: Seq<char>) -> int
    decreases rs.len(),
{
    if rs.len() == 0 {
        0
    } else {
        avail_in_promo(rs.drop_last(), pid, prod) + if (rs.last().promotion_id matches Some(p)
            && p@ == pid) && rs.last().product_id@ == prod {
            rs.last().quantity - rs.last().already_returned
        } else {
            0
        }
    }
}

/// Quantity of `prod` this request returns within promotion `pid`,
/// milliunits.
pub open spec fn ret_in_promo(
    req: Seq<ReturnItemRequest>,
    rs: Seq<SaleItemRecord>,
    pid: Seq<char>,
    prod: Seq<char>,
) -> int
    decreases req.len(),
{
    if req.len() == 0 {
        0
    } else {
        ret_in_promo(req.drop_last(), rs, pid, prod) + if in_promo_req(rs, req.last(), pid)
            && req_product(rs, req.last()) == prod {
            req.last().quantity as int
        } else {
            0
        }
    }
}

/// The product of the first request line that belongs to promotion `pid`:
/// the pivot of the proportionality check.
pub open spec fn first_promo_product(
    req: Seq<ReturnItemRequest>,
    rs: Seq<SaleItemRecord>,
    pid: Seq<char>,
) -> Option<Seq<char>>
    decreases req.len(),
{
    if req.len() == 0 {
        None
    } else if in_promo_req(rs, req[0], pid) {
        Some(req_product(rs, req[0]))
    } else {
        first_promo_product(req.drop_first(), rs, pid)
    }
}

/// A returned line is consistent with its promotion: against the pivot
/// product's available-versus-returned ratio, every product of the
/// promotion is returned in the same share, within tolerance.
pub open spec fn promo_return_line_ok(
    req: Seq<ReturnItemRequest>,
    rs: Seq<SaleItemRecord>,
    i: int,
) -> bool {
    find_sale_item(rs, req[i].sale_item_id@)->0.promotion_id matches Some(p) ==> {
        let p0 = first_promo_product(req, rs, p@)->0;
        let av0 = avail_in_promo(rs, p@, p0);
        let ret0 = ret_in_promo(req, rs, p@, p0);
        &&& av0 >= 1
        &&& forall|w: int|
            0 <= w < rs.len() && ((#[trigger] rs[w]).promotion_id matches Some(q) && q@ == p@)
                ==> -av0 <= ret_in_promo(req, rs, p@, rs[w].product_id@) * av0 - avail_in_promo(
                rs,
                p@,
                rs[w].product_id@,
            ) * ret0 <= av0
    }
}

proof fn lemma_first_none(req: Seq<ReturnItemRequest>, rs: Seq<SaleItemRecord>, pid: Seq<char>)
    requires
        first_promo_product(req, rs, pid) is None,
    ensures
        forall|j: int| 0 <= j < req.len() ==> !in_promo_req(rs, #[trigger] req[j], pid),
    decreases req.len(),
{
    if req.len() > 0 {
        lemma_first_none(req.drop_first(), rs, pid);
        assert forall|j: int| 0 <= j < req.len() implies !in_promo_req(rs, #[trigger] req[j], pid) by {
            if j > 0 {
                assert(req.drop_first()[j - 1] == req[j]);
            }
        }
    }
}

/// Sums `avail_in_promo` over the sale items.
fn avail_in_promo_sum(rs: &Vec<SaleItemRecord>, pid: &String, prod: &String) -> (r: i64)
    requires
        sale_items_wf(rs@),
    ensures
        r == avail_in_promo(rs@, pid@, prod@),
        -5_005_000_000i64 <= r <= 5_000_000_000i64,
{
    let mut r: i64 = 0;
    let mut i: usize = 0;
    proof {
        assert(rs@.take(0) =~= Seq::<SaleItemRecord>::empty());
    }
    while i < rs.len()
        invariant
            0 <= i <= rs@.len(),
            sale_items_wf(rs@),
            r == avail_in_promo(rs@.take(i as int), pid@, prod@),
            r + (i as int) * (MAX_QTY + 1) >= 0,
            r <= (i as int) * MAX_QTY,
        decreases rs@.len() - i,
    {
        proof {
            assert(rs@.take(i + 1).drop_last() =~= rs@.take(i as int));
            assert(rs@.take(i + 1).last() == rs@[i as int]);
            vstd::arithmetic::mul::lemma_mul_is_distributive_add_other_way(
                MAX_QTY as int,
                i as int,
                1,
            );
            vstd::arithmetic::mul::lemma_mul_is_distributive_add_other_way(
                MAX_QTY + 1,
                i as int,
                1,
            );
            vstd::arithmetic::mul::lemma_mul_inequality(i as int, 500, MAX_QTY + 1);
            vstd::arithmetic::mul::lemma_mul_inequality(i as int, 500, MAX_QTY as int);
        }
        let s = &rs[i];
        let matches_promo: bool = match &s.promotion_id {
            Some(p) => *p == *pid,
            None => false,
        };
        if matches_promo && s.product_id == *prod {
            r = r + (s.quantity - s.already_returned);
        }
        i += 1;
    }
    proof {
        assert(rs@.take(rs@.len() as int) =~= rs@);
    }
    r
}

/// Sums `ret_in_promo` over the request.
fn ret_in_promo_sum(
    req: &Vec<ReturnItemRequest>,
    rs: &Vec<SaleItemRecord>,
    pid: &String,
    prod: &String,
) -> (r: i64)
    requires
        return_request_wf(req@),
        forall|i: int| 0 <= i < req@.len() ==> (#[trigger] req@[i]).quantity >= 0,
        sale_items_wf(rs@),
        forall|i: int|
            0 <= i < req@.len() ==> find_sale_item(rs@, (#[trigger] req@[i]).sale_item_id@)
                is Some,
    ensures
        r == ret_in_promo(req@, rs@, pid@, prod@),
        0 <= r <= 5_000_000_000i64,
{
    let mut r: i64 = 0;
    let mut i: usize = 0;
    proof {
        assert(req@.take(0) =~= Seq::<ReturnItemRequest>::empty());
    }
    while i < req.len()
        invariant
            0 <= i <= req@.len(),
            return_request_wf(req@),
            forall|q: int| 0 <= q < req@.len() ==> (#[trigger] req@[q]).quantity >= 0,
            sale_items_wf(rs@),
            forall|q: int|
                0 <= q < req@.len() ==> find_sale_item(rs@, (#[trigger] req@[q]).sale_item_id@)
                    is Some,
            r == ret_in_promo(req@.take(i as int), rs@, pid@, prod@),
            0 <= r <= (i as int) * MAX_QTY,
        decreases req@.len() - i,
    {
        proof {
            assert(req@.take(i + 1).drop_last() =~= req@.take(i as int));
            assert(req@.take(i + 1).last() == req@[i as int]);
            vstd::arithmetic::mul::lemma_mul_is_distributive_add_other_way(
                MAX_QTY as int,
                i as int,
                1,
            );
        }
        let si = lookup_sale_item(rs, &req[i].sale_item_id);
        match si {
            Some(sidx) => {
                let s = &rs[sidx];
                let matches_promo: bool = match &s.promotion_id {
                    Some(p) => *p == *pid,
                    None => false,
                };
                if matches_promo && s.product_id == *prod {
                    r = r + req[i].quantity;
                }
            },
            None => {},
        }
        i += 1;
    }
    proof {
        assert(req@.take(req@.len() as int) =~= req@);
    }
    r
}

/// Validates the promotion proportionality of a return: each returned
/// promotion's products must come back in the same share as the pivot
/// product, within tolerance.
pub fn validate_promotion_instances(
    req: &Vec<ReturnItemRequest>,
    rs: &Vec<SaleItemRecord>,
) -> (r: Result<(), PosError>)
    requires
        return_request_wf(req@),
        forall|i: int| 0 <= i < req@.len() ==> (#[trigger] req@[i]).quantity >= 0,
        sale_items_wf(rs@),
        forall|i: int|
            0 <= i < req@.len() ==> find_sale_item(rs@, (#[trigger] req@[i]).sale_item_id@)
                is Some,
    ensures
        r is Ok ==> forall|i: int| 0 <= i < req@.len() ==> promo_return_line_ok(req@, rs@, i),
        !(r is Ok) ==> exists|i: int|
            0 <= i < req@.len() && !promo_return_line_ok(req@, rs@, i),
        r matches Err(e) ==> match e {
            PosError::PromotionReturnNoneAvailable { group } => group < req@.len() && (
            find_sale_item(rs@, req@[group as int].sale_item_id@)->0.promotion_id matches Some(p)
                && (first_promo_product(req@, rs@, p@) matches Some(p0) && avail_in_promo(
                rs@,
                p@,
                p0,
            ) < 1)),
            PosError::PromotionReturnUnbalanced { group } => group < req@.len() && (find_sale_item(
                rs@,
                req@[group as int].sale_item_id@,
            )->0.promotion_id matches Some(p) && (first_promo_product(req@, rs@, p@) matches Some(
                p0,
            ) && avail_in_promo(rs@, p@, p0) >= 1 && (exists|w: int|
                0 <= w < rs@.len() && ((#[trigger] rs@[w]).promotion_id matches Some(q) && q@
                    == p@) && (ret_in_promo(req@, rs@, p@, rs@[w].product_id@) * avail_in_promo(
                    rs@,
                    p@,
                    p0,
                ) - avail_in_promo(rs@, p@, rs@[w].product_id@) * ret_in_promo(req@, rs@, p@, p0)
                    > avail_in_promo(rs@, p@, p0) || ret_in_promo(req@, rs@, p@, rs@[w].product_id@)
                    * avail_in_promo(rs@, p@, p0) - avail_in_promo(rs@, p@, rs@[w].product_id@)
                    * ret_in_promo(req@, rs@, p@, p0) < -avail_in_promo(rs@, p@, p0))))),
            _ => false,
        },
{
    let n: usize = req.len();
    let m: usize = rs.len();
    let mut i: usize = 0;
    while i < n
        invariant
            0 <= i <= n,
            n == req@.len(),
            m == rs@.len(),
            return_request_wf(req@),
            forall|q: int| 0 <= q < req@.len() ==> (#[trigger] req@[q]).quantity >= 0,
            sale_items_wf(rs@),
            forall|q: int|
                0 <= q < req@.len() ==> find_sale_item(rs@, (#[trigger] req@[q]).sale_item_id@)
                    is Some,
            forall|q: int| 0 <= q < i ==> promo_return_line_ok(req@, rs@, q),
        decreases n - i,
    {
        let sidx = lookup_sale_item(rs, &req[i].sale_item_id).unwrap();
        let pid_opt = copy_opt_string(&rs[sidx].promotion_id);
        match pid_opt {
            None => {},
            Some(pid) => {
                // Pivot: the first request line of this promotion.
                let mut j: usize = 0;
                let mut pivot: Option<usize> = None;
                proof {
                    assert(req@.skip(0) =~= req@);
                }
                while j < n
                    invariant_except_break
                        0 <= j <= n,
                        n == req@.len(),
                        sale_items_wf(rs@),
                        pivot is None,
                        forall|q: int|
                            0 <= q < req@.len() ==> find_sale_item(
                                rs@,
                                (#[trigger] req@[q]).sale_item_id@,
                            ) is Some,
                        first_promo_product(req@, rs@, pid@) == first_promo_product(
                            req@.skip(j as int),
                            rs@,
                            pid@,
                        ),
                    ensures
                        match pivot {
                            Some(pj) => pj < n && first_promo_product(req@, rs@, pid@) == Some(
                                req_product(rs@, req@[pj as int]),
                            ),
                            None => first_promo_product(req@, rs@, pid@) is None,
                        },
                    decreases n - j,
                {
                    proof {
                        assert(req@.skip(j as int)[0] == req@[j as int]);
                    }
                    let sj = lookup_sale_item(rs, &req[j].sale_item_id).unwrap();
                    let in_p: bool = match &rs[sj].promotion_id {
                        Some(p) => *p == pid,
                        None => false,
                    };
                    if in_p {
                        pivot = Some(j);
                        break;
                    }
                    proof {
                        assert(req@.skip(j as int).drop_first() =~= req@.skip(j + 1));
                    }
                    j += 1;
                }
                proof {
                    if pivot is None {
                        lemma_first_none(req@, rs@, pid@);
                        assert(in_promo_req(rs@, req@[i as int], pid@));
                        assert(false);
                    }
                }
                let pj = pivot.unwrap();
                let psj = lookup_sale_item(rs, &req[pj].sale_item_id).unwrap();
                let p0: &String = &rs[psj].product_id;
                let av0: i64 = avail_in_promo_sum(rs, &pid, p0);
                if av0 < 1 {
                    proof {
                        assert(!promo_return_line_ok(req@, rs@, i as int));
                    }
                    return Err(PosError::PromotionReturnNoneAvailable { group: i });
                }
                let ret0: i64 = ret_in_promo_sum(req, rs, &pid, p0);
                // Every product of the promotion in the same share.
                let mut w: usize = 0;
                while w < m
                    invariant
                        0 <= w <= m,
                        m == rs@.len(),
                        n == req@.len(),
                        i < n,
                        find_sale_item(rs@, req@[i as int].sale_item_id@) is Some,
                        find_sale_item(rs@, req@[i as int].sale_item_id@)->0.promotion_id is Some,
                        find_sale_item(rs@, req@[i as int].sale_item_id@)->0.promotion_id->0@
                            == pid@,
                        return_request_wf(req@),
                        forall|q: int|
                            0 <= q < req@.len() ==> (#[trigger] req@[q]).quantity >= 0,
                        sale_items_wf(rs@),
                        forall|q: int|
                            0 <= q < req@.len() ==> find_sale_item(
                                rs@,
                                (#[trigger] req@[q]).sale_item_id@,
                            ) is Some,
                        first_promo_product(req@, rs@, pid@) == Some(p0@),
                        av0 == avail_in_promo(rs@, pid@, p0@),
                        ret0 == ret_in_promo(req@, rs@, pid@, p0@),
                        1 <= av0 <= 5_000_000_000i64,
                        0 <= ret0 <= 5_000_000_000i64,
                        forall|q: int|
                            0 <= q < w && ((#[trigger] rs@[q]).promotion_id matches Some(pp) && pp@
                                == pid@) ==> -av0 <= ret_in_promo(req@, rs@, pid@, rs@[q].product_id@)
                                * av0 - avail_in_promo(rs@, pid@, rs@[q].product_id@) * ret0 <= av0,
                    decreases m - w,
                {
                    let in_p: bool = match &rs[w].promotion_id {
                        Some(p) => *p == pid,
                        None => false,
                    };
                    if in_p {
                        let av_w: i64 = avail_in_promo_sum(rs, &pid, &rs[w].product_id);
                        let ret_w: i64 = ret_in_promo_sum(req, rs, &pid, &rs[w].product_id);
                        let lhs: i128 = crate::util::mul_wide(ret_w, av0);
                        let rhs: i128 = crate::util::mul_wide(av_w, ret0);
                        proof {
                            assert(0 <= (ret_w as int) * (av0 as int)
                                <= 30_000_000_000_000_000_000_000int && -30_000_000_000_000_000_000_000int
                                <= (av_w as int) * (ret0 as int)
                                <= 30_000_000_000_000_000_000_000int) by (nonlinear_arith)
                                requires
                                    0 <= ret_w as int <= 6_000_000_000,
                                    1 <= av0 as int <= 6_000_000_000,
                                    -6_000_000_000 <= av_w as int <= 6_000_000_000,
                                    0 <= ret0 as int <= 6_000_000_000,
                            ;
                        }
                        let delta: i128 = lhs - rhs;
                        if delta > (av0 as i128) || delta < -(av0 as i128) {
                            proof {
                                assert(rs@[w as int].promotion_id is Some && rs@[
                                w as int].promotion_id->0@ == pid@);
                                let viol = ret_in_promo(req@, rs@, pid@, rs@[w as int].product_id@)
                                    * avail_in_promo(rs@, pid@, p0@) - avail_in_promo(
                                    rs@,
                                    pid@,
                                    rs@[w as int].product_id@,
                                ) * ret_in_promo(req@, rs@, pid@, p0@);
                                assert(viol > av0 as int || viol < -(av0 as int));
                                assert(!promo_return_line_ok(req@, rs@, i as int));
                            }
                            return Err(PosError::PromotionReturnUnbalanced { group: i });
                        }
                    }
                    w += 1;
                }
                proof {
                    assert(promo_return_line_ok(req@, rs@, i as int));
                }
            },
        }
        i += 1;
    }
    Ok(())
}

// ---------------------------------------------------------------------------
// The whole return.

proof fn lemma_req_qty_prefix(req: Seq<ReturnItemRequest>, id: Seq<char>, a: int, b: int)
    requires
        0 <= a <= b <= req.len(),
        forall|q: int| 0 <= q < req.len() ==> (#[trigger] req[q]).quantity >= 0,
    ensures
        req_qty_for(req.take(a), id) <= req_qty_for(req.take(b), id),
    decreases b - a,
{
    if a < b {
        lemma_req_qty_prefix(req, id, a, b - 1);
        assert(req.take(b).drop_last() =~= req.take(b - 1));
        assert(req.take(b).last() == req[b - 1]);
    }
}

/// A return request the engine owes acceptance to: nonempty, with a
/// readable reason, within the cancellation window when it is one, all
/// lines positive and resolvable, nothing pushed past its original
/// quantity, every kit and promotion returned in proportion, and a
/// positive refund.
pub open spec fn return_acceptable(
    req: Seq<ReturnItemRequest>,
    reason: Seq<char>,
    sale_date: Seq<char>,
    rs: Seq<SaleItemRecord>,
    rules: Seq<KitRule>,
    now: int,
) -> bool {
    &&& req.len() > 0
    &&& !crate::util::is_blank(reason)
    &&& (is_cancellation(reason) ==> crate::clock::spec_sale_ts(sale_date) is Some && now
        - crate::clock::spec_sale_ts(sale_date)->0 < 3600)
    &&& forall|i: int| 0 <= i < req.len() ==> (#[trigger] req[i]).quantity > 0
    &&& forall|i: int|
        0 <= i < req.len() ==> find_sale_item(rs, (#[trigger] req[i]).sale_item_id@) is Some
    &&& forall|w: int|
        0 <= w < rs.len() ==> (#[trigger] rs[w]).already_returned + req_qty_for(req, rs[w].id@)
            <= rs[w].quantity + QTY_EPS
    &&& forall|i: int| 0 <= i < req.len() ==> kit_line_ok(req, rs, rules, i)
    &&& forall|i: int| 0 <= i < req.len() ==> promo_return_line_ok(req, rs, i)
    &&& spec_return_total(req, rs) > 0
}

/// Per sale item, its original quantity and what will have been returned
/// once this request is applied.
pub open spec fn status_entries(rs: Seq<SaleItemRecord>, req: Seq<ReturnItemRequest>) -> Seq<
    (i64, i64),
> {
    Seq::new(
        rs.len(),
        |w: int| (rs[w].quantity, (rs[w].already_returned + req_qty_for(req, rs[w].id@)) as i64),
    )
}

/// Validates and plans a partial or full return of a sale.
///
/// The caller loads the sale, all its items with their cumulative returned
/// quantities, the kit rules the items reference, the active voucher and
/// the last issued return folio, and passes the current clock reading; the
/// returned plan is applied atomically. No request that would push any
/// item beyond its original quantity is ever accepted.
pub fn process_return(
    payload: &ProcessReturnRequest,
    sale: Option<&SaleRecord>,
    sale_items: &Vec<SaleItemRecord>,
    kit_rules: &Vec<KitRule>,
    voucher: Option<&VoucherState>,
    last_return_folio: i64,
    now_ts: i64,
) -> (r: Result<ReturnPlan, PosError>)
    requires
        return_request_wf(payload.items@),
        sale_items_wf(sale_items@),
        rules_wf(kit_rules@),
        0 <= last_return_folio < 0x7fff_ffff_ffff_ffff,
        match voucher {
            Some(v) => -MAX_AMOUNT <= v.current_balance <= MAX_AMOUNT && -MAX_AMOUNT
                <= v.initial_balance <= MAX_AMOUNT,
            None => true,
        },
    ensures
        (sale matches Some(sr) && return_acceptable(
            payload.items@,
            payload.reason@,
            sr.sale_date@,
            sale_items@,
            kit_rules@,
            now_ts as int,
        )) ==> r is Ok,
        match r {
            Ok(plan) => {
                &&& sale is Some
                &&& !crate::util::is_blank(payload.reason@)
                &&& forall|i: int|
                    0 <= i < payload.items@.len() ==> (#[trigger] payload.items@[i]).quantity > 0
                &&& forall|i: int|
                    0 <= i < payload.items@.len() ==> find_sale_item(
                        sale_items@,
                        (#[trigger] payload.items@[i]).sale_item_id@,
                    ) is Some
                &&& forall|w: int|
                    0 <= w < sale_items@.len() ==> (#[trigger] sale_items@[w]).already_returned
                        + req_qty_for(payload.items@, sale_items@[w].id@) <= sale_items@[w].quantity
                        + QTY_EPS
                &&& plan.lines@.len() == payload.items@.len()
                &&& forall|i: int|
                    0 <= i < payload.items@.len() ==> {
                        let s = find_sale_item(
                            sale_items@,
                            (#[trigger] payload.items@[i]).sale_item_id@,
                        )->0;
                        &&& (#[trigger] plan.lines@[i]).sale_item_id@
                            == payload.items@[i].sale_item_id@
                        &&& plan.lines@[i].product_id@ == s.product_id@
                        &&& plan.lines@[i].quantity == payload.items@[i].quantity
                        &&& plan.lines@[i].unit_price == spec_unit_price(
                            s.total as int,
                            s.quantity as int,
                        )
                        &&& plan.lines@[i].subtotal == spec_line_refund(
                            s.total as int,
                            s.quantity as int,
                            payload.items@[i].quantity as int,
                        )
                    }
                &&& plan.total == spec_return_total(payload.items@, sale_items@)
                &&& plan.total > 0
                &&& plan.folio == last_return_folio + 1
                &&& plan.restocks@ == spec_restocks(plan.lines@)
                &&& match voucher {
                    Some(v) => plan.voucher matches VoucherPlan::Update {
                        voucher_id,
                        code,
                        new_current,
                        new_initial,
                    } && voucher_id@ == v.id@ && code@ == v.code@ && new_current == apply_voucher(
                        Some(v.current_balance as int),
                        plan.total as int,
                    ) && new_initial == v.initial_balance + plan.total,
                    None => plan.voucher matches VoucherPlan::Create { code, balance } && code@
                        == spec_voucher_code(sale->0.folio@) && balance == apply_voucher(
                        None,
                        plan.total as int,
                    ),
                }
                &&& plan.new_status == spec_status(
                    status_entries(sale_items@, payload.items@),
                    is_cancellation(payload.reason@),
                )
                &&& (is_cancellation(payload.reason@) ==> crate::clock::spec_sale_ts(
                    sale->0.sale_date@,
                ) is Some && (now_ts as int) - crate::clock::spec_sale_ts(sale->0.sale_date@)->0
                    < 3600)
                &&& forall|i: int|
                    0 <= i < payload.items@.len() ==> kit_line_ok(
                        payload.items@,
                        sale_items@,
                        kit_rules@,
                        i,
                    ) && promo_return_line_ok(payload.items@, sale_items@, i)
            },
            Err(e) => match e {
                PosError::EmptyReturn => payload.items@.len() == 0,
                PosError::EmptyReason => crate::util::is_blank(payload.reason@),
                PosError::SaleNotFound => sale is None,
                PosError::SaleDateUnreadable => is_cancellation(payload.reason@) && sale is Some
                    && crate::clock::spec_sale_ts(sale->0.sale_date@) is None,
                PosError::CancellationWindowExpired => is_cancellation(payload.reason@) && sale
                    is Some && crate::clock::spec_sale_ts(sale->0.sale_date@) is Some && (
                now_ts as int) - crate::clock::spec_sale_ts(sale->0.sale_date@)->0 >= 3600,
                PosError::NonPositiveQuantity { line } => line < payload.items@.len()
                    && payload.items@[line as int].quantity <= 0,
                PosError::SaleItemNotFound { line } => line < payload.items@.len()
                    && find_sale_item(sale_items@, payload.items@[line as int].sale_item_id@)
                    is None,
                PosError::ExcessReturn { line, available, requested } => line
                    < payload.items@.len() && requested == payload.items@[line as int].quantity
                    && (find_sale_item(
                    sale_items@,
                    payload.items@[line as int].sale_item_id@,
                ) matches Some(s) && available == s.quantity - s.already_returned - req_qty_for(
                    payload.items@.take(line as int),
                    s.id@,
                ) && s.already_returned + req_qty_for(
                    payload.items@.take(line as int),
                    s.id@,
                ) + payload.items@[line as int].quantity > s.quantity + QTY_EPS),
                PosError::NonPositiveReturnTotal { total } => total == spec_return_total(
                    payload.items@,
                    sale_items@,
                ) && total <= 0,
                PosError::KitNotFound { line } => line < payload.items@.len() && (find_sale_item(
                    sale_items@,
                    payload.items@[line as int].sale_item_id@,
                )->0.kit_option_id matches Some(k) && (forall|j: int|
                    0 <= j < kit_rules@.len() ==> (#[trigger] kit_rules@[j]).id@ != k@)),
                PosError::KitReturnForeignProduct { kit } => kit < payload.items@.len() && (exists|
                    j: int,
                |
                    0 <= j < kit_rules@.len() && (find_sale_item(
                        sale_items@,
                        payload.items@[kit as int].sale_item_id@,
                    )->0.kit_option_id matches Some(k) && (#[trigger] kit_rules@[j]).id@ == k@)
                        && !has_str(
                        kit_rules@[j].triggers@,
                        req_product(sale_items@, payload.items@[kit as int]),
                    ) && !has_str(
                        kit_rules@[j].items@,
                        req_product(sale_items@, payload.items@[kit as int]),
                    )),
                PosError::KitReturnImbalance { kit, credits, consumption } => kit
                    < payload.items@.len() && (exists|j: int|
                    0 <= j < kit_rules@.len() && (find_sale_item(
                        sale_items@,
                        payload.items@[kit as int].sale_item_id@,
                    )->0.kit_option_id matches Some(k) && (#[trigger] kit_rules@[j]).id@ == k@)
                        && credits == ret_trigger_credits(payload.items@, sale_items@, kit_rules@[j])
                        && consumption == ret_gift_consumption(
                        payload.items@,
                        sale_items@,
                        kit_rules@[j],
                    ) && (credits - consumption > QTY_EPS || credits - consumption < -QTY_EPS)),
                PosError::KitReturnNoTriggers { kit } => kit < payload.items@.len() && (exists|
                    j: int,
                |
                    0 <= j < kit_rules@.len() && (find_sale_item(
                        sale_items@,
                        payload.items@[kit as int].sale_item_id@,
                    )->0.kit_option_id matches Some(k) && (#[trigger] kit_rules@[j]).id@ == k@)
                        && avail_trigger_qty(sale_items@, kit_rules@[j]) < 1),
                PosError::KitReturnUnbalancedShare { kit } => kit < payload.items@.len() && (exists|
                    j: int,
                |
                    0 <= j < kit_rules@.len() && (find_sale_item(
                        sale_items@,
                        payload.items@[kit as int].sale_item_id@,
                    )->0.kit_option_id matches Some(k) && (#[trigger] kit_rules@[j]).id@ == k@)
                        && avail_trigger_qty(sale_items@, kit_rules@[j]) >= 1 && ret_gift_qty(
                        payload.items@,
                        sale_items@,
                        kit_rules@[j],
                    ) * avail_trigger_qty(sale_items@, kit_rules@[j]) < avail_gift_qty(
                        sale_items@,
                        kit_rules@[j],
                    ) * ret_trigger_qty(payload.items@, sale_items@, kit_rules@[j])
                        - avail_trigger_qty(sale_items@, kit_rules@[j])),
                PosError::PromotionReturnNoneAvailable { group } => group < payload.items@.len()
                    && (find_sale_item(
                    sale_items@,
                    payload.items@[group as int].sale_item_id@,
                )->0.promotion_id matches Some(p) && (first_promo_product(
                    payload.items@,
                    sale_items@,
                    p@,
                ) matches Some(p0) && avail_in_promo(sale_items@, p@, p0) < 1)),
                PosError::PromotionReturnUnbalanced { group } => group < payload.items@.len() && (
                find_sale_item(
                    sale_items@,
                    payload.items@[group as int].sale_item_id@,
                )->0.promotion_id matches Some(p) && (first_promo_product(
                    payload.items@,
                    sale_items@,
                    p@,
                ) matches Some(p0) && avail_in_promo(sale_items@, p@, p0) >= 1 && (exists|w: int|
                    0 <= w < sale_items@.len() && ((#[trigger] sale_items@[w]).promotion_id
                        matches Some(q) && q@ == p@) && (ret_in_promo(
                        payload.items@,
                        sale_items@,
                        p@,
                        sale_items@[w].product_id@,
                    ) * avail_in_promo(sale_items@, p@, p0) - avail_in_promo(
                        sale_items@,
                        p@,
                        sale_items@[w].product_id@,
                    ) * ret_in_promo(payload.items@, sale_items@, p@, p0) > avail_in_promo(
                        sale_items@,
                        p@,
                        p0,
                    ) || ret_in_promo(
                        payload.items@,
                        sale_items@,
                        p@,
                        sale_items@[w].product_id@,
                    ) * avail_in_promo(sale_items@, p@, p0) - avail_in_promo(
                        sale_items@,
                        p@,
                        sale_items@[w].product_id@,
                    ) * ret_in_promo(payload.items@, sale_items@, p@, p0) < -avail_in_promo(
                        sale_items@,
                        p@,
                        p0,
                    ))))),
                _ => false,
            },
        },
{
    let req = &payload.items;
    let n: usize = req.len();
    if n == 0 {
        return Err(PosError::EmptyReturn);
    }
    if crate::util::check_blank(&payload.reason) {
        return Err(PosError::EmptyReason);
    }
    let sr: &SaleRecord;
    match sale {
        None => {
            return Err(PosError::SaleNotFound);
        },
        Some(s) => {
            sr = s;
        },
    }
    let cancel: bool = reason_is_cancellation(&payload.reason);
    if cancel {
        match crate::clock::parse_sale_datetime(sr.sale_date.as_str()) {
            None => {
                return Err(PosError::SaleDateUnreadable);
            },
            Some(ts) => {
                let diff: i128 = (now_ts as i128) - (ts as i128);
                if diff >= 3600 {
                    return Err(PosError::CancellationWindowExpired);
                }
            },
        }
    }

    // Per-line validation: positive quantities, known sale items, and no
    // line pushing its item beyond what remains.
    let mut lines: Vec<ReturnLinePlan> = Vec::new();
    let mut total: i64 = 0;
    let mut i: usize = 0;
    proof {
        assert(req@.take(0) =~= Seq::<ReturnItemRequest>::empty());
    }
    while i < n
        invariant
            0 <= i <= n,
            n == req@.len(),
            req@ == payload.items@,
            return_request_wf(req@),
            sale_items_wf(sale_items@),
            lines@.len() == i,
            forall|q: int| 0 <= q < i ==> (#[trigger] req@[q]).quantity > 0,
            forall|q: int|
                0 <= q < i ==> find_sale_item(sale_items@, (#[trigger] req@[q]).sale_item_id@)
                    is Some,
            forall|q: int|
                0 <= q < i ==> {
                    let s = find_sale_item(sale_items@, (#[trigger] req@[q]).sale_item_id@)->0;
                    &&& (#[trigger] lines@[q]).sale_item_id@ == req@[q].sale_item_id@
                    &&& lines@[q].product_id@ == s.product_id@
                    &&& lines@[q].quantity == req@[q].quantity
                    &&& lines@[q].unit_price == spec_unit_price(s.total as int, s.quantity as int)
                    &&& lines@[q].subtotal == spec_line_refund(
                        s.total as int,
                        s.quantity as int,
                        req@[q].quantity as int,
                    )
                },
            forall|w: int|
                0 <= w < sale_items@.len() ==> (#[trigger] sale_items@[w]).already_returned
                    + req_qty_for(req@.take(i as int), sale_items@[w].id@) <= sale_items@[w].quantity
                    + QTY_EPS,
            total == spec_return_total(req@.take(i as int), sale_items@),
            0 <= total <= (i as int) * (2 * MAX_LINE_TOTAL + 2),
        decreases n - i,
    {
        let ghost pre = req@.take(i as int);
        proof {
            assert(req@.take(i + 1).drop_last() =~= pre);
            assert(req@.take(i + 1).last() == req@[i as int]);
        }
        if req[i].quantity <= 0 {
            return Err(PosError::NonPositiveQuantity { line: i });
        }
        let sidx: usize;
        match lookup_sale_item(sale_items, &req[i].sale_item_id) {
            None => {
                return Err(PosError::SaleItemNotFound { line: i });
            },
            Some(sx) => {
                sidx = sx;
            },
        }
        let prior: i64 = sum_req_qty(req, i, &req[i].sale_item_id);
        let s = &sale_items[sidx];
        if s.already_returned + prior + req[i].quantity > s.quantity + QTY_EPS {
            proof {
                if forall|q: int| 0 <= q < req@.len() ==> (#[trigger] req@[q]).quantity > 0 {
                    let id = sale_items@[sidx as int].id@;
                    assert(req_qty_for(req@.take(i + 1), id) == req_qty_for(pre, id)
                        + req@[i as int].quantity);
                    lemma_req_qty_prefix(req@, id, i + 1, req@.len() as int);
                    assert(req@.take(req@.len() as int) =~= req@);
                    assert(sale_items@[sidx as int].already_returned + req_qty_for(req@, id)
                        > sale_items@[sidx as int].quantity + QTY_EPS);
                }
            }
            return Err(PosError::ExcessReturn {
                line: i,
                available: s.quantity - s.already_returned - prior,
                requested: req[i].quantity,
            });
        }
        let (up, sub) = refund_amounts(s.total, s.quantity, req[i].quantity);
        lines.push(
            ReturnLinePlan {
                sale_item_id: req[i].sale_item_id.clone(),
                product_id: s.product_id.clone(),
                quantity: req[i].quantity,
                unit_price: up,
                subtotal: sub,
            },
        );
        proof {
            vstd::arithmetic::mul::lemma_mul_is_distributive_add_other_way(
                2 * MAX_LINE_TOTAL + 2,
                i as int,
                1,
            );
            vstd::arithmetic::mul::lemma_mul_inequality(i as int, 500, 2 * MAX_LINE_TOTAL + 2);
            assert forall|w: int|
                0 <= w < sale_items@.len() implies (#[trigger] sale_items@[w]).already_returned
                + req_qty_for(req@.take(i + 1), sale_items@[w].id@) <= sale_items@[w].quantity
                + QTY_EPS by {
                if sale_items@[w].id@ == req@[i as int].sale_item_id@ {
                    assert(w == sidx as int);
                } else {
                    assert(req_qty_for(req@.take(i + 1), sale_items@[w].id@) == req_qty_for(
                        pre,
                        sale_items@[w].id@,
                    ));
                }
            }
        }
        total = total + sub;
        i += 1;
    }
    proof {
        assert(req@.take(n as int) =~= req@);
    }

    // Kit and promotion proportionality.
    match validate_kit_instances(req, sale_items, kit_rules) {
        Ok(_) => {},
        Err(e) => {
            return Err(e);
        },
    }
    match validate_promotion_instances(req, sale_items) {
        Ok(_) => {},
        Err(e) => {
            return Err(e);
        },
    }

    if total <= 0 {
        return Err(PosError::NonPositiveReturnTotal { total });
    }

    // Voucher and restocks.
    let voucher_plan = manage_store_voucher(voucher, sr.folio.as_str(), total);
    let mut restocks: Vec<(String, i64)> = Vec::new();
    let mut k: usize = 0;
    proof {
        assert(lines@.take(0) =~= Seq::<ReturnLinePlan>::empty());
    }
    while k < lines.len()
        invariant
            0 <= k <= lines@.len(),
            restocks@ == spec_restocks(lines@.take(k as int)),
        decreases lines@.len() - k,
    {
        proof {
            assert(lines@.take(k + 1).drop_last() =~= lines@.take(k as int));
            assert(lines@.take(k + 1).last() == lines@[k as int]);
        }
        if lines[k].unit_price >= 1 {
            restocks.push((lines[k].product_id.clone(), lines[k].quantity));
        }
        k += 1;
    }
    proof {
        assert(lines@.take(lines@.len() as int) =~= lines@);
    }

    // Lifecycle status across all of the sale's items.
    let mut entries: Vec<(i64, i64)> = Vec::new();
    let mut w: usize = 0;
    while w < sale_items.len()
        invariant
            0 <= w <= sale_items@.len(),
            n == req@.len(),
            return_request_wf(req@),
            sale_items_wf(sale_items@),
            forall|q: int| 0 <= q < req@.len() ==> (#[trigger] req@[q]).quantity > 0,
            forall|q: int|
                0 <= q < sale_items@.len() ==> (#[trigger] sale_items@[q]).already_returned
                    + req_qty_for(req@, sale_items@[q].id@) <= sale_items@[q].quantity + QTY_EPS,
            entries@.len() == w,
            forall|q: int|
                0 <= q < w ==> 0 <= (#[trigger] entries@[q]).1 <= 10_000_000_000i64,
            forall|q: int|
                0 <= q < w ==> #[trigger] entries@[q] == (
                    sale_items@[q].quantity,
                    (sale_items@[q].already_returned + req_qty_for(
                        req@,
                        sale_items@[q].id@,
                    )) as i64,
                ),
        decreases sale_items@.len() - w,
    {
        let ret_q: i64 = sum_req_qty(req, n, &sale_items[w].id);
        proof {
            assert(req@.take(n as int) =~= req@);
            vstd::arithmetic::mul::lemma_mul_inequality(n as int, 500, MAX_QTY as int);
        }
        entries.push((sale_items[w].quantity, sale_items[w].already_returned + ret_q));
        w += 1;
    }
    proof {
        assert(entries@ =~= status_entries(sale_items@, req@));
    }
    let new_status = recompute_status(&entries, cancel);

    Ok(
        ReturnPlan {
            folio: last_return_folio + 1,
            total,
            voucher: voucher_plan,
            lines,
            restocks,
            new_status,
        },
    )
}

} // verus!
