//! Shift-closing aggregation: sums the cash movements and the settled
//! sales of a register shift into the figures the closing flow displays,
//! including the theoretical cash the drawer should hold.

use vstd::prelude::*;


verus! {

/// Largest accepted per-row amount in shift aggregation, cents.
pub const SHIFT_AMOUNT_MAX: i64 = 10_000_000_000_000;

/// One cash movement of a shift, amount in cents; `is_in` tells deposits
/// from withdrawals.
#[derive(Clone, Debug)]
pub struct CashMovementDto {
    pub id: i64,
    pub shift_id: i64,
    pub is_in: bool,
    pub amount: i64,
    pub concept: String,
    pub description: Option<String>,
    pub created_at: String,
}

/// One settled sale of a shift, reduced to what the totals need; amounts
/// in cents.
#[derive(Clone, Debug)]
pub struct ShiftSaleRow {
    /// One of "cash", "card_transfer", "credit", "mixed", "voucher".
    pub payment_method: String,
    pub total: i64,
    pub cash_amount: i64,
    pub card_transfer_amount: i64,
}

/// The closing figures of a shift, cents.
#[derive(Clone, Debug)]
pub struct ShiftTotals {
    pub movements_in: i64,
    pub movements_out: i64,
    pub sales_count: i64,
    pub cash_sales: i64,
    pub card_sales: i64,
    pub credit_sales: i64,
    pub voucher_sales: i64,
    pub debt_payments: i64,
    pub theoretical_cash: i64,
}

pub open spec fn movements_wf(ms: Seq<CashMovementDto>) -> bool {
    &&& ms.len() <= 100_000
    &&& forall|i: int| 0 <= i < ms.len() ==> 0 <= (#[trigger] ms[i]).amount <= SHIFT_AMOUNT_MAX
}

pub open spec fn sales_rows_wf(ss: Seq<ShiftSaleRow>) -> bool {
    &&& ss.len() <= 100_000
    &&& forall|i: int|
        0 <= i < ss.len() ==> 0 <= (#[trigger] ss[i]).total <= SHIFT_AMOUNT_MAX && 0 <= ss[i].cash_amount
            <= SHIFT_AMOUNT_MAX && 0 <= ss[i].card_transfer_amount <= SHIFT_AMOUNT_MAX
}

pub open spec fn payments_wf(ps: Seq<i64>) -> bool {
    &&& ps.len() <= 100_000
    &&& forall|i: int| 0 <= i < ps.len() ==> 0 <= #[trigger] ps[i] <= SHIFT_AMOUNT_MAX
}

/// Sum of the deposits (`true`) or withdrawals (`false`) of a shift.
pub open spec fn sum_movements(ms: Seq<CashMovementDto>, inward: bool) -> int
    decreases ms.len(),
{
    if ms.len() == 0 {
        0
    } else {
        sum_movements(ms.drop_last(), inward) + if ms.last().is_in == inward {
            ms.last().amount as int
        } else {
            0
        }
    }
}

/// Sum of one cents-valued field over the sales of a shift, keyed by how
/// the field is selected.
pub open spec fn sum_cash(ss: Seq<ShiftSaleRow>) -> int
    decreases ss.len(),
{
    if ss.len() == 0 {
        0
    } else {
        sum_cash(ss.drop_last()) + ss.last().cash_amount as int
    }
}

pub open spec fn sum_card(ss: Seq<ShiftSaleRow>) -> int
    decreases ss.len(),
{
    if ss.len() == 0 {
        0
    } else {
        sum_card(ss.drop_last()) + ss.last().card_transfer_amount as int
    }
}

/// Sum of the totals of the sales settled by the given method.
pub open spec fn sum_total_by_method(ss: Seq<ShiftSaleRow>, method: Seq<char>) -> int
    decreases ss.len(),
{
    if ss.len() == 0 {
        0
    } else {
        sum_total_by_method(ss.drop_last(), method) + if ss.last().payment_method@ == method {
            ss.last().total as int
        } else {
            0
        }
    }
}

pub open spec fn sum_payments(ps: Seq<i64>) -> int
    decreases ps.len(),
{
    if ps.len() == 0 {
        0
    } else {
        sum_payments(ps.drop_last()) + ps.last() as int
    }
}

/// Aggregates a shift's figures: movement sums, per-method sales totals,
/// debt payments taken in, and the theoretical cash the drawer should
/// hold: the opening float plus cash receipts minus cash paid out.
pub fn get_shift_totals(
    initial_cash: i64,
    movements: &Vec<CashMovementDto>,
    sales: &Vec<ShiftSaleRow>,
    debt_payments: &Vec<i64>,
) -> (r: ShiftTotals)
    requires
        0 <= initial_cash <= SHIFT_AMOUNT_MAX,
        movements_wf(movements@),
        sales_rows_wf(sales@),
        payments_wf(debt_payments@),
    ensures
        r.movements_in == sum_movements(movements@, true),
        r.movements_out == sum_movements(movements@, false),
        r.sales_count == sales@.len(),
        r.cash_sales == sum_cash(sales@),
        r.card_sales == sum_card(sales@),
        r.credit_sales == sum_total_by_method(sales@, "credit"@),
        r.voucher_sales == sum_total_by_method(sales@, "voucher"@),
        r.debt_payments == sum_payments(debt_payments@),
        r.theoretical_cash == initial_cash + r.cash_sales + r.debt_payments + r.movements_in
            - r.movements_out,
{
    let mut mov_in: i64 = 0;
    let mut mov_out: i64 = 0;
    let mut i: usize = 0;
    proof {
        assert(movements@.take(0) =~= Seq::<CashMovementDto>::empty());
    }
    while i < movements.len()
        invariant
            0 <= i <= movements@.len(),
            movements_wf(movements@),
            mov_in == sum_movements(movements@.take(i as int), true),
            mov_out == sum_movements(movements@.take(i as int), false),
            0 <= mov_in <= (i as int) * SHIFT_AMOUNT_MAX,
            0 <= mov_out <= (i as int) * SHIFT_AMOUNT_MAX,
        decreases movements@.len() - i,
    {
        proof {
            assert(movements@.take(i + 1).drop_last() =~= movements@.take(i as int));
            assert(movements@.take(i + 1).last() == movements@[i as int]);
            vstd::arithmetic::mul::lemma_mul_is_distributive_add_other_way(
                SHIFT_AMOUNT_MAX as int,
                i as int,
                1,
            );
        }
        if movements[i].is_in {
            mov_in = mov_in + movements[i].amount;
        } else {
            mov_out = mov_out + movements[i].amount;
        }
        i += 1;
    }
    proof {
        assert(movements@.take(movements@.len() as int) =~= movements@);
    }

    let credit_lit: String = String::from_str("credit");
    let voucher_lit: String = String::from_str("voucher");
    let mut cash_sales: i64 = 0;
    let mut card_sales: i64 = 0;
    let mut credit_sales: i64 = 0;
    let mut voucher_sales: i64 = 0;
    let mut j: usize = 0;
    proof {
        assert(sales@.take(0) =~= Seq::<ShiftSaleRow>::empty());
    }
    while j < sales.len()
        invariant
            0 <= j <= sales@.len(),
            sales_rows_wf(sales@),
            credit_lit@ == "credit"@,
            voucher_lit@ == "voucher"@,
            cash_sales == sum_cash(sales@.take(j as int)),
            card_sales == sum_card(sales@.take(j as int)),
            credit_sales == sum_total_by_method(sales@.take(j as int), "credit"@),
            voucher_sales == sum_total_by_method(sales@.take(j as int), "voucher"@),
            0 <= cash_sales <= (j as int) * SHIFT_AMOUNT_MAX,
            0 <= card_sales <= (j as int) * SHIFT_AMOUNT_MAX,
            0 <= credit_sales <= (j as int) * SHIFT_AMOUNT_MAX,
            0 <= voucher_sales <= (j as int) * SHIFT_AMOUNT_MAX,
        decreases sales@.len() - j,
    {
        proof {
            assert(sales@.take(j + 1).drop_last() =~= sales@.take(j as int));
            assert(sales@.take(j + 1).last() == sales@[j as int]);
            vstd::arithmetic::mul::lemma_mul_is_distributive_add_other_way(
                SHIFT_AMOUNT_MAX as int,
                j as int,
                1,
            );
        }
        cash_sales = cash_sales + sales[j].cash_amount;
        card_sales = card_sales + sales[j].card_transfer_amount;
        if sales[j].payment_method == credit_lit {
            credit_sales = credit_sales + sales[j].total;
        }
        if sales[j].payment_method == voucher_lit {
            voucher_sales = voucher_sales + sales[j].total;
        }
        j += 1;
    }
    proof {
        assert(sales@.take(sales@.len() as int) =~= sales@);
    }

    let mut debt: i64 = 0;
    let mut k: usize = 0;
    proof {
        assert(debt_payments@.take(0) =~= Seq::<i64>::empty());
    }
    while k < debt_payments.len()
        invariant
            0 <= k <= debt_payments@.len(),
            payments_wf(debt_payments@),
            debt == sum_payments(debt_payments@.take(k as int)),
            0 <= debt <= (k as int) * SHIFT_AMOUNT_MAX,
        decreases debt_payments@.len() - k,
    {
        proof {
            assert(debt_payments@.take(k + 1).drop_last() =~= debt_payments@.take(k as int));
            assert(debt_payments@.take(k + 1).last() == debt_payments@[k as int]);
            vstd::arithmetic::mul::lemma_mul_is_distributive_add_other_way(
                SHIFT_AMOUNT_MAX as int,
                k as int,
                1,
            );
        }
        debt = debt + debt_payments[k];
        k += 1;
    }
    proof {
        assert(debt_payments@.take(debt_payments@.len() as int) =~= debt_payments@);
        vstd::arithmetic::mul::lemma_mul_inequality(movements@.len() as int, 100_000, SHIFT_AMOUNT_MAX as int);
        vstd::arithmetic::mul::lemma_mul_inequality(sales@.len() as int, 100_000, SHIFT_AMOUNT_MAX as int);
        vstd::arithmetic::mul::lemma_mul_inequality(
            debt_payments@.len() as int,
            100_000,
            SHIFT_AMOUNT_MAX as int,
        );
    }

    let theoretical: i64 = initial_cash + cash_sales + debt + mov_in - mov_out;
    ShiftTotals {
        movements_in: mov_in,
        movements_out: mov_out,
        sales_count: sales.len() as i64,
        cash_sales,
        card_sales,
        credit_sales,
        voucher_sales,
        debt_payments: debt,
        theoretical_cash: theoretical,
    }
}

} // verus!
