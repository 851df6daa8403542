//! Cart and sale data types, with their well-formedness predicates.
//!
//! Quantities are integers in milliunits (thousandths of a unit); money is in
//! integer cents. The classic tolerances of 0.001 units and 0.01 currency are
//! then exactly one step of each scale.

use vstd::prelude::*;
use crate::{MAX_AMOUNT, MAX_LINES, MAX_PRICE, MAX_QTY};

verus! {

/// How a cart line is priced.
#[derive(Clone, Copy, Debug, PartialEq, Eq, Structural)]
pub enum PriceType {
    Retail,
    Wholesale,
    KitItem,
    Promo,
}

/// One line of a cart as the caller submits it.
#[derive(Clone, Debug)]
pub struct SaleItemRequest {
    /// Client-assigned line id, if any.
    pub id: Option<String>,
    pub product_id: String,
    /// Quantity in milliunits; fractional quantities are multiples of 0.001.
    pub quantity: i64,
    pub price_type: PriceType,
    pub promotion_id: Option<String>,
    /// Kit that licenses this line as a gift; may be filled in by validation.
    pub kit_option_id: Option<String>,
}

/// A whole sale as the caller submits it.
#[derive(Clone, Debug)]
pub struct SaleRequest {
    /// Global discount in hundredths of a percent.
    pub discount_percentage: i64,
    pub customer_id: Option<String>,
    pub user_id: String,
    pub cash_register_shift_id: String,
    /// One of "cash", "card_transfer", "credit", "mixed".
    pub payment_method: String,
    /// Cents.
    pub cash_amount: i64,
    /// Cents.
    pub card_transfer_amount: i64,
    pub notes: Option<String>,
    pub items: Vec<SaleItemRequest>,
    pub should_print: bool,
}

/// What the committing caller reports back once the sale is persisted.
#[derive(Clone, Debug)]
pub struct SaleResponse {
    pub id: String,
    pub folio: String,
    /// Cents.
    pub total: i64,
    /// Cents.
    pub change: i64,
}

/// Product master data as loaded from the store, with prices in cents.
#[derive(Clone, Debug)]
pub struct ProductInfo {
    pub id: String,
    pub code: String,
    pub name: String,
    pub retail_price: i64,
    pub wholesale_price: i64,
}

/// A credit customer's account as loaded from the store, amounts in cents.
#[derive(Clone, Debug)]
pub struct CustomerAccount {
    pub id: String,
    pub current_balance: i64,
    pub credit_limit: i64,
}

/// Fully priced data for one cart line, ready to persist.
#[derive(Clone, Debug)]
pub struct FinalLineData {
    /// Client-assigned id of the originating request line, if any.
    pub request_id: Option<String>,
    pub product_id: String,
    pub product_name: String,
    pub product_code: String,
    /// Milliunits.
    pub quantity: i64,
    pub price_type: PriceType,
    pub promotion_id: Option<String>,
    pub kit_option_id: Option<String>,
    /// Cents per unit.
    pub unit_price: i64,
    /// Cents.
    pub discount_amount: i64,
    /// Gross amount, cents.
    pub subtotal: i64,
    /// Net amount, cents.
    pub total: i64,
}

/// A single cart line within machine bounds: positive quantity, at most
/// ten thousand units.
pub open spec fn line_wf(l: SaleItemRequest) -> bool {
    0 < l.quantity <= MAX_QTY
}

/// A cart within machine bounds.
pub open spec fn cart_wf(items: Seq<SaleItemRequest>) -> bool {
    &&& items.len() <= MAX_LINES
    &&& forall|i: int| 0 <= i < items.len() ==> line_wf(#[trigger] items[i])
}

/// Product prices within machine bounds.
pub open spec fn product_wf(p: ProductInfo) -> bool {
    &&& 0 <= p.retail_price <= MAX_PRICE
    &&& 0 <= p.wholesale_price <= MAX_PRICE
}

pub open spec fn products_wf(ps: Seq<ProductInfo>) -> bool {
    forall|i: int| 0 <= i < ps.len() ==> product_wf(#[trigger] ps[i])
}

/// Customer balances within machine bounds.
pub open spec fn customer_wf(c: CustomerAccount) -> bool {
    &&& -MAX_AMOUNT <= c.current_balance <= MAX_AMOUNT
    &&& -MAX_AMOUNT <= c.credit_limit <= MAX_AMOUNT
}

/// The first product entry with the given id, if any.
pub open spec fn find_product(ps: Seq<ProductInfo>, pid: Seq<char>) -> Option<ProductInfo>
    decreases ps.len(),
{
    if ps.len() == 0 {
        None
    } else if ps[0].id@ == pid {
        Some(ps[0])
    } else {
        find_product(ps.drop_first(), pid)
    }
}

pub proof fn lemma_find_product_found(ps: Seq<ProductInfo>, pid: Seq<char>)
    requires
        products_wf(ps),
        find_product(ps, pid) is Some,
    ensures
        product_wf(find_product(ps, pid)->0),
    decreases ps.len(),
{
    if ps.len() > 0 && ps[0].id@ != pid {
        assert(forall|i: int|
            0 <= i < ps.drop_first().len() ==> #[trigger] ps.drop_first()[i] == ps[i + 1]);
        lemma_find_product_found(ps.drop_first(), pid);
    }
}

/// Linear lookup of a product by id; the returned index witnesses
/// `find_product`.
pub fn lookup_product(ps: &Vec<ProductInfo>, pid: &String) -> (r: Option<usize>)
    ensures
        match r {
            Some(i) => i < ps@.len() && find_product(ps@, pid@) == Some(ps@[i as int]),
            None => find_product(ps@, pid@) is None,
        },
{
    let mut i: usize = 0;
    proof {
        assert(ps@.skip(0) =~= ps@);
    }
    while i < ps.len()
        invariant
            0 <= i <= ps@.len(),
            find_product(ps@, pid@) == find_product(ps@.skip(i as int), pid@),
        decreases ps@.len() - i,
    {
        proof {
            assert(ps@.skip(i as int)[0] == ps@[i as int]);
        }
        if ps[i].id == *pid {
            return Some(i);
        }
        proof {
            assert(ps@.skip(i as int).drop_first() =~= ps@.skip(i + 1));
        }
        i += 1;
    }
    proof {
        assert(ps@.skip(i as int).len() == 0);
    }
    None
}

/// Rebuilds a cart line; the copy equals the original.
pub fn copy_line(l: &SaleItemRequest) -> (r: SaleItemRequest)
    ensures
        r == *l,
{
    SaleItemRequest {
        id: copy_opt_string(&l.id),
        product_id: l.product_id.clone(),
        quantity: l.quantity,
        price_type: l.price_type,
        promotion_id: copy_opt_string(&l.promotion_id),
        kit_option_id: copy_opt_string(&l.kit_option_id),
    }
}

/// Rebuilds an optional string; the copy equals the original.
pub fn copy_opt_string(o: &Option<String>) -> (r: Option<String>)
    ensures
        r == *o,
{
    match o {
        Some(s) => Some(s.clone()),
        None => None,
    }
}

} // verus!
