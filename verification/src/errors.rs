//! Rejections raised by validation, commit and return processing, and the
//! sale lifecycle status.
//!
//! Every variant carries the computed figures a caller needs to display the
//! rejection; indices refer to positions in the request that was handed in.

use vstd::prelude::*;

verus! {

/// Why an operation was rejected. No writes happen once one of these is
/// returned.
#[derive(Clone, Debug)]
pub enum PosError {
    /// The cart has no lines.
    EmptyCart,
    /// The global discount is negative or beyond the allowed maximum;
    /// both figures in hundredths of a percent.
    InvalidDiscount { requested: i64, max: i64 },
    /// A line declares a kit that is not among the relevant kit rules.
    KitNotFound { line: usize },
    /// A line's product is not an eligible gift of the kit it declares.
    KitProductNotEligible { line: usize },
    /// A gift line asks for more gift units than the kit's remaining credit;
    /// quantities in milliunits.
    InsufficientKitCredit { line: usize, available: i64, requested: i64 },
    /// A gift-typed line names no kit and no relevant kit lists its product.
    GiftActivatesNoKit { line: usize },
    /// After consuming all gift lines a kit still has credit left,
    /// in milliunits.
    IncompleteKit { kit: usize, remaining: i64 },
    /// A promotion in the cart is unknown, inactive, or outside its window.
    PromotionNotAvailable { group: usize },
    /// A promotion has no combo products configured.
    PromotionNotConfigured { group: usize },
    /// The cart's distinct products for a promotion differ in number from
    /// the required composition.
    PromotionCardinality { group: usize, required: usize, provided: usize },
    /// Provided quantities are not a positive whole multiple of the combo;
    /// the detected multiplier is provided pivot quantity over required,
    /// reported as milliunits over units.
    PromotionBadMultiplier { group: usize, provided: i64, required: i64 },
    /// A required product is missing from the promotion group.
    PromotionMissingProduct { group: usize, product: usize },
    /// A required product's provided quantity does not match the multiple;
    /// milliunits.
    PromotionQuantityMismatch { group: usize, product: usize, expected: i64, provided: i64 },
    /// A line is tagged with a promotion whose composition does not list
    /// its product.
    PromotionExtraProduct { line: usize },
    /// A product referenced by the cart is not in the product data.
    ProductNotFound { line: usize },
    /// Cash plus card cover less than the sale total; cents.
    InsufficientPayment { calculated: i64, paid: i64 },
    /// A credit sale was requested without a customer.
    CreditCustomerRequired,
    /// The customer on a credit sale was not found.
    CustomerNotFound,
    /// The customer's balance after this sale would pass the credit limit;
    /// cents.
    CreditLimitExceeded { available: i64, new_balance: i64 },
    /// A product has no inventory row in the store.
    InventoryRowMissing { line: usize },
    /// The sale id of a return does not exist.
    SaleNotFound,
    /// The return has no lines.
    EmptyReturn,
    /// The return reason is blank.
    EmptyReason,
    /// The sale's recorded date could not be read as a timestamp.
    SaleDateUnreadable,
    /// A cancellation was requested more than an hour after the sale.
    CancellationWindowExpired,
    /// A return line's quantity is not positive; milliunits.
    NonPositiveQuantity { line: usize },
    /// A return line references a sale item that is not part of the sale.
    SaleItemNotFound { line: usize },
    /// A return line asks for more than remains of its sale item;
    /// milliunits.
    ExcessReturn { line: usize, available: i64, requested: i64 },
    /// A returned kit's trigger credits and gift consumption do not cancel
    /// out; milliunit-scaled figures.
    KitReturnImbalance { kit: usize, credits: i64, consumption: i64 },
    /// A returned product is not part of the kit its sale item declares.
    KitReturnForeignProduct { kit: usize },
    /// A kit return names a kit with no trigger quantity left to return.
    KitReturnNoTriggers { kit: usize },
    /// A kit return returns a smaller share of gifts than of triggers.
    KitReturnUnbalancedShare { kit: usize },
    /// A promotion return names a promotion with nothing left to return.
    PromotionReturnNoneAvailable { group: usize },
    /// A promotion's products are returned in unequal shares.
    PromotionReturnUnbalanced { group: usize },
    /// The value of the return is not positive; cents.
    NonPositiveReturnTotal { total: i64 },
}

/// Lifecycle status of a sale.
#[derive(Clone, Copy, Debug, PartialEq, Eq, Structural)]
pub enum SaleStatus {
    Completed,
    PartialReturn,
    FullyReturned,
    Cancelled,
}

/// How far along its lifecycle a status is; the status of a sale never
/// moves to a smaller rank.
pub open spec fn status_rank(s: SaleStatus) -> int {
    match s {
        SaleStatus::Completed => 0,
        SaleStatus::PartialReturn => 1,
        SaleStatus::FullyReturned => 2,
        SaleStatus::Cancelled => 2,
    }
}

} // verus!
