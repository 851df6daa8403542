//! Verified core of a retail point-of-sale backend: cart validation against
//! kit and promotion rules, pricing, sale commit planning, and returns
//! reconciliation. Persistence and hardware sit outside this crate; the
//! functions here take plain values loaded by the caller and return plans
//! that the caller applies atomically.

use vstd::prelude::*;

pub mod cart;
pub mod clock;
pub mod codes;
pub mod errors;
pub mod kits;
pub mod pricing;
pub mod promotions;
pub mod records;
pub mod refunds;
pub mod sale;
pub mod shift;
pub mod util;

verus! {

/// Quantities are carried in thousandths of a unit ("milliunits"), so the
/// tolerance of one thousandth used throughout validation is exactly one step.
pub const QTY_EPS: i64 = 1;

/// Amounts of money are carried in cents; the payment tolerance of one
/// hundredth of a currency unit is exactly one cent.
pub const MONEY_EPS: i64 = 1;

/// Largest accepted number of cart or return lines.
pub const MAX_LINES: usize = 500;

/// Largest accepted line quantity, in milliunits (10,000 units).
pub const MAX_QTY: i64 = 10_000_000;

/// Largest accepted unit or combo price, in cents.
pub const MAX_PRICE: i64 = 100_000_000;

/// Largest accepted payment amount or account balance, in cents.
pub const MAX_AMOUNT: i64 = 10_000_000_000_000_000;

/// Largest accepted persisted line total, in cents.
pub const MAX_LINE_TOTAL: i64 = 1_000_000_000_000_000;

/// Largest accepted `max_selections` of a kit rule.
pub const MAX_SELECTIONS: i64 = 10_000;

/// Largest accepted per-combo quantity of a promotion requirement.
pub const MAX_COMBO_QTY: i64 = 1_000_000;

/// Largest accepted global discount, in hundredths of a percent.
pub const MAX_DISCOUNT_BP: i64 = 2_000;

} // verus!
