//! Time access for the returns engine: reading a persisted sale timestamp
//! and the current clock. Both go through chrono; what the parsers return
//! depends only on the characters of the input, so their outcomes carry
//! names that contracts can speak of.

use vstd::prelude::*;

verus! {

pub uninterp spec fn naive_ts_of(s: Seq<char>) -> Option<i64>;

pub uninterp spec fn rfc3339_ts_of(s: Seq<char>) -> Option<i64>;

/// Relies on chrono::NaiveDateTime::parse_from_str with the
/// "%Y-%m-%d %H:%M:%S" format: the outcome is a function of the input
/// characters alone, here converted to seconds since the Unix epoch.
#[verifier::external_body]
fn parse_space_datetime(s: &str) -> (r: Option<i64>)
    ensures
        r == naive_ts_of(s@),
{
    match chrono::NaiveDateTime::parse_from_str(s, "%Y-%m-%d %H:%M:%S") {
        Ok(dt) => Some(dt.and_utc().timestamp()),
        Err(_) => None,
    }
}

/// Relies on chrono::DateTime::parse_from_rfc3339: the outcome is a
/// function of the input characters alone, here converted to seconds since
/// the Unix epoch.
#[verifier::external_body]
fn parse_rfc3339_datetime(s: &str) -> (r: Option<i64>)
    ensures
        r == rfc3339_ts_of(s@),
{
    match chrono::DateTime::parse_from_rfc3339(s) {
        Ok(dt) => Some(dt.timestamp()),
        Err(_) => None,
    }
}

/// The timestamp a stored sale date denotes: the plain
/// "%Y-%m-%d %H:%M:%S" reading, or failing that the RFC 3339 reading.
pub open spec fn spec_sale_ts(s: Seq<char>) -> Option<i64> {
    if naive_ts_of(s) is Some {
        naive_ts_of(s)
    } else {
        rfc3339_ts_of(s)
    }
}

/// Reads a persisted sale date, accepting the plain space-separated format
/// first and RFC 3339 as a fallback.
pub fn parse_sale_datetime(s: &str) -> (r: Option<i64>)
    ensures
        r == spec_sale_ts(s@),
{
    match parse_space_datetime(s) {
        Some(ts) => Some(ts),
        None => parse_rfc3339_datetime(s),
    }
}

} // verus!
