//! What the library takes from the machine and from `chrono` and `uuid`:
//! the current time, fresh identifiers, and the parsing of calendar dates.
use vstd::prelude::*;

verus! {

/// Calls `chrono::Utc::now`, as microseconds since the Unix epoch. The result
/// depends on the clock; nothing is stated of it.
#[verifier::external_body]
pub(crate) fn now_micros() -> i64 {
    chrono::Utc::now().timestamp_micros()
}

/// Calls `uuid::Uuid::now_v7` and prints it. The result depends on the clock
/// and on chance; nothing is stated of it.
#[verifier::external_body]
pub(crate) fn new_id() -> String {
    uuid::Uuid::now_v7().to_string()
}

/// What `str::parse::<chrono::NaiveDate>` gives for a string, as the number
/// of days from the Common Era (`Datelike::num_days_from_ce`).
pub uninterp spec fn spec_parse_date(s: Seq<char>) -> Option<i32>;

/// Calls `str::parse::<chrono::NaiveDate>`; the result is named by
/// `spec_parse_date`.
#[verifier::external_body]
pub(crate) fn parse_date(s: &str) -> (r: Option<i32>)
    ensures
        r == spec_parse_date(s@),
{
    s.parse::<chrono::NaiveDate>().ok().map(|d| chrono::Datelike::num_days_from_ce(&d))
}

} // verus!
