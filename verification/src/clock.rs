//! The two things the store takes from its surroundings: the time, and
//! fresh identifiers.

use vstd::prelude::*;

verus! {

/// How many days a ledger password stays valid once set.
pub const PASSWORD_DAYS: i64 = 30;

/// The time `days` days from now in UTC as text, from `chrono::Utc::now`
/// moved on by `chrono::Duration::days` and written out with `to_rfc3339`.
/// Nothing is claimed of the text: it is whatever the machine's clock says.
/// The bound keeps the span and the sum within what `chrono` can hold;
/// `chrono` gives up where the clock stands before 1970.
#[verifier::external_body]
pub(crate) fn utc_after_days(days: i64) -> (r: String)
    requires
        0 <= days <= 36500,
{
    (chrono::Utc::now() + chrono::Duration::days(days)).to_rfc3339()
}

/// The current time in UTC as text: the time no days from now. Nothing is
/// claimed of the text, which is whatever the machine's clock says; those
/// who call this state what holds whatever the time is.
pub(crate) fn utc_now() -> (r: String) {
    utc_after_days(0)
}

/// A fresh random identifier as text, from `uuid::Uuid::new_v4` written out
/// with `to_string`. Nothing is claimed of the text: two calls may return
/// anything.
#[verifier::external_body]
pub(crate) fn fresh_id() -> (r: String) {
    uuid::Uuid::new_v4().to_string()
}

} // verus!
