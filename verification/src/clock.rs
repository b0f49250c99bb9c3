//! The wall clock.

use vstd::prelude::*;

verus! {

/// Reads the current time as an RFC 3339 text in UTC.
///
/// Trusted: calls `chrono::Utc::now` and `DateTime::to_rfc3339`. Nothing is
/// claimed of the text: it depends on the machine's clock. The call aborts
/// when that clock stands before the year 1970.
#[verifier::external_body]
pub(crate) fn now_rfc3339() -> (now: String) {
    chrono::Utc::now().to_rfc3339()
}

} // verus!
