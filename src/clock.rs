//! The current time, from the system clock.
use vstd::prelude::*;

verus! {

/// Relies on `chrono::Utc::now` and `DateTime::to_rfc3339`: the current time as
/// RFC 3339 text. Which time that is, is not stated.
#[verifier::external_body]
pub(crate) fn now_rfc3339() -> String {
    chrono::Utc::now().to_rfc3339()
}

} // verus!
