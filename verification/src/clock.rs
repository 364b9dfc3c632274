//! The time of day.

use vstd::prelude::*;

verus! {

/// `chrono::Utc::now` written with `to_rfc3339`: the current time as text. Nothing is claimed of
/// it, since it differs from call to call.
#[verifier::external_body]
pub(crate) fn now() -> (r: String) {
    chrono::Utc::now().to_rfc3339()
}

} // verus!
