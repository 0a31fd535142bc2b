//! The wall clock, read through `chrono`.

use vstd::prelude::*;

verus! {

/// `chrono::Utc::now` followed by `chrono::DateTime::to_rfc3339`: the
/// current time in UTC as RFC 3339 text. Nothing is claimed of the text: it
/// is whatever the machine's clock gives at the moment of the call, and the
/// clock may step backwards between two calls. `chrono` needs the clock to
/// stand at or after the Unix epoch.
#[verifier::external_body]
pub(crate) fn now_rfc3339() -> (stamp: String) {
    chrono::Utc::now().to_rfc3339()
}

} // verus!
