//! The time of day, as text.

use vstd::prelude::*;

verus! {

/// The present instant as an RFC 3339 text in UTC: `chrono::Utc::now`
/// formatted by `chrono::DateTime::to_rfc3339`.
///
/// Trusted, and nothing is claimed of the text: it depends on the clock. As
/// `chrono::Utc::now` does, this stops the program on a machine whose clock
/// stands before 1970.
#[verifier::external_body]
pub(crate) fn now_rfc3339() -> (stamp: String) {
    chrono::Utc::now().to_rfc3339()
}

} // verus!
