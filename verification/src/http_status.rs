//! HTTP status codes as the media-server clients classify them.

use vstd::prelude::*;
use crate::text::opt_view;

verus! {

/// Whether a status is a success (2xx).
pub open spec fn is_success(status: u16) -> bool {
    200 <= status < 300
}

/// The registered reason phrase of a status code ("Not Found" for 404), if
/// the code is a registered one.
pub uninterp spec fn canonical_reason(status: u16) -> Option<Seq<char>>;

/// The reason phrase of a status code, from the `http` crate's table of
/// registered codes (reached through `reqwest::StatusCode`).
///
/// Trusted: the result is `canonical_reason(status)`; which codes the table
/// holds and their phrases are left to the crate.
#[verifier::external_body]
pub(crate) fn reason_phrase(status: u16) -> (r: Option<String>)
    ensures
        opt_view(r) == canonical_reason(status),
{
    match reqwest::StatusCode::from_u16(status) {
        Ok(code) => code.canonical_reason().map(String::from),
        Err(_) => None,
    }
}

/// Whether a status is a success (2xx).
pub fn status_is_success(status: u16) -> (r: bool)
    ensures
        r == is_success(status),
{
    200 <= status && status < 300
}

} // verus!
