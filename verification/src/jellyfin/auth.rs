//! Jellyfin sign-in helpers: the device-scoped Authorization header used
//! before a token exists, and reading a Quick Connect answer.
//!
//! The HTTP exchanges and the polling loop run in the application shell.

use vstd::prelude::*;
use crate::jellyfin::error::JellyfinError;
use crate::jellyfin::models::QuickConnectResult;
use crate::text::owned;

verus! {

/// Number of Quick Connect polls (five minutes at one poll every 200 ms).
pub const POLL_ATTEMPTS: usize = 1500;

/// Delay between Quick Connect polls, in milliseconds.
pub const POLL_INTERVAL_MS: u64 = 200;

/// The device-scoped header: client identity and no token.
pub open spec fn device_auth_header_spec(device_id: Seq<char>) -> Seq<char> {
    "MediaBrowser Client=\"Reel\", Device=\"Reel\", DeviceId=\""@ + device_id
        + "\", Version=\"0.1.0\""@
}

/// Build the device-scoped `MediaBrowser` Authorization header for sign-in
/// requests. Unlike the authenticated client header it carries no `Token=`
/// field: there is no token yet.
pub fn device_auth_header(device_id: &str) -> (r: String)
    ensures
        r@ == device_auth_header_spec(device_id@),
{
    let mut s = String::new();
    s.append("MediaBrowser Client=\"Reel\", Device=\"Reel\", DeviceId=\"");
    s.append(device_id);
    s.append("\", Version=\"0.1.0\"");
    assert(s@ =~= device_auth_header_spec(device_id@));
    s
}

/// The code and secret of a Quick Connect initiation, when the server sent
/// both.
pub fn initiate_codes(result: QuickConnectResult) -> (r: Option<(String, String)>)
    ensures
        match r {
            Some((code, secret)) => result.code == Some(code) && result.secret == Some(secret),
            None => result.code is None || result.secret is None,
        },
{
    match (result.code, result.secret) {
        (Some(code), Some(secret)) => Some((code, secret)),
        _ => None,
    }
}

/// The outcome of a Quick Connect initiation: its code and secret, or a
/// server error (status 0) when either is missing.
pub fn initiate_outcome(result: QuickConnectResult) -> (r: Result<(String, String), JellyfinError>)
    ensures
        match r {
            Ok((code, secret)) => result.code == Some(code) && result.secret == Some(secret),
            Err(e) => (result.code is None || result.secret is None) && (e matches JellyfinError::Server {
                status,
                message,
            } && status == 0 && message@ == "Quick Connect initiate returned no code/secret"@),
        },
{
    match initiate_codes(result) {
        Some(pair) => Ok(pair),
        None => Err(
            JellyfinError::Server {
                status: 0,
                message: owned("Quick Connect initiate returned no code/secret"),
            },
        ),
    }
}

/// The error once every Quick Connect poll went by unapproved.
pub fn quick_connect_timeout() -> (r: JellyfinError)
    ensures
        r matches JellyfinError::Server { status, message } && status == 408 && message@
            == "Quick Connect timed out. Please try again."@,
{
    JellyfinError::Server { status: 408, message: owned("Quick Connect timed out. Please try again.") }
}

/// What one Quick Connect poll answer means: approved, or keep polling (a
/// non-success status or an unapproved answer).
pub fn poll_approved(status: u16, result: &Option<QuickConnectResult>) -> (r: bool)
    ensures
        r == (200 <= status < 300 && (match result {
            Some(q) => q.authenticated,
            None => false,
        })),
{
    if 200 <= status && status < 300 {
        match result {
            Some(q) => q.authenticated,
            None => false,
        }
    } else {
        false
    }
}

} // verus!
