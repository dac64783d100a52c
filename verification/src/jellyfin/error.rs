//! Errors of the Jellyfin API client, the client's retry rule, and how a
//! media source reports the errors.
//!
//! Transport and decoding failures are held as the text the underlying
//! error displays.

use vstd::prelude::*;
use crate::http_status::{canonical_reason, is_success, reason_phrase, status_is_success};
use crate::media_source::SourceError;
use crate::text::{concat2, nat_digits, owned, push_nat};

verus! {

/// A failed Jellyfin API call.
#[derive(Debug, Clone, PartialEq)]
pub enum JellyfinError {
    Http(String),
    Deserialize(String),
    Unauthorized,
    NotFound(String),
    Server { status: u16, message: String },
}

/// The displayed text of a Jellyfin error.
pub open spec fn jellyfin_error_text(e: JellyfinError) -> Seq<char> {
    match e {
        JellyfinError::Http(m) => "HTTP error: "@ + m@,
        JellyfinError::Deserialize(m) => "Deserialization error: "@ + m@,
        JellyfinError::Unauthorized => "Unauthorized: invalid or expired token"@,
        JellyfinError::NotFound(m) => "Not found: "@ + m@,
        JellyfinError::Server { status, message } => "Server error: "@ + nat_digits(status as nat)
            + " - "@ + message@,
    }
}

impl JellyfinError {
    /// The message as the error displays it.
    pub fn message(&self) -> (r: String)
        ensures
            r@ == jellyfin_error_text(*self),
    {
        match self {
            JellyfinError::Http(m) => concat2("HTTP error: ", m.as_str()),
            JellyfinError::Deserialize(m) => concat2("Deserialization error: ", m.as_str()),
            JellyfinError::Unauthorized => owned("Unauthorized: invalid or expired token"),
            JellyfinError::NotFound(m) => concat2("Not found: ", m.as_str()),
            JellyfinError::Server { status, message } => {
                let mut s = owned("Server error: ");
                push_nat(&mut s, *status as u64);
                s.append(" - ");
                s.append(message.as_str());
                s
            },
        }
    }
}

/// The outcome of a response status, given its reason phrase.
pub fn status_outcome(status: u16, reason: Option<&str>) -> (r: Result<(), JellyfinError>)
    ensures
        is_success(status) <==> r is Ok,
        status == 401 ==> r == Err::<(), JellyfinError>(JellyfinError::Unauthorized),
        status == 404 ==> (r matches Err(JellyfinError::NotFound(m)) && m@
            == "Resource not found"@),
        !is_success(status) && status != 401 && status != 404 ==> (r matches Err(
            JellyfinError::Server { status: s, message },
        ) && s == status && message@ == match reason {
            Some(p) => p@,
            None => "Unknown error"@,
        }),
{
    if status_is_success(status) {
        Ok(())
    } else if status == 401 {
        Err(JellyfinError::Unauthorized)
    } else if status == 404 {
        Err(JellyfinError::NotFound(owned("Resource not found")))
    } else {
        let message = match reason {
            Some(p) => owned(p),
            None => owned("Unknown error"),
        };
        Err(JellyfinError::Server { status, message })
    }
}

/// Classify a response status (the client's `check_status`).
pub fn check_status(status: u16) -> (r: Result<(), JellyfinError>)
    ensures
        is_success(status) <==> r is Ok,
        status == 401 ==> r == Err::<(), JellyfinError>(JellyfinError::Unauthorized),
        status == 404 ==> (r matches Err(JellyfinError::NotFound(m)) && m@
            == "Resource not found"@),
        !is_success(status) && status != 401 && status != 404 ==> (r matches Err(
            JellyfinError::Server { status: s, message },
        ) && s == status && message@ == match canonical_reason(status) {
            Some(p) => p,
            None => "Unknown error"@,
        }),
{
    if status_is_success(status) || status == 401 || status == 404 {
        return status_outcome(status, None);
    }
    let reason = reason_phrase(status);
    match &reason {
        Some(p) => status_outcome(status, Some(p.as_str())),
        None => status_outcome(status, None),
    }
}

/// How many times a request is sent before a transient failure is returned.
pub const REQUEST_ATTEMPTS: u32 = 3;

/// The pause before retrying a transient failure, in milliseconds.
pub const RETRY_BACKOFF_MS: u64 = 600;

/// What the client does after a send attempt failed at the transport level.
#[derive(Debug, Clone, Copy, PartialEq, Eq, Structural)]
pub enum RetryStep {
    /// Wait this long, then send again.
    RetryAfter { delay_ms: u64 },
    /// Give up and return the error.
    Fail,
}

/// After send attempt `attempt` (counting from 1) failed: a connect or timeout
/// failure is retried after a short pause while attempts remain; any other
/// failure, or a transient one on the last attempt, is returned.
pub fn retry_step(attempt: u32, transient: bool) -> (r: RetryStep)
    ensures
        r == (if transient && attempt < REQUEST_ATTEMPTS {
            RetryStep::RetryAfter { delay_ms: RETRY_BACKOFF_MS }
        } else {
            RetryStep::Fail
        }),
{
    if transient && attempt < REQUEST_ATTEMPTS {
        RetryStep::RetryAfter { delay_ms: RETRY_BACKOFF_MS }
    } else {
        RetryStep::Fail
    }
}

/// How many times the encoder stop is sent.
pub const STOP_ENCODING_ATTEMPTS: u32 = 3;

/// The answer to one encoder-stop request: a success or a 404 (the session
/// already ended) means done; any other status is an error to keep for the
/// case that all attempts fail.
pub fn stop_encoding_outcome(status: u16) -> (r: Option<JellyfinError>)
    ensures
        (is_success(status) || status == 404) <==> r is None,
        r matches Some(e) ==> (e matches JellyfinError::Server { status: s, message } && s
            == status && message@ == "stop encoding failed"@),
{
    if status_is_success(status) || status == 404 {
        None
    } else {
        Some(JellyfinError::Server { status, message: owned("stop encoding failed") })
    }
}

/// How a media source reports a Jellyfin error.
pub open spec fn jellyfin_source_error_spec(e: JellyfinError, r: SourceError) -> bool {
    match e {
        JellyfinError::Unauthorized => r matches SourceError::Auth(m) && m@
            == "Invalid or expired Jellyfin token"@,
        JellyfinError::NotFound(msg) => r matches SourceError::NotFound(m) && m@ == msg@,
        JellyfinError::Http(t) => r matches SourceError::Connection(m) && m@ == t@,
        JellyfinError::Deserialize(t) => r matches SourceError::Other(m) && m@ == "Parse error: "@
            + t@,
        JellyfinError::Server { status, message } => r matches SourceError::Other(m) && m@
            == "Server error "@ + nat_digits(status as nat) + ": "@ + message@,
    }
}

/// Report a Jellyfin error as a media-source error.
pub fn jellyfin_source_error(e: JellyfinError) -> (r: SourceError)
    ensures
        jellyfin_source_error_spec(e, r),
{
    match e {
        JellyfinError::Unauthorized => SourceError::Auth(owned("Invalid or expired Jellyfin token")),
        JellyfinError::NotFound(msg) => SourceError::NotFound(msg),
        JellyfinError::Http(t) => SourceError::Connection(t),
        JellyfinError::Deserialize(t) => SourceError::Other(concat2("Parse error: ", t.as_str())),
        JellyfinError::Server { status, message } => {
            let mut s = owned("Server error ");
            push_nat(&mut s, status as u64);
            s.append(": ");
            s.append(message.as_str());
            SourceError::Other(s)
        },
    }
}

/// A failed transcode decision or session-lifecycle request.
#[derive(Debug, Clone, PartialEq)]
pub enum JellyfinTranscodeError {
    Timeout,
    Request(String),
    Server { status: u16 },
    Parse(String),
    NoDecision,
}

/// The displayed text of a transcode error.
pub open spec fn jellyfin_transcode_error_text(e: JellyfinTranscodeError) -> Seq<char> {
    match e {
        JellyfinTranscodeError::Timeout => "PlaybackInfo request timed out"@,
        JellyfinTranscodeError::Request(m) => "PlaybackInfo request failed: "@ + m@,
        JellyfinTranscodeError::Server { status } => "PlaybackInfo server error: "@ + nat_digits(
            status as nat,
        ),
        JellyfinTranscodeError::Parse(m) => "failed to parse PlaybackInfo response: "@ + m@,
        JellyfinTranscodeError::NoDecision => "server returned no playable decision"@,
    }
}

impl JellyfinTranscodeError {
    /// The message as the error displays it.
    pub fn message(&self) -> (r: String)
        ensures
            r@ == jellyfin_transcode_error_text(*self),
    {
        match self {
            JellyfinTranscodeError::Timeout => owned("PlaybackInfo request timed out"),
            JellyfinTranscodeError::Request(m) => concat2("PlaybackInfo request failed: ", m.as_str()),
            JellyfinTranscodeError::Server { status } => {
                let mut s = owned("PlaybackInfo server error: ");
                push_nat(&mut s, *status as u64);
                s
            },
            JellyfinTranscodeError::Parse(m) => concat2(
                "failed to parse PlaybackInfo response: ",
                m.as_str(),
            ),
            JellyfinTranscodeError::NoDecision => owned("server returned no playable decision"),
        }
    }
}

/// Report a transcode error as a media-source error: a timeout or a failed
/// request is a connection problem to fall back from; the rest are shown to
/// the user. The message is the error's text.
pub fn jellyfin_transcode_source_error(e: JellyfinTranscodeError) -> (r: SourceError)
    ensures
        (e is Timeout || e is Request) ==> (r matches SourceError::Connection(m) && m@
            == jellyfin_transcode_error_text(e)),
        !(e is Timeout || e is Request) ==> (r matches SourceError::Other(m) && m@
            == jellyfin_transcode_error_text(e)),
{
    let msg = e.message();
    match e {
        JellyfinTranscodeError::Timeout | JellyfinTranscodeError::Request(_) => {
            SourceError::Connection(msg)
        },
        _ => SourceError::Other(msg),
    }
}

} // verus!
