//! Errors of the Plex API client and how a media source reports them.
//!
//! Transport and decoding failures are held as the text the underlying
//! error displays.

use vstd::prelude::*;
use crate::http_status::{canonical_reason, is_success, reason_phrase, status_is_success};
use crate::media_source::SourceError;
use crate::plex::transcode::TranscodeError;
use crate::text::{concat2, nat_digits, owned, push_nat};

verus! {

/// A failed Plex API call.
#[derive(Debug, Clone, PartialEq)]
pub enum PlexError {
    Http(String),
    Deserialize(String),
    Unauthorized,
    NotFound(String),
    Server { status: u16, message: String },
}

/// The displayed text of a Plex error.
pub open spec fn plex_error_text(e: PlexError) -> Seq<char> {
    match e {
        PlexError::Http(m) => "HTTP error: "@ + m@,
        PlexError::Deserialize(m) => "Deserialization error: "@ + m@,
        PlexError::Unauthorized => "Unauthorized: invalid or expired token"@,
        PlexError::NotFound(m) => "Not found: "@ + m@,
        PlexError::Server { status, message } => "Server error: "@ + nat_digits(status as nat)
            + " - "@ + message@,
    }
}

impl PlexError {
    /// The message as the error displays it.
    pub fn message(&self) -> (r: String)
        ensures
            r@ == plex_error_text(*self),
    {
        match self {
            PlexError::Http(m) => concat2("HTTP error: ", m.as_str()),
            PlexError::Deserialize(m) => concat2("Deserialization error: ", m.as_str()),
            PlexError::Unauthorized => owned("Unauthorized: invalid or expired token"),
            PlexError::NotFound(m) => concat2("Not found: ", m.as_str()),
            PlexError::Server { status, message } => {
                let mut s = owned("Server error: ");
                push_nat(&mut s, *status as u64);
                s.append(" - ");
                s.append(message.as_str());
                s
            },
        }
    }
}

/// The outcome of a response status, given its reason phrase.
pub fn status_outcome(status: u16, reason: Option<&str>) -> (r: Result<(), PlexError>)
    ensures
        is_success(status) <==> r is Ok,
        status == 401 ==> r == Err::<(), PlexError>(PlexError::Unauthorized),
        status == 404 ==> (r matches Err(PlexError::NotFound(m)) && m@ == "Resource not found"@),
        !is_success(status) && status != 401 && status != 404 ==> (r matches Err(
            PlexError::Server { status: s, message },
        ) && s == status && message@ == match reason {
            Some(p) => p@,
            None => "Unknown error"@,
        }),
{
    if status_is_success(status) {
        Ok(())
    } else if status == 401 {
        Err(PlexError::Unauthorized)
    } else if status == 404 {
        Err(PlexError::NotFound(owned("Resource not found")))
    } else {
        let message = match reason {
            Some(p) => owned(p),
            None => owned("Unknown error"),
        };
        Err(PlexError::Server { status, message })
    }
}

/// Classify a response status (the client's `check_status`).
pub fn check_status(status: u16) -> (r: Result<(), PlexError>)
    ensures
        is_success(status) <==> r is Ok,
        status == 401 ==> r == Err::<(), PlexError>(PlexError::Unauthorized),
        status == 404 ==> (r matches Err(PlexError::NotFound(m)) && m@ == "Resource not found"@),
        !is_success(status) && status != 401 && status != 404 ==> (r matches Err(
            PlexError::Server { status: s, message },
        ) && s == status && message@ == match canonical_reason(status) {
            Some(p) => p,
            None => "Unknown error"@,
        }),
{
    if status_is_success(status) || status == 401 || status == 404 {
        return status_outcome(status, None);
    }
    let reason = reason_phrase(status);
    match &reason {
        Some(p) => status_outcome(status, Some(p.as_str())),
        None => status_outcome(status, None),
    }
}

/// How a media source reports a Plex error.
pub open spec fn plex_source_error_spec(e: PlexError, r: SourceError) -> bool {
    match e {
        PlexError::Unauthorized => r matches SourceError::Auth(m) && m@
            == "Invalid or expired Plex token"@,
        PlexError::NotFound(msg) => r matches SourceError::NotFound(m) && m@ == msg@,
        PlexError::Http(t) => r matches SourceError::Connection(m) && m@ == t@,
        PlexError::Deserialize(t) => r matches SourceError::Other(m) && m@ == "Parse error: "@
            + t@,
        PlexError::Server { status, message } => r matches SourceError::Other(m) && m@
            == "Server error "@ + nat_digits(status as nat) + ": "@ + message@,
    }
}

/// Report a Plex error as a media-source error.
pub fn plex_source_error(e: PlexError) -> (r: SourceError)
    ensures
        plex_source_error_spec(e, r),
{
    match e {
        PlexError::Unauthorized => SourceError::Auth(owned("Invalid or expired Plex token")),
        PlexError::NotFound(msg) => SourceError::NotFound(msg),
        PlexError::Http(t) => SourceError::Connection(t),
        PlexError::Deserialize(t) => SourceError::Other(concat2("Parse error: ", t.as_str())),
        PlexError::Server { status, message } => {
            let mut s = owned("Server error ");
            push_nat(&mut s, status as u64);
            s.append(": ");
            s.append(message.as_str());
            SourceError::Other(s)
        },
    }
}

/// The displayed text of a transcode error.
pub open spec fn transcode_error_text(e: TranscodeError) -> Seq<char> {
    match e {
        TranscodeError::Timeout => "transcode decision timed out"@,
        TranscodeError::Request(m) => "transcode decision request failed: "@ + m@,
        TranscodeError::Server { status } => "transcode decision server error: HTTP "@
            + nat_digits(status as nat),
        TranscodeError::Parse(m) => "malformed transcode decision response: "@ + m@,
        TranscodeError::NoDecision => "transcode decision response had no decision field"@,
        TranscodeError::Url => "could not build transcode URL"@,
    }
}

impl TranscodeError {
    /// The message as the error displays it.
    pub fn message(&self) -> (r: String)
        ensures
            r@ == transcode_error_text(*self),
    {
        match self {
            TranscodeError::Timeout => owned("transcode decision timed out"),
            TranscodeError::Request(m) => concat2("transcode decision request failed: ", m.as_str()),
            TranscodeError::Server { status } => {
                let mut s = owned("transcode decision server error: HTTP ");
                push_nat(&mut s, *status as u64);
                s
            },
            TranscodeError::Parse(m) => concat2(
                "malformed transcode decision response: ",
                m.as_str(),
            ),
            TranscodeError::NoDecision => owned("transcode decision response had no decision field"),
            TranscodeError::Url => owned("could not build transcode URL"),
        }
    }
}

/// Report a transcode error as a media-source error: a timeout or a failed
/// request is a connection problem the play path can fall back from; the rest
/// are shown to the user. The message is the error's text.
pub fn transcode_source_error(e: TranscodeError) -> (r: SourceError)
    ensures
        (e is Timeout || e is Request) ==> (r matches SourceError::Connection(m) && m@
            == transcode_error_text(e)),
        !(e is Timeout || e is Request) ==> (r matches SourceError::Other(m) && m@
            == transcode_error_text(e)),
{
    let msg = e.message();
    match e {
        TranscodeError::Timeout | TranscodeError::Request(_) => SourceError::Connection(msg),
        _ => SourceError::Other(msg),
    }
}

} // verus!
