//! What every media source reports back: its error kinds and how to
//! download an item's original file.

use vstd::prelude::*;

verus! {

/// Why a media source could not answer.
#[derive(Debug, Clone, PartialEq)]
pub enum SourceError {
    Connection(String),
    Auth(String),
    NotFound(String),
    NotSupported(String),
    Other(String),
}

impl SourceError {
    /// The message as the error displays it (`"{kind}: {detail}"`).
    pub fn message(&self) -> (r: String)
        ensures
            r@ == source_error_text(*self),
    {
        let (head, detail) = match self {
            SourceError::Connection(m) => ("Connection error: ", m),
            SourceError::Auth(m) => ("Authentication error: ", m),
            SourceError::NotFound(m) => ("Not found: ", m),
            SourceError::NotSupported(m) => ("Not supported: ", m),
            SourceError::Other(m) => ("Source error: ", m),
        };
        let mut s = String::new();
        s.append(head);
        s.append(detail.as_str());
        s
    }
}

/// The displayed text of a source error.
pub open spec fn source_error_text(e: SourceError) -> Seq<char> {
    match e {
        SourceError::Connection(m) => "Connection error: "@ + m@,
        SourceError::Auth(m) => "Authentication error: "@ + m@,
        SourceError::NotFound(m) => "Not found: "@ + m@,
        SourceError::NotSupported(m) => "Not supported: "@ + m@,
        SourceError::Other(m) => "Source error: "@ + m@,
    }
}

/// How to download an item's original file: a byte-rangeable URL rebuilt from
/// the persisted part key, and the size when known up front.
#[derive(Debug, Clone, PartialEq)]
pub struct DownloadDescriptor {
    pub url: String,
    pub part_key: String,
    pub expected_size: Option<u64>,
}

} // verus!
