//! What the desktop media-controls bridge derives from an item before it is
//! published: a D-Bus-safe track path, the title of a local file, and the
//! `file://` URLs of local files and artwork.
//!
//! Durations (floating-point seconds from the player) and the D-Bus server
//! itself stay with the application shell.

use vstd::prelude::*;
use crate::text::{chars_of, concat2, opt_view, owned, push_char};

verus! {

/// Whether a character is alphabetic or numeric in Unicode, as
/// `char::is_alphanumeric` reports it.
pub uninterp spec fn is_alnum(c: char) -> bool;

/// Calls `char::is_alphanumeric`; the answer is named `is_alnum` (the
/// Unicode tables are not restated).
#[verifier::external_body]
fn char_is_alphanumeric(c: char) -> (r: bool)
    ensures
        r == is_alnum(c),
{
    c.is_alphanumeric()
}

/// The file stem of a path (its last component without the extension), as
/// `std::path::Path::file_stem` computes it, when there is one.
pub uninterp spec fn path_file_stem(path: Seq<char>) -> Option<Seq<char>>;

/// Calls `std::path::Path::file_stem` on the path; the answer is named
/// `path_file_stem` (path parsing is not restated). A stem that is not valid
/// UTF-8 cannot arise from a `&str` path.
#[verifier::external_body]
pub(crate) fn file_stem_of(path: &str) -> (r: Option<String>)
    ensures
        opt_view(r) == path_file_stem(path@),
{
    std::path::Path::new(path).file_stem().and_then(|s| s.to_str()).map(String::from)
}

/// A character allowed in a D-Bus object path element: kept if alphanumeric
/// or `_`, otherwise replaced by `_`.
pub open spec fn dbus_char(c: char) -> char {
    if is_alnum(c) || c == '_' {
        c
    } else {
        '_'
    }
}

/// The track path of a media item: `/org/reel/track/` and its id with every
/// other character made `_`.
pub open spec fn track_id_spec(media_id: Seq<char>) -> Seq<char> {
    "/org/reel/track/"@ + media_id.map_values(|c: char| dbus_char(c))
}

/// The D-Bus track path of a media item.
pub fn track_id_for(media_id: &str) -> (r: String)
    ensures
        r@ == track_id_spec(media_id@),
{
    let cs = chars_of(media_id);
    let mut s = owned("/org/reel/track/");
    let ghost head = s@;
    let mut i: usize = 0;
    while i < cs.len()
        invariant
            i <= cs@.len(),
            cs@ == media_id@,
            head == "/org/reel/track/"@,
            s@ == head + cs@.take(i as int).map_values(|c: char| dbus_char(c)),
        decreases cs.len() - i,
    {
        let c = cs[i];
        let kept = if char_is_alphanumeric(c) || c == '_' {
            c
        } else {
            '_'
        };
        push_char(&mut s, kept);
        i = i + 1;
        assert(cs@.take(i as int).map_values(|c: char| dbus_char(c)) =~= cs@.take(i - 1).map_values(
            |c: char| dbus_char(c),
        ).push(dbus_char(c)));
    }
    assert(cs@.take(cs.len() as int) =~= cs@);
    s
}

/// The track path used for a local file.
pub open spec fn local_track_id() -> Seq<char> {
    "/org/reel/track/local"@
}

/// The track path used for a local file.
pub fn local_track_id_string() -> (r: String)
    ensures
        r@ == local_track_id(),
{
    owned("/org/reel/track/local")
}

/// The title shown for a local file: the player's media title when it has
/// one, else the file stem, else `Unknown`.
pub open spec fn file_title_spec(path: Seq<char>, media_title: Option<Seq<char>>) -> Seq<char> {
    match media_title {
        Some(t) => t,
        None => match path_file_stem(path) {
            Some(s) => s,
            None => "Unknown"@,
        },
    }
}

/// The title shown for a local file.
pub fn file_title(path: &str, media_title: Option<&str>) -> (r: String)
    ensures
        r@ == file_title_spec(
            path@,
            match media_title {
                Some(t) => Some(t@),
                None => None,
            },
        ),
{
    match media_title {
        Some(t) => owned(t),
        None => match file_stem_of(path) {
            Some(s) => s,
            None => owned("Unknown"),
        },
    }
}

/// The `file://` URL of a local path.
pub fn file_url(path: &str) -> (r: String)
    ensures
        r@ == "file://"@ + path@,
{
    concat2("file://", path)
}

} // verus!
