//! Plex payloads as the library reads them.
//!
//! The JSON wire format is parsed by the application shell; these types hold
//! what the converters and the transcode flow read. Ratings are held in
//! hundredths of a point.

use vstd::prelude::*;
use crate::text::{int_digits, push_int};

verus! {

// --- Lenient numbers ---------------------------------------------------------------
//
// Some servers send `librarySectionID` as a number and some as a string, and
// some send numeric fields such as `viewOffset` as strings. The readers below
// accept both forms.

/// Whether every character is an ASCII digit.
pub open spec fn all_digits(s: Seq<char>) -> bool {
    forall|i: int| 0 <= i < s.len() ==> '0' <= #[trigger] s[i] <= '9'
}

/// The value of a string of decimal digits.
pub open spec fn digits_value(s: Seq<char>) -> int
    decreases s.len(),
{
    if s.len() == 0 {
        0
    } else {
        10 * digits_value(s.drop_last()) + (s.last() as int - '0' as int)
    }
}

/// The integer a decimal text denotes, as `str::parse::<i64>` reads it: an
/// optional `+` or `-`, then at least one digit, and a value within `i64`.
pub open spec fn decimal_i64(s: Seq<char>) -> Option<i64> {
    let signed = s.len() > 0 && (s[0] == '+' || s[0] == '-');
    let digits = if signed {
        s.skip(1)
    } else {
        s
    };
    let v = if signed && s[0] == '-' {
        -digits_value(digits)
    } else {
        digits_value(digits)
    };
    if digits.len() > 0 && all_digits(digits) && i64::MIN <= v <= i64::MAX {
        Some(v as i64)
    } else {
        None
    }
}

/// A digit string's value is at least that of any of its prefixes.
pub proof fn lemma_digits_value_grows(s: Seq<char>, i: int)
    requires
        all_digits(s),
        0 <= i <= s.len(),
    ensures
        digits_value(s) >= digits_value(s.take(i)),
        digits_value(s) >= 0,
    decreases s.len(),
{
    if s.len() > 0 {
        let d = s.drop_last();
        assert(all_digits(d));
        if i == s.len() {
            assert(s.take(i) =~= s);
            lemma_digits_value_grows(d, 0);
        } else {
            assert(s.take(i) =~= d.take(i));
            lemma_digits_value_grows(d, i);
        }
        assert('0' <= s[s.len() - 1] <= '9');
    } else {
        assert(s.take(i) =~= s);
    }
}

/// Read a decimal integer the way `str::parse::<i64>` does.
pub fn parse_i64_text(s: &str) -> (r: Option<i64>)
    ensures
        r == decimal_i64(s@),
{
    let cs = crate::text::chars_of(s);
    let n = cs.len();
    let signed = n > 0 && (cs[0] == '+' || cs[0] == '-');
    let negative = signed && cs[0] == '-';
    let start: usize = if signed { 1 } else { 0 };
    let ghost digits = if signed {
        s@.skip(1)
    } else {
        s@
    };
    if start >= n {
        return None;
    }
    let mut acc: i128 = 0;
    let mut i: usize = start;
    while i < n
        invariant
            start <= i <= n,
            n == cs@.len(),
            cs@ == s@,
            start == (if signed { 1usize } else { 0usize }),
            signed == (n > 0 && (cs@[0] == '+' || cs@[0] == '-')),
            digits == s@.skip(start as int),
            all_digits(digits.take(i - start)),
            acc == digits_value(digits.take(i - start)),
            0 <= acc <= 0x8000_0000_0000_0000,
        decreases n - i,
    {
        let c = cs[i];
        proof {
            assert(digits.take(i - start + 1).drop_last() =~= digits.take(i - start));
            assert(digits[i - start] == c);
        }
        if !('0' <= c && c <= '9') {
            proof {
                assert(!all_digits(digits)) by {
                    assert(digits[i - start] == c);
                }
            }
            return None;
        }
        let d = crate::text::code_of(c) as i128 - 48;
        acc = acc * 10 + d;
        i = i + 1;
        assert(all_digits(digits.take(i - start)));
        assert(acc == digits_value(digits.take(i - start)));
        if acc > 0x8000_0000_0000_0000 {
            proof {
                if all_digits(digits) {
                    lemma_digits_value_grows(digits, i - start);
                    assert(digits_value(digits) > 0x8000_0000_0000_0000);
                }
                assert(digits == (if s@.len() > 0 && (s@[0] == '+' || s@[0] == '-') {
                    s@.skip(1)
                } else {
                    s@
                }));
                assert(decimal_i64(s@) is None);
            }
            return None;
        }
    }
    assert(digits.take(n - start) =~= digits);
    if negative {
        Some((0 - acc) as i64)
    } else if acc <= 0x7fff_ffff_ffff_ffff {
        Some(acc as i64)
    } else {
        None
    }
}

/// The text of a numeric section id.
pub fn section_id_text(i: i64) -> (r: String)
    ensures
        r@ == int_digits(i as int),
{
    let mut s = String::new();
    push_int(&mut s, i);
    assert(s@ =~= int_digits(i as int));
    s
}

/// `/library/sections` answer.
#[derive(Debug, Clone, PartialEq)]
pub struct PlexLibraryResponse {
    pub media_container: PlexLibraryContainer,
}

/// The container of library sections.
#[derive(Debug, Clone, PartialEq)]
pub struct PlexLibraryContainer {
    pub size: Option<i32>,
    pub directories: Vec<PlexLibrary>,
}

/// A library section of a server.
#[derive(Debug, Clone, PartialEq)]
pub struct PlexLibrary {
    pub key: String,
    pub title: String,
    pub library_type: String,
    pub item_count: Option<i32>,
}

/// A metadata listing answer.
#[derive(Debug, Clone, PartialEq)]
pub struct PlexMetadataResponse {
    pub media_container: PlexMetadataContainer,
}

/// The container of metadata items.
#[derive(Debug, Clone, PartialEq)]
pub struct PlexMetadataContainer {
    pub size: Option<i32>,
    pub metadata: Vec<PlexMetadata>,
}

/// A movie, show, season, episode or collection as Plex describes it.
#[derive(Debug, Clone, PartialEq)]
pub struct PlexMetadata {
    pub rating_key: String,
    pub title: String,
    pub metadata_type: String,
    pub year: Option<i32>,
    pub summary: Option<String>,
    pub content_rating: Option<String>,
    /// Rating in hundredths of a point.
    pub rating: Option<i64>,
    /// Duration in milliseconds.
    pub duration: Option<i64>,
    pub thumb: Option<String>,
    pub art: Option<String>,
    pub added_at: Option<i64>,
    pub updated_at: Option<i64>,
    pub parent_rating_key: Option<String>,
    pub grandparent_rating_key: Option<String>,
    pub parent_index: Option<i32>,
    pub index: Option<i32>,
    pub originally_available_at: Option<String>,
    pub parent_thumb: Option<String>,
    /// The series poster of an episode.
    pub grandparent_thumb: Option<String>,
    pub library_section_id: Option<String>,
    /// Resume position in milliseconds.
    pub view_offset: Option<i64>,
    /// Times fully watched; one or more means watched.
    pub view_count: Option<i32>,
    pub last_viewed_at: Option<i64>,
    pub genres: Vec<PlexTag>,
    pub roles: Vec<PlexRole>,
    pub directors: Vec<PlexTag>,
    pub writers: Vec<PlexTag>,
    pub collections: Vec<PlexTag>,
    pub media: Vec<PlexMedia>,
}

/// A plain tag (genre, director, writer, collection).
#[derive(Debug, Clone, PartialEq)]
pub struct PlexTag {
    pub tag: String,
}

/// A cast member with character name and photo.
#[derive(Debug, Clone, PartialEq)]
pub struct PlexRole {
    pub tag: String,
    pub role: Option<String>,
    pub thumb: Option<String>,
}

/// One media version of an item.
#[derive(Debug, Clone, PartialEq)]
pub struct PlexMedia {
    pub id: Option<i64>,
    pub video_resolution: Option<String>,
    pub video_codec: Option<String>,
    pub audio_codec: Option<String>,
    pub audio_channels: Option<i32>,
    pub bitrate: Option<i64>,
    pub container: Option<String>,
    pub width: Option<i32>,
    pub height: Option<i32>,
    /// `videoDynamicRange`, such as `SDR`, `HDR` or `Dolby Vision`.
    pub video_dynamic_range: Option<String>,
    pub protocol: Option<String>,
    pub selected: Option<bool>,
    pub parts: Vec<PlexPart>,
}

/// One file of a media version.
#[derive(Debug, Clone, PartialEq)]
pub struct PlexPart {
    pub id: Option<i64>,
    /// Present on direct play; absent on transcode parts.
    pub key: Option<String>,
    pub file: Option<String>,
    pub size: Option<i64>,
    pub container: Option<String>,
    /// `directplay`, `copy` or `transcode` on a decision answer.
    pub decision: Option<String>,
    pub streams: Vec<PlexStream>,
}

/// A video, audio or subtitle stream (`stream_type` 1, 2 or 3).
#[derive(Debug, Clone, PartialEq)]
pub struct PlexStream {
    pub id: Option<i64>,
    pub stream_type: Option<i32>,
    pub codec: Option<String>,
    pub decision: Option<String>,
    pub location: Option<String>,
    pub selected: Option<bool>,
    pub display_title: Option<String>,
    pub extended_display_title: Option<String>,
    pub language: Option<String>,
}

/// The chapters answer.
#[derive(Debug, Clone, PartialEq)]
pub struct PlexChapterResponse {
    pub media_container: PlexChapterContainer,
}

/// The container of chapters.
#[derive(Debug, Clone, PartialEq)]
pub struct PlexChapterContainer {
    pub size: Option<i32>,
    pub chapters: Vec<PlexChapter>,
}

/// A chapter marker; times in milliseconds from the start.
#[derive(Debug, Clone, PartialEq)]
pub struct PlexChapter {
    pub id: Option<i64>,
    pub tag: Option<String>,
    pub start_time_offset: i64,
    pub end_time_offset: i64,
}

/// The hubs answer.
#[derive(Debug, Clone, PartialEq)]
pub struct PlexHubResponse {
    pub media_container: PlexHubContainer,
}

/// The container of hubs.
#[derive(Debug, Clone, PartialEq)]
pub struct PlexHubContainer {
    pub size: Option<i32>,
    pub hubs: Vec<PlexHub>,
}

/// A curated home row.
#[derive(Debug, Clone, PartialEq)]
pub struct PlexHub {
    pub title: String,
    pub hub_identifier: Option<String>,
    pub hub_type: Option<String>,
    pub metadata: Vec<PlexMetadata>,
}

/// A live server-side transcode session.
#[derive(Debug, Clone, PartialEq)]
pub struct PlexTranscodeSession {
    pub key: Option<String>,
    pub video_decision: Option<String>,
    pub audio_decision: Option<String>,
    pub container: Option<String>,
    pub protocol: Option<String>,
    /// The transcoder has caught up with the playhead.
    pub throttled: Option<bool>,
    pub complete: Option<bool>,
    /// Total media duration in milliseconds.
    pub duration: Option<i64>,
    pub transcode_hw_encoding: Option<String>,
}

/// The answer of the transcode `/decision` endpoint.
#[derive(Debug, Clone, PartialEq)]
pub struct PlexDecisionResponse {
    pub media_container: PlexDecisionContainer,
}

/// The container-level decision codes, the echoed item and the session.
#[derive(Debug, Clone, PartialEq)]
pub struct PlexDecisionContainer {
    pub general_decision_code: Option<i64>,
    pub general_decision_text: Option<String>,
    pub direct_play_decision_code: Option<i64>,
    pub direct_play_decision_text: Option<String>,
    pub transcode_decision_code: Option<i64>,
    pub transcode_decision_text: Option<String>,
    pub metadata: Vec<PlexMetadata>,
    pub transcode_session: Option<PlexTranscodeSession>,
}

/// The `/transcode/sessions` answer.
#[derive(Debug, Clone, PartialEq)]
pub struct PlexTranscodeSessionsResponse {
    pub media_container: PlexTranscodeSessionsContainer,
}

/// The container of active transcode sessions.
#[derive(Debug, Clone, PartialEq)]
pub struct PlexTranscodeSessionsContainer {
    pub size: Option<i32>,
    pub sessions: Vec<PlexTranscodeSession>,
}

} // verus!
