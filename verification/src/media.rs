//! The library's media model: items, library sections, hubs, details and skip
//! markers, shared by the filters, the cache and the server converters.
//!
//! Ratings are held as hundredths of a point (`7.5` is `750`) and skip
//! markers as milliseconds, so the model stays in integers.

use vstd::prelude::*;
use crate::text::{clone_opt, clone_strings, opt_string_eq, opt_view, str_eq, strs_view};

verus! {

/// Which kind of server a media item came from.
#[derive(Debug, Clone, Copy, PartialEq, Eq, Structural)]
pub enum SourceType {
    Plex,
    Jellyfin,
    Local,
}

/// The registry name of a source type.
pub open spec fn source_type_name(t: SourceType) -> Seq<char> {
    match t {
        SourceType::Plex => "plex"@,
        SourceType::Jellyfin => "jellyfin"@,
        SourceType::Local => "local"@,
    }
}

impl SourceType {
    /// The registry name used in composite keys (`plex`, `jellyfin`, `local`).
    pub fn as_str(&self) -> (r: &'static str)
        ensures
            r@ == source_type_name(*self),
    {
        match self {
            SourceType::Plex => "plex",
            SourceType::Jellyfin => "jellyfin",
            SourceType::Local => "local",
        }
    }
}

/// Kind of media item.
#[derive(Debug, Clone, Copy, PartialEq, Eq, Structural)]
pub enum MediaType {
    Movie,
    Show,
    Season,
    Episode,
    Collection,
}

/// High-dynamic-range signal of an item's video.
#[derive(Debug, Clone, Copy, PartialEq, Eq, Structural)]
pub enum HdrFormat {
    Hdr,
    DolbyVision,
}

impl HdrFormat {
    /// Map Plex's `videoDynamicRange` value: `"Dolby Vision"` is Dolby Vision,
    /// `"HDR"` is HDR, anything else (including `"SDR"`) carries no HDR signal.
    pub fn from_plex(s: &str) -> (r: Option<HdrFormat>)
        ensures
            r == hdr_from_plex(s@),
    {
        if str_eq(s, "Dolby Vision") {
            Some(HdrFormat::DolbyVision)
        } else if str_eq(s, "HDR") {
            Some(HdrFormat::Hdr)
        } else {
            None
        }
    }
}

/// The HDR format named by a Plex dynamic-range value.
pub open spec fn hdr_from_plex(s: Seq<char>) -> Option<HdrFormat> {
    if s == "Dolby Vision"@ {
        Some(HdrFormat::DolbyVision)
    } else if s == "HDR"@ {
        Some(HdrFormat::Hdr)
    } else {
        None
    }
}

/// A movie, show, season, episode or collection from one source.
#[derive(Debug, Clone, PartialEq)]
pub struct MediaItem {
    /// Composite id `{source_type}:{source_id}:{external_id}`.
    pub id: String,
    pub source_type: SourceType,
    pub source_id: String,
    pub external_id: String,
    pub media_type: MediaType,
    pub title: String,
    pub year: Option<i32>,
    pub overview: Option<String>,
    pub content_rating: Option<String>,
    /// Community rating in hundredths of a point.
    pub rating: Option<i64>,
    pub runtime_minutes: Option<i32>,
    pub poster_path: Option<String>,
    pub series_poster_path: Option<String>,
    pub backdrop_path: Option<String>,
    pub genres: Vec<String>,
    pub parent_id: Option<String>,
    pub season_number: Option<i32>,
    pub episode_number: Option<i32>,
    pub air_date: Option<String>,
    pub file_path: Option<String>,
    pub video_resolution: Option<String>,
    pub hdr: Option<HdrFormat>,
    pub added_at: String,
    pub updated_at: String,
    pub playback_position_ms: Option<i64>,
    pub watched: bool,
    pub library_section_id: Option<String>,
}

/// Two items agree on every field.
pub open spec fn same_item(a: MediaItem, b: MediaItem) -> bool {
    &&& a.id@ == b.id@
    &&& a.source_type == b.source_type
    &&& a.source_id@ == b.source_id@
    &&& a.external_id@ == b.external_id@
    &&& a.media_type == b.media_type
    &&& a.title@ == b.title@
    &&& a.year == b.year
    &&& opt_view(a.overview) == opt_view(b.overview)
    &&& opt_view(a.content_rating) == opt_view(b.content_rating)
    &&& a.rating == b.rating
    &&& a.runtime_minutes == b.runtime_minutes
    &&& opt_view(a.poster_path) == opt_view(b.poster_path)
    &&& opt_view(a.series_poster_path) == opt_view(b.series_poster_path)
    &&& opt_view(a.backdrop_path) == opt_view(b.backdrop_path)
    &&& strs_view(a.genres@) == strs_view(b.genres@)
    &&& opt_view(a.parent_id) == opt_view(b.parent_id)
    &&& a.season_number == b.season_number
    &&& a.episode_number == b.episode_number
    &&& opt_view(a.air_date) == opt_view(b.air_date)
    &&& opt_view(a.file_path) == opt_view(b.file_path)
    &&& opt_view(a.video_resolution) == opt_view(b.video_resolution)
    &&& a.hdr == b.hdr
    &&& a.added_at@ == b.added_at@
    &&& a.updated_at@ == b.updated_at@
    &&& a.playback_position_ms == b.playback_position_ms
    &&& a.watched == b.watched
    &&& opt_view(a.library_section_id) == opt_view(b.library_section_id)
}

/// Two sequences of items agree item by item.
pub open spec fn same_items(a: Seq<MediaItem>, b: Seq<MediaItem>) -> bool {
    &&& a.len() == b.len()
    &&& forall|k: int| 0 <= k < a.len() ==> same_item(#[trigger] a[k], b[k])
}

/// Equality of two string vectors.
pub fn strings_eq(a: &Vec<String>, b: &Vec<String>) -> (r: bool)
    ensures
        r == (strs_view(a@) == strs_view(b@)),
{
    if a.len() != b.len() {
        assert(strs_view(a@).len() != strs_view(b@).len());
        return false;
    }
    let mut i: usize = 0;
    while i < a.len()
        invariant
            a@.len() == b@.len(),
            i <= a@.len(),
            forall|k: int| 0 <= k < i ==> #[trigger] a@[k]@ == b@[k]@,
        decreases a.len() - i,
    {
        if !a[i].eq(&b[i]) {
            assert(strs_view(a@)[i as int] != strs_view(b@)[i as int]);
            return false;
        }
        i = i + 1;
    }
    assert(strs_view(a@) =~= strs_view(b@));
    true
}

impl MediaItem {
    /// Composite item id `{source_type}:{source_id}:{external_id}`.
    pub fn make_id(source_type: SourceType, source_id: &str, external_id: &str) -> (r: String)
        ensures
            r@ == composite_key(source_type_name(source_type), source_id@, external_id@),
    {
        let mut s = String::new();
        s.append(source_type.as_str());
        s.append(":");
        s.append(source_id);
        s.append(":");
        s.append(external_id);
        proof {
            reveal_strlit(":");
        }
        assert(s@ =~= composite_key(source_type_name(source_type), source_id@, external_id@));
        s
    }

    /// Display label for a raw resolution value: `4K`, `1080p`, `720p`, `SD`,
    /// or the generic `HD` for anything else.
    pub fn format_resolution(raw: &str) -> (r: &'static str)
        ensures
            r@ == resolution_display(raw@),
    {
        if str_eq(raw, "4k") || str_eq(raw, "4K") {
            "4K"
        } else if str_eq(raw, "1080") {
            "1080p"
        } else if str_eq(raw, "720") {
            "720p"
        } else if str_eq(raw, "480") || str_eq(raw, "576") || str_eq(raw, "sd") || str_eq(
            raw,
            "SD",
        ) {
            "SD"
        } else {
            "HD"
        }
    }

    /// A field-for-field copy of the item.
    pub fn duplicate(&self) -> (r: MediaItem)
        ensures
            same_item(r, *self),
    {
        MediaItem {
            id: self.id.clone(),
            source_type: self.source_type,
            source_id: self.source_id.clone(),
            external_id: self.external_id.clone(),
            media_type: self.media_type,
            title: self.title.clone(),
            year: self.year,
            overview: clone_opt(&self.overview),
            content_rating: clone_opt(&self.content_rating),
            rating: self.rating,
            runtime_minutes: self.runtime_minutes,
            poster_path: clone_opt(&self.poster_path),
            series_poster_path: clone_opt(&self.series_poster_path),
            backdrop_path: clone_opt(&self.backdrop_path),
            genres: clone_strings(&self.genres),
            parent_id: clone_opt(&self.parent_id),
            season_number: self.season_number,
            episode_number: self.episode_number,
            air_date: clone_opt(&self.air_date),
            file_path: clone_opt(&self.file_path),
            video_resolution: clone_opt(&self.video_resolution),
            hdr: self.hdr,
            added_at: self.added_at.clone(),
            updated_at: self.updated_at.clone(),
            playback_position_ms: self.playback_position_ms,
            watched: self.watched,
            library_section_id: clone_opt(&self.library_section_id),
        }
    }

    /// Field-for-field equality.
    pub fn same_as(&self, other: &MediaItem) -> (r: bool)
        ensures
            r == same_item(*self, *other),
    {
        self.id.eq(&other.id) && self.source_type == other.source_type && self.source_id.eq(
            &other.source_id,
        ) && self.external_id.eq(&other.external_id) && self.media_type == other.media_type
            && self.title.eq(&other.title) && self.year == other.year && opt_string_eq(
            &self.overview,
            &other.overview,
        ) && opt_string_eq(&self.content_rating, &other.content_rating) && self.rating
            == other.rating && self.runtime_minutes == other.runtime_minutes && opt_string_eq(
            &self.poster_path,
            &other.poster_path,
        ) && opt_string_eq(&self.series_poster_path, &other.series_poster_path) && opt_string_eq(
            &self.backdrop_path,
            &other.backdrop_path,
        ) && strings_eq(&self.genres, &other.genres) && opt_string_eq(
            &self.parent_id,
            &other.parent_id,
        ) && self.season_number == other.season_number && self.episode_number
            == other.episode_number && opt_string_eq(&self.air_date, &other.air_date)
            && opt_string_eq(&self.file_path, &other.file_path) && opt_string_eq(
            &self.video_resolution,
            &other.video_resolution,
        ) && self.hdr == other.hdr && self.added_at.eq(&other.added_at) && self.updated_at.eq(
            &other.updated_at,
        ) && self.playback_position_ms == other.playback_position_ms && self.watched
            == other.watched && opt_string_eq(&self.library_section_id, &other.library_section_id)
    }
}

/// `{a}:{b}:{c}`.
pub open spec fn composite_key(a: Seq<char>, b: Seq<char>, c: Seq<char>) -> Seq<char> {
    a + ":"@ + b + ":"@ + c
}

/// The display label for a raw resolution value.
pub open spec fn resolution_display(raw: Seq<char>) -> Seq<char> {
    if raw == "4k"@ || raw == "4K"@ {
        "4K"@
    } else if raw == "1080"@ {
        "1080p"@
    } else if raw == "720"@ {
        "720p"@
    } else if raw == "480"@ || raw == "576"@ || raw == "sd"@ || raw == "SD"@ {
        "SD"@
    } else {
        "HD"@
    }
}

/// Kind of library section.
#[derive(Debug, Clone, Copy, PartialEq, Eq, Structural)]
pub enum LibraryType {
    Movie,
    Show,
}

impl LibraryType {
    /// Map a Plex section type: `movie` and `show` are browsed, others are not.
    pub fn from_plex_type(s: &str) -> (r: Option<LibraryType>)
        ensures
            r == library_type_from_plex(s@),
    {
        if str_eq(s, "movie") {
            Some(LibraryType::Movie)
        } else if str_eq(s, "show") {
            Some(LibraryType::Show)
        } else {
            None
        }
    }
}

/// The library type named by a Plex section type.
pub open spec fn library_type_from_plex(s: Seq<char>) -> Option<LibraryType> {
    if s == "movie"@ {
        Some(LibraryType::Movie)
    } else if s == "show"@ {
        Some(LibraryType::Show)
    } else {
        None
    }
}

/// A browsable library section of one source.
#[derive(Debug, Clone, PartialEq)]
pub struct LibrarySection {
    pub key: String,
    pub title: String,
    pub library_type: LibraryType,
    pub count: Option<i32>,
}

impl LibrarySection {
    /// Visibility key `{source_type}:{source_id}:{section_key}` of a section.
    pub fn visibility_key_for(source_type: &str, source_id: &str, section_key: &str) -> (r:
        String)
        ensures
            r@ == composite_key(source_type@, source_id@, section_key@),
    {
        let mut s = String::new();
        s.append(source_type);
        s.append(":");
        s.append(source_id);
        s.append(":");
        s.append(section_key);
        assert(s@ =~= composite_key(source_type@, source_id@, section_key@));
        s
    }
}

/// A curated home row of items.
#[derive(Debug, Clone, PartialEq)]
pub struct MediaHub {
    pub title: String,
    pub hub_identifier: Option<String>,
    pub items: Vec<MediaItem>,
}

/// Intro and credits positions of an item, in milliseconds. Zero means
/// "not detected".
#[derive(Debug, Clone, Copy, PartialEq, Eq, Structural)]
pub struct SkipMarkers {
    pub intro_start_ms: i64,
    pub intro_end_ms: i64,
    pub credits_start_ms: i64,
}

/// A cast member.
#[derive(Debug, Clone, PartialEq)]
pub struct CastMember {
    pub name: String,
    pub character: Option<String>,
    pub photo_path: Option<String>,
}

/// A collection an item belongs to.
#[derive(Debug, Clone, PartialEq)]
pub struct CollectionRef {
    pub name: String,
}

/// Technical details of an item's first media version.
#[derive(Debug, Clone, PartialEq)]
pub struct TechnicalInfo {
    pub video_resolution: Option<String>,
    pub video_codec: Option<String>,
    pub audio_codec: Option<String>,
    pub audio_channels: Option<i32>,
    pub container: Option<String>,
    pub bitrate_kbps: Option<i64>,
    pub file_size_bytes: Option<i64>,
}

/// An item with its detail-page enrichment.
#[derive(Debug, Clone, PartialEq)]
pub struct MediaDetail {
    pub item: MediaItem,
    pub cast: Vec<CastMember>,
    pub directors: Vec<String>,
    pub writers: Vec<String>,
    pub technical: Option<TechnicalInfo>,
    pub collections: Vec<CollectionRef>,
}

/// The elements of `s` satisfying `p`, in order.
pub open spec fn kept_where<A>(s: Seq<A>, p: spec_fn(A) -> bool) -> Seq<A>
    decreases s.len(),
{
    if s.len() == 0 {
        s
    } else if p(s.last()) {
        kept_where(s.drop_last(), p).push(s.last())
    } else {
        kept_where(s.drop_last(), p)
    }
}

/// Extending a prefix by one element extends what is kept by that element
/// when it satisfies `p`.
pub proof fn lemma_kept_where_step<A>(s: Seq<A>, p: spec_fn(A) -> bool, i: int)
    requires
        0 <= i < s.len(),
    ensures
        kept_where(s.take(i + 1), p) == (if p(s[i]) {
            kept_where(s.take(i), p).push(s[i])
        } else {
            kept_where(s.take(i), p)
        }),
{
    assert(s.take(i + 1).drop_last() =~= s.take(i));
    assert(s.take(i + 1).last() == s[i]);
}

} // verus!
