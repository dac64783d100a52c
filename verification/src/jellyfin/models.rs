//! Jellyfin payloads as the library reads them.
//!
//! The JSON wire format is parsed by the application shell; these types hold
//! what the converters read. Community ratings are held in hundredths of a
//! point and image tags as a list of `(image type, tag)` pairs with unique
//! image types.

use vstd::prelude::*;

verus! {

/// Rust integer division, which truncates toward zero.
pub open spec fn trunc_div(a: int, d: int) -> int {
    if a >= 0 {
        a / d
    } else {
        -((-a) / d)
    }
}

/// Jellyfin's time unit: one tick is 100 nanoseconds, so 10,000 ticks make a
/// millisecond.
#[derive(Debug, Clone, Copy, PartialEq, Eq, Structural)]
pub struct Ticks(pub i64);

impl Ticks {
    /// Whole milliseconds (truncated toward zero).
    pub fn to_ms(&self) -> (r: i64)
        ensures
            r == trunc_div(self.0 as int, 10_000),
    {
        if self.0 >= 0 {
            self.0 / 10_000
        } else {
            let neg: i128 = -(self.0 as i128);
            let q: i128 = neg / 10_000;
            let r: i128 = -q;
            r as i64
        }
    }

    /// Ticks for a millisecond count.
    pub fn from_ms(ms: i64) -> (r: Ticks)
        requires
            i64::MIN <= ms * 10_000 <= i64::MAX,
        ensures
            r.0 == ms * 10_000,
    {
        Ticks(ms * 10_000)
    }
}

/// Converting milliseconds to ticks and back gives the milliseconds.
pub proof fn lemma_ticks_round_trip(ms: i64)
    requires
        i64::MIN <= ms * 10_000 <= i64::MAX,
    ensures
        trunc_div(ms * 10_000, 10_000) == ms,
{
    if ms >= 0 {
        assert((ms * 10_000) / 10_000 == ms) by (nonlinear_arith);
    } else {
        assert((-(ms * 10_000)) / 10_000 == -ms) by (nonlinear_arith)
            requires
                ms < 0,
        ;
    }
}

/// A query envelope: `{ "Items": [...], "TotalRecordCount": N }`.
#[derive(Debug, Clone, PartialEq)]
pub struct QueryResult<T> {
    pub items: Vec<T>,
    pub total_record_count: i64,
}

/// The universal Jellyfin item (movies, series, seasons, episodes, box sets
/// and library views), distinguished by `type_` and `collection_type`.
#[derive(Debug, Clone, PartialEq)]
pub struct BaseItemDto {
    pub id: String,
    pub name: Option<String>,
    pub type_: Option<String>,
    pub overview: Option<String>,
    pub production_year: Option<i32>,
    pub premiere_date: Option<String>,
    pub run_time_ticks: Option<i64>,
    pub official_rating: Option<String>,
    /// Community rating in hundredths of a point.
    pub community_rating: Option<i64>,
    pub genres: Vec<String>,
    pub people: Vec<PersonDto>,
    pub index_number: Option<i32>,
    pub parent_index_number: Option<i32>,
    pub series_id: Option<String>,
    pub season_id: Option<String>,
    pub series_name: Option<String>,
    pub parent_id: Option<String>,
    /// `(image type, tag)` pairs such as `("Primary", "tag")`.
    pub image_tags: Option<Vec<(String, String)>>,
    pub backdrop_image_tags: Vec<String>,
    pub parent_backdrop_item_id: Option<String>,
    pub parent_backdrop_image_tags: Vec<String>,
    pub series_primary_image_tag: Option<String>,
    pub user_data: Option<UserItemData>,
    pub media_sources: Vec<MediaSourceInfo>,
    pub collection_type: Option<String>,
    pub width: Option<i32>,
    pub height: Option<i32>,
}

impl Default for BaseItemDto {
    fn default() -> (r: Self)
        ensures
            r.id@ == Seq::<char>::empty(),
            r.name is None && r.type_ is None && r.overview is None,
            r.production_year is None && r.premiere_date is None && r.run_time_ticks is None,
            r.official_rating is None && r.community_rating is None,
            r.genres@.len() == 0 && r.people@.len() == 0,
            r.index_number is None && r.parent_index_number is None,
            r.series_id is None && r.season_id is None && r.series_name is None,
            r.parent_id is None && r.image_tags is None,
            r.backdrop_image_tags@.len() == 0 && r.parent_backdrop_item_id is None,
            r.parent_backdrop_image_tags@.len() == 0 && r.series_primary_image_tag is None,
            r.user_data is None && r.media_sources@.len() == 0 && r.collection_type is None,
            r.width is None && r.height is None,
    {
        BaseItemDto {
            id: String::new(),
            name: None,
            type_: None,
            overview: None,
            production_year: None,
            premiere_date: None,
            run_time_ticks: None,
            official_rating: None,
            community_rating: None,
            genres: Vec::new(),
            people: Vec::new(),
            index_number: None,
            parent_index_number: None,
            series_id: None,
            season_id: None,
            series_name: None,
            parent_id: None,
            image_tags: None,
            backdrop_image_tags: Vec::new(),
            parent_backdrop_item_id: None,
            parent_backdrop_image_tags: Vec::new(),
            series_primary_image_tag: None,
            user_data: None,
            media_sources: Vec::new(),
            collection_type: None,
            width: None,
            height: None,
        }
    }
}

/// A cast or crew member of an item.
#[derive(Debug, Clone, PartialEq)]
pub struct PersonDto {
    pub name: String,
    pub role: Option<String>,
    pub type_: Option<String>,
}

/// Per-user watch state of an item.
#[derive(Debug, Clone, PartialEq)]
pub struct UserItemData {
    pub played: bool,
    pub playback_position_ticks: Option<i64>,
    pub play_count: Option<i32>,
    pub is_favorite: bool,
}

/// A playable media source of an item.
#[derive(Debug, Clone, PartialEq)]
pub struct MediaSourceInfo {
    pub id: Option<String>,
    pub path: Option<String>,
    pub container: Option<String>,
    pub name: Option<String>,
}

/// The answer to an authentication request.
#[derive(Debug, Clone, PartialEq)]
pub struct AuthenticationResult {
    pub access_token: String,
    pub user: UserDto,
    pub server_id: Option<String>,
}

/// A Jellyfin user.
#[derive(Debug, Clone, PartialEq)]
pub struct UserDto {
    pub id: String,
    pub name: Option<String>,
}

/// State of a Quick Connect request.
#[derive(Debug, Clone, PartialEq)]
pub struct QuickConnectResult {
    pub code: Option<String>,
    pub secret: Option<String>,
    pub authenticated: bool,
}

/// A media segment (intro, outro, preview, recap, commercial).
#[derive(Debug, Clone, PartialEq)]
pub struct MediaSegmentDto {
    pub id: Option<String>,
    pub type_: Option<String>,
    pub start_ticks: Option<i64>,
    pub end_ticks: Option<i64>,
}

/// One stream of a media source (video, audio or subtitle).
#[derive(Debug, Clone, PartialEq)]
pub struct MediaStream {
    pub index: i32,
    pub type_: Option<String>,
    pub codec: Option<String>,
    pub language: Option<String>,
    pub display_title: Option<String>,
    pub height: Option<i32>,
}

/// A media source as a `PlaybackInfo` answer describes it: what the server
/// can do with it for this client, and its streams.
#[derive(Debug, Clone, PartialEq)]
pub struct PlaybackMediaSource {
    pub id: Option<String>,
    pub supports_direct_play: bool,
    pub supports_direct_stream: bool,
    pub supports_transcoding: bool,
    pub transcoding_url: Option<String>,
    /// Overall bitrate in bits per second.
    pub bitrate: Option<i64>,
    pub default_audio_stream_index: Option<i32>,
    pub default_subtitle_stream_index: Option<i32>,
    pub media_streams: Vec<MediaStream>,
}

/// The answer to a `PlaybackInfo` request.
#[derive(Debug, Clone, PartialEq)]
pub struct PlaybackInfoResponse {
    pub play_session_id: Option<String>,
    pub media_sources: Vec<PlaybackMediaSource>,
}

} // verus!
