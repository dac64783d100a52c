//! Conversion of Jellyfin payloads into the library's media model.

use vstd::prelude::*;
use crate::jellyfin::models::{
    trunc_div, BaseItemDto, MediaSegmentDto, PersonDto, Ticks,
};
use crate::media::{
    composite_key, CastMember, LibrarySection, LibraryType, MediaDetail, MediaItem, MediaType,
    SkipMarkers, SourceType, TechnicalInfo,
};
use crate::text::{clone_opt, clone_strings, opt_view, owned, str_eq, strs_view};

verus! {

/// The value of an optional string, or the empty string.
pub open spec fn or_empty(o: Option<String>) -> Seq<char> {
    match o {
        Some(s) => s@,
        None => Seq::empty(),
    }
}

/// Whether an optional string holds exactly `lit`.
pub fn opt_is(o: &Option<String>, lit: &str) -> (r: bool)
    ensures
        r == (opt_view(*o) == Some(lit@)),
{
    match o {
        Some(s) => str_eq(s.as_str(), lit),
        None => false,
    }
}

/// An owned copy of an optional string, or the empty string.
fn unwrap_or_empty(o: &Option<String>) -> (r: String)
    ensures
        r@ == or_empty(*o),
{
    match o {
        Some(s) => s.clone(),
        None => String::new(),
    }
}

/// `a + sep + b`.
fn join3(a: &str, sep: &str, b: &str) -> (r: String)
    ensures
        r@ == a@ + sep@ + b@,
{
    let mut s = String::new();
    s.append(a);
    s.append(sep);
    s.append(b);
    assert(s@ =~= a@ + sep@ + b@);
    s
}

/// Rust integer division of an `i64` (truncating toward zero).
fn div_trunc(a: i64, d: i64) -> (r: i64)
    requires
        d > 0,
    ensures
        r == trunc_div(a as int, d as int),
{
    if a >= 0 {
        a / d
    } else {
        let neg: i128 = -(a as i128);
        let q: i128 = neg / (d as i128);
        let r: i128 = -q;
        r as i64
    }
}

/// The kind of item a Jellyfin `Type` names; other types are not modelled.
pub open spec fn jellyfin_media_type(t: Option<Seq<char>>) -> Option<MediaType> {
    match t {
        Some(s) => if s == "Movie"@ {
            Some(MediaType::Movie)
        } else if s == "Series"@ {
            Some(MediaType::Show)
        } else if s == "Season"@ {
            Some(MediaType::Season)
        } else if s == "Episode"@ {
            Some(MediaType::Episode)
        } else if s == "BoxSet"@ {
            Some(MediaType::Collection)
        } else {
            None
        },
        None => None,
    }
}

/// The coarse resolution label for an item height: `4k` from 2000 lines,
/// `1080`, `720`, `sd` for any other positive height, none otherwise.
pub open spec fn resolution_label_spec(height: Option<i32>) -> Option<Seq<char>> {
    match height {
        Some(h) => if h >= 2000 {
            Some("4k"@)
        } else if h >= 1080 {
            Some("1080"@)
        } else if h >= 720 {
            Some("720"@)
        } else if h > 0 {
            Some("sd"@)
        } else {
            None
        },
        None => None,
    }
}

/// The tag stored under `key` (the first pair with that image type).
pub open spec fn tag_lookup(tags: Seq<(String, String)>, key: Seq<char>) -> Option<Seq<char>>
    decreases tags.len(),
{
    if tags.len() == 0 {
        None
    } else if tags[0].0@ == key {
        Some(tags[0].1@)
    } else {
        tag_lookup(tags.drop_first(), key)
    }
}

/// `{item}/Primary/{tag}` for the item's own primary image.
pub open spec fn primary_poster_spec(dto: BaseItemDto) -> Option<Seq<char>> {
    match dto.image_tags {
        Some(tags) => match tag_lookup(tags@, "Primary"@) {
            Some(tag) => Some(dto.id@ + "/Primary/"@ + tag),
            None => None,
        },
        None => None,
    }
}

/// `{item}/Backdrop/{tag}` for the item's first backdrop, else the parent's.
pub open spec fn backdrop_spec(dto: BaseItemDto) -> Option<Seq<char>> {
    if dto.backdrop_image_tags@.len() > 0 {
        Some(dto.id@ + "/Backdrop/"@ + dto.backdrop_image_tags@[0]@)
    } else {
        match dto.parent_backdrop_item_id {
            Some(p) => if dto.parent_backdrop_image_tags@.len() > 0 {
                Some(p@ + "/Backdrop/"@ + dto.parent_backdrop_image_tags@[0]@)
            } else {
                None
            },
            None => None,
        }
    }
}

/// The series poster of an episode, `{series}/Primary/{tag}`.
pub open spec fn series_poster_spec(dto: BaseItemDto, t: MediaType) -> Option<Seq<char>> {
    if t == MediaType::Episode {
        match (dto.series_id, dto.series_primary_image_tag) {
            (Some(sid), Some(tag)) => Some(sid@ + "/Primary/"@ + tag@),
            _ => None,
        }
    } else {
        None
    }
}

/// The parent of a season (its series) or an episode (its season), as a
/// composite item id.
pub open spec fn parent_id_spec(dto: BaseItemDto, t: MediaType, source_id: Seq<char>) -> Option<Seq<char>> {
    if t == MediaType::Episode {
        match dto.season_id {
            Some(sid) => Some(composite_key("jellyfin"@, source_id, sid@)),
            None => None,
        }
    } else if t == MediaType::Season {
        match dto.series_id {
            Some(sid) => Some(composite_key("jellyfin"@, source_id, sid@)),
            None => None,
        }
    } else {
        None
    }
}

/// What playback needs: `{item}|{media source}` from the first media source
/// when it has an id; otherwise the bare item id for movies and episodes.
pub open spec fn file_path_spec(dto: BaseItemDto, t: MediaType) -> Option<Seq<char>> {
    if dto.media_sources@.len() > 0 && dto.media_sources@[0].id is Some {
        Some(dto.id@ + "|"@ + dto.media_sources@[0].id.unwrap()@)
    } else if t == MediaType::Movie || t == MediaType::Episode {
        Some(dto.id@)
    } else {
        None
    }
}

/// Whole minutes of a tick count, as an `i32`.
pub open spec fn runtime_spec(ticks: Option<i64>) -> Option<i32> {
    match ticks {
        Some(t) => Some(trunc_div(trunc_div(t as int, 10_000), 60_000) as i32),
        None => None,
    }
}

/// The resume position of an item in milliseconds.
pub open spec fn position_spec(dto: BaseItemDto) -> Option<i64> {
    match dto.user_data {
        Some(u) => match u.playback_position_ticks {
            Some(t) => Some(trunc_div(t as int, 10_000) as i64),
            None => None,
        },
        None => None,
    }
}

/// `it` is the media item for `dto` of kind `t` from source `source_id`.
pub open spec fn jellyfin_item(dto: BaseItemDto, source_id: Seq<char>, t: MediaType, it: MediaItem) -> bool {
    &&& jellyfin_item_fields(dto, source_id, t, it)
    &&& opt_view(it.library_section_id) == opt_view(dto.parent_id)
}

/// Every field of `it` but its library section is as `jellyfin_item` says.
pub open spec fn jellyfin_item_fields(dto: BaseItemDto, source_id: Seq<char>, t: MediaType, it: MediaItem) -> bool {
    &&& it.id@ == composite_key("jellyfin"@, source_id, dto.id@)
    &&& it.source_type == SourceType::Jellyfin
    &&& it.source_id@ == source_id
    &&& it.external_id@ == dto.id@
    &&& it.media_type == t
    &&& it.title@ == or_empty(dto.name)
    &&& it.year == dto.production_year
    &&& opt_view(it.overview) == opt_view(dto.overview)
    &&& opt_view(it.content_rating) == opt_view(dto.official_rating)
    &&& it.rating == dto.community_rating
    &&& it.runtime_minutes == runtime_spec(dto.run_time_ticks)
    &&& opt_view(it.poster_path) == primary_poster_spec(dto)
    &&& opt_view(it.series_poster_path) == series_poster_spec(dto, t)
    &&& opt_view(it.backdrop_path) == backdrop_spec(dto)
    &&& strs_view(it.genres@) == strs_view(dto.genres@)
    &&& opt_view(it.parent_id) == parent_id_spec(dto, t, source_id)
    &&& it.season_number == (if t == MediaType::Episode {
        dto.parent_index_number
    } else if t == MediaType::Season {
        dto.index_number
    } else {
        None
    })
    &&& it.episode_number == (if t == MediaType::Episode {
        dto.index_number
    } else {
        None
    })
    &&& opt_view(it.air_date) == opt_view(dto.premiere_date)
    &&& opt_view(it.file_path) == file_path_spec(dto, t)
    &&& opt_view(it.video_resolution) == resolution_label_spec(dto.height)
    &&& it.hdr is None
    &&& it.added_at@ == Seq::<char>::empty()
    &&& it.updated_at@ == Seq::<char>::empty()
    &&& it.playback_position_ms == position_spec(dto)
    &&& it.watched == (match dto.user_data {
        Some(u) => u.played,
        None => false,
    })
}

/// The coarse resolution label for an item height.
pub fn resolution_label(height: Option<i32>) -> (r: Option<String>)
    ensures
        opt_view(r) == resolution_label_spec(height),
{
    match height {
        Some(h) => {
            if h >= 2000 {
                Some(owned("4k"))
            } else if h >= 1080 {
                Some(owned("1080"))
            } else if h >= 720 {
                Some(owned("720"))
            } else if h > 0 {
                Some(owned("sd"))
            } else {
                None
            }
        },
        None => None,
    }
}

/// The item's primary poster descriptor `{item}/Primary/{tag}`, if it has one.
pub fn primary_poster(dto: &BaseItemDto) -> (r: Option<String>)
    ensures
        opt_view(r) == primary_poster_spec(*dto),
{
    match &dto.image_tags {
        None => None,
        Some(tags) => {
            let mut i: usize = 0;
            assert(tags@.skip(0) =~= tags@);
            while i < tags.len()
                invariant
                    i <= tags@.len(),
                    dto.image_tags == Some(*tags),
                    tag_lookup(tags@, "Primary"@) == tag_lookup(tags@.skip(i as int), "Primary"@),
                decreases tags.len() - i,
            {
                assert(tags@.skip(i as int).drop_first() =~= tags@.skip(i + 1));
                if str_eq(tags[i].0.as_str(), "Primary") {
                    assert(tags@.skip(i as int)[0] == tags@[i as int]);
                    return Some(join3(dto.id.as_str(), "/Primary/", tags[i].1.as_str()));
                }
                i = i + 1;
            }
            None
        },
    }
}

/// The backdrop descriptor: the item's own first backdrop, falling back (for
/// episodes) to the parent's first backdrop.
pub fn backdrop_descriptor(dto: &BaseItemDto) -> (r: Option<String>)
    ensures
        opt_view(r) == backdrop_spec(*dto),
{
    if dto.backdrop_image_tags.len() > 0 {
        return Some(join3(dto.id.as_str(), "/Backdrop/", dto.backdrop_image_tags[0].as_str()));
    }
    match &dto.parent_backdrop_item_id {
        Some(p) => {
            if dto.parent_backdrop_image_tags.len() > 0 {
                Some(join3(p.as_str(), "/Backdrop/", dto.parent_backdrop_image_tags[0].as_str()))
            } else {
                None
            }
        },
        None => None,
    }
}

/// The kind of item a Jellyfin `Type` names.
fn media_type_of(t: &Option<String>) -> (r: Option<MediaType>)
    ensures
        r == jellyfin_media_type(opt_view(*t)),
{
    if opt_is(t, "Movie") {
        Some(MediaType::Movie)
    } else if opt_is(t, "Series") {
        Some(MediaType::Show)
    } else if opt_is(t, "Season") {
        Some(MediaType::Season)
    } else if opt_is(t, "Episode") {
        Some(MediaType::Episode)
    } else if opt_is(t, "BoxSet") {
        Some(MediaType::Collection)
    } else {
        None
    }
}

/// Convert a Jellyfin item to a media item. `None` for item types not
/// modelled (music and the like).
pub fn base_item_to_media_item(dto: &BaseItemDto, source_id: &str) -> (r: Option<MediaItem>)
    ensures
        match r {
            Some(it) => jellyfin_media_type(opt_view(dto.type_)) == Some(it.media_type)
                && jellyfin_item(*dto, source_id@, it.media_type, it),
            None => jellyfin_media_type(opt_view(dto.type_)) is None,
        },
{
    let media_type = match media_type_of(&dto.type_) {
        Some(t) => t,
        None => {
            return None;
        },
    };
    let id = MediaItem::make_id(SourceType::Jellyfin, source_id, dto.id.as_str());
    let runtime_minutes = match dto.run_time_ticks {
        Some(t) => {
            let ms = Ticks(t).to_ms();
            Some(div_trunc(ms, 60_000) as i32)
        },
        None => None,
    };
    let poster_path = primary_poster(dto);
    let backdrop_path = backdrop_descriptor(dto);
    let series_poster_path = match media_type {
        MediaType::Episode => match (&dto.series_id, &dto.series_primary_image_tag) {
            (Some(sid), Some(tag)) => Some(join3(sid.as_str(), "/Primary/", tag.as_str())),
            _ => None,
        },
        _ => None,
    };
    let season_number = match media_type {
        MediaType::Episode => dto.parent_index_number,
        MediaType::Season => dto.index_number,
        _ => None,
    };
    let episode_number = match media_type {
        MediaType::Episode => dto.index_number,
        _ => None,
    };
    let parent_id = match media_type {
        MediaType::Episode => match &dto.season_id {
            Some(sid) => Some(MediaItem::make_id(SourceType::Jellyfin, source_id, sid.as_str())),
            None => None,
        },
        MediaType::Season => match &dto.series_id {
            Some(sid) => Some(MediaItem::make_id(SourceType::Jellyfin, source_id, sid.as_str())),
            None => None,
        },
        _ => None,
    };
    let first_source_id: Option<String> = if dto.media_sources.len() > 0 {
        clone_opt(&dto.media_sources[0].id)
    } else {
        None
    };
    let file_path = match first_source_id {
        Some(msid) => Some(join3(dto.id.as_str(), "|", msid.as_str())),
        None => match media_type {
            MediaType::Movie | MediaType::Episode => Some(dto.id.clone()),
            _ => None,
        },
    };
    let video_resolution = resolution_label(dto.height);
    let playback_position_ms = match &dto.user_data {
        Some(u) => match u.playback_position_ticks {
            Some(t) => Some(Ticks(t).to_ms()),
            None => None,
        },
        None => None,
    };
    let watched = match &dto.user_data {
        Some(u) => u.played,
        None => false,
    };
    let it = MediaItem {
        id,
        source_type: SourceType::Jellyfin,
        source_id: owned(source_id),
        external_id: dto.id.clone(),
        media_type,
        title: unwrap_or_empty(&dto.name),
        year: dto.production_year,
        overview: clone_opt(&dto.overview),
        content_rating: clone_opt(&dto.official_rating),
        rating: dto.community_rating,
        runtime_minutes,
        poster_path,
        series_poster_path,
        backdrop_path,
        genres: clone_strings(&dto.genres),
        parent_id,
        season_number,
        episode_number,
        air_date: clone_opt(&dto.premiere_date),
        file_path,
        video_resolution,
        hdr: None,
        added_at: String::new(),
        updated_at: String::new(),
        playback_position_ms,
        watched,
        library_section_id: clone_opt(&dto.parent_id),
    };
    proof {
        reveal_strlit("jellyfin");
        reveal_strlit("plex");
        reveal_strlit("local");
    }
    Some(it)
}

/// Whether a person is listed as cast: actors, and anyone without a type.
pub open spec fn is_cast(p: PersonDto) -> bool {
    match p.type_ {
        Some(t) => t@ == "Actor"@,
        None => true,
    }
}

/// Name and role of the cast members among `people`, in order.
pub open spec fn cast_of(people: Seq<PersonDto>) -> Seq<(Seq<char>, Option<Seq<char>>)>
    decreases people.len(),
{
    if people.len() == 0 {
        Seq::empty()
    } else if is_cast(people.last()) {
        cast_of(people.drop_last()).push((people.last().name@, opt_view(people.last().role)))
    } else {
        cast_of(people.drop_last())
    }
}

/// Names of the people of type `ty`, in order.
pub open spec fn names_of_type(people: Seq<PersonDto>, ty: Seq<char>) -> Seq<Seq<char>>
    decreases people.len(),
{
    if people.len() == 0 {
        Seq::empty()
    } else if opt_view(people.last().type_) == Some(ty) {
        names_of_type(people.drop_last(), ty).push(people.last().name@)
    } else {
        names_of_type(people.drop_last(), ty)
    }
}

/// Name and character of cast members.
pub open spec fn cast_view(c: Seq<CastMember>) -> Seq<(Seq<char>, Option<Seq<char>>)> {
    c.map_values(|m: CastMember| (m.name@, opt_view(m.character)))
}

/// `d` is the detail of `dto` around the media item `it`: actors (and untyped
/// people) as cast without photos, directors and writers by name, technical
/// facts from the first media source, and no collections.
pub open spec fn jellyfin_detail(dto: BaseItemDto, d: MediaDetail) -> bool {
    &&& cast_view(d.cast@) == cast_of(dto.people@)
    &&& forall|k: int| 0 <= k < d.cast@.len() ==> (#[trigger] d.cast@[k]).photo_path is None
    &&& strs_view(d.directors@) == names_of_type(dto.people@, "Director"@)
    &&& strs_view(d.writers@) == names_of_type(dto.people@, "Writer"@)
    &&& (if dto.media_sources@.len() > 0 {
        d.technical matches Some(t) && {
            &&& opt_view(t.video_resolution) == resolution_label_spec(dto.height)
            &&& t.video_codec is None
            &&& t.audio_codec is None
            &&& t.audio_channels is None
            &&& opt_view(t.container) == opt_view(dto.media_sources@[0].container)
            &&& t.bitrate_kbps is None
            &&& t.file_size_bytes is None
        }
    } else {
        d.technical is None
    })
    &&& d.collections@.len() == 0
}

/// Names of the people of type `ty`.
fn names_with_type(people: &Vec<PersonDto>, ty: &str) -> (r: Vec<String>)
    ensures
        strs_view(r@) == names_of_type(people@, ty@),
{
    let mut out: Vec<String> = Vec::new();
    let mut i: usize = 0;
    while i < people.len()
        invariant
            i <= people@.len(),
            strs_view(out@) == names_of_type(people@.subrange(0, i as int), ty@),
        decreases people.len() - i,
    {
        let ghost pre = people@.subrange(0, i as int);
        let ghost nxt = people@.subrange(0, i + 1);
        assert(nxt.drop_last() =~= pre);
        if opt_is(&people[i].type_, ty) {
            out.push(people[i].name.clone());
            assert(strs_view(out@) =~= names_of_type(pre, ty@).push(people@[i as int].name@));
        }
        i = i + 1;
    }
    assert(people@.subrange(0, i as int) =~= people@);
    out
}

/// Convert a Jellyfin item to a media item with its detail-page enrichment.
/// `None` for item types not modelled.
pub fn base_item_to_media_detail(dto: &BaseItemDto, source_id: &str) -> (r: Option<MediaDetail>)
    ensures
        match r {
            Some(d) => jellyfin_media_type(opt_view(dto.type_)) == Some(d.item.media_type)
                && jellyfin_item(*dto, source_id@, d.item.media_type, d.item) && jellyfin_detail(
                *dto,
                d,
            ),
            None => jellyfin_media_type(opt_view(dto.type_)) is None,
        },
{
    let item = match base_item_to_media_item(dto, source_id) {
        Some(it) => it,
        None => {
            return None;
        },
    };
    let mut cast: Vec<CastMember> = Vec::new();
    let mut i: usize = 0;
    while i < dto.people.len()
        invariant
            i <= dto.people@.len(),
            cast_view(cast@) == cast_of(dto.people@.subrange(0, i as int)),
            forall|k: int| 0 <= k < cast@.len() ==> (#[trigger] cast@[k]).photo_path is None,
        decreases dto.people.len() - i,
    {
        let ghost pre = dto.people@.subrange(0, i as int);
        let ghost nxt = dto.people@.subrange(0, i + 1);
        assert(nxt.drop_last() =~= pre);
        let p = &dto.people[i];
        let listed = match &p.type_ {
            Some(_) => opt_is(&p.type_, "Actor"),
            None => true,
        };
        if listed {
            cast.push(
                CastMember { name: p.name.clone(), character: clone_opt(&p.role), photo_path: None },
            );
            assert(cast_view(cast@) =~= cast_of(pre).push((p.name@, opt_view(p.role))));
        }
        i = i + 1;
    }
    assert(dto.people@.subrange(0, i as int) =~= dto.people@);
    let directors = names_with_type(&dto.people, "Director");
    let writers = names_with_type(&dto.people, "Writer");
    let technical = if dto.media_sources.len() > 0 {
        Some(
            TechnicalInfo {
                video_resolution: resolution_label(dto.height),
                video_codec: None,
                audio_codec: None,
                audio_channels: None,
                container: clone_opt(&dto.media_sources[0].container),
                bitrate_kbps: None,
                file_size_bytes: None,
            },
        )
    } else {
        None
    };
    Some(MediaDetail { item, cast, directors, writers, technical, collections: Vec::new() })
}

/// The library kind a Jellyfin view's collection type names: `movies` and
/// `tvshows` are browsed as flat libraries, others are not.
pub open spec fn view_library_type(c: Option<Seq<char>>) -> Option<LibraryType> {
    if c == Some("movies"@) {
        Some(LibraryType::Movie)
    } else if c == Some("tvshows"@) {
        Some(LibraryType::Show)
    } else {
        None
    }
}

/// Convert a Jellyfin library view to a library section.
pub fn user_view_to_section(dto: &BaseItemDto) -> (r: Option<LibrarySection>)
    ensures
        match r {
            Some(sec) => view_library_type(opt_view(dto.collection_type)) == Some(sec.library_type)
                && sec.key@ == dto.id@ && sec.title@ == or_empty(dto.name) && sec.count is None,
            None => view_library_type(opt_view(dto.collection_type)) is None,
        },
{
    let library_type = if opt_is(&dto.collection_type, "movies") {
        LibraryType::Movie
    } else if opt_is(&dto.collection_type, "tvshows") {
        LibraryType::Show
    } else {
        return None;
    };
    Some(
        LibrarySection {
            key: dto.id.clone(),
            title: unwrap_or_empty(&dto.name),
            library_type,
            count: None,
        },
    )
}

/// The first segment of type `ty`.
pub open spec fn first_segment(segs: Seq<MediaSegmentDto>, ty: Seq<char>) -> Option<MediaSegmentDto>
    decreases segs.len(),
{
    if segs.len() == 0 {
        None
    } else if opt_view(segs[0].type_) == Some(ty) {
        Some(segs[0])
    } else {
        first_segment(segs.drop_first(), ty)
    }
}

/// Milliseconds of optional ticks, zero when absent.
pub open spec fn ticks_ms_or_zero(t: Option<i64>) -> i64 {
    match t {
        Some(x) => trunc_div(x as int, 10_000) as i64,
        None => 0,
    }
}

/// Skip markers from media segments: the first `Intro` gives the intro range
/// and the first `Outro` the credits start (missing values are zero); none
/// when neither is present.
pub open spec fn skip_markers_spec(segs: Seq<MediaSegmentDto>) -> Option<SkipMarkers> {
    let intro = first_segment(segs, "Intro"@);
    let outro = first_segment(segs, "Outro"@);
    if intro is None && outro is None {
        None
    } else {
        Some(
            SkipMarkers {
                intro_start_ms: match intro {
                    Some(s) => ticks_ms_or_zero(s.start_ticks),
                    None => 0,
                },
                intro_end_ms: match intro {
                    Some(s) => ticks_ms_or_zero(s.end_ticks),
                    None => 0,
                },
                credits_start_ms: match outro {
                    Some(s) => ticks_ms_or_zero(s.start_ticks),
                    None => 0,
                },
            },
        )
    }
}

/// The position of the first segment of type `ty`.
fn find_segment(segs: &[MediaSegmentDto], ty: &str) -> (r: Option<usize>)
    ensures
        match r {
            Some(i) => i < segs@.len() && first_segment(segs@, ty@) == Some(segs@[i as int]),
            None => first_segment(segs@, ty@) is None,
        },
{
    let mut i: usize = 0;
    assert(segs@.skip(0) =~= segs@);
    while i < segs.len()
        invariant
            i <= segs@.len(),
            first_segment(segs@, ty@) == first_segment(segs@.skip(i as int), ty@),
        decreases segs.len() - i,
    {
        assert(segs@.skip(i as int).drop_first() =~= segs@.skip(i + 1));
        assert(segs@.skip(i as int)[0] == segs@[i as int]);
        if opt_is(&segs[i].type_, ty) {
            return Some(i);
        }
        i = i + 1;
    }
    None
}

/// Milliseconds of optional ticks, zero when absent.
fn ms_or_zero(t: Option<i64>) -> (r: i64)
    ensures
        r == ticks_ms_or_zero(t),
{
    match t {
        Some(x) => Ticks(x).to_ms(),
        None => 0,
    }
}

/// Convert Jellyfin media segments to skip markers, in milliseconds. `None`
/// when there is neither an intro nor an outro, so no skip button shows.
pub fn media_segments_to_skip_markers(segments: &[MediaSegmentDto]) -> (r: Option<SkipMarkers>)
    ensures
        r == skip_markers_spec(segments@),
{
    let intro = find_segment(segments, "Intro");
    let outro = find_segment(segments, "Outro");
    if intro.is_none() && outro.is_none() {
        return None;
    }
    let (intro_start_ms, intro_end_ms) = match intro {
        Some(i) => (ms_or_zero(segments[i].start_ticks), ms_or_zero(segments[i].end_ticks)),
        None => (0, 0),
    };
    let credits_start_ms = match outro {
        Some(i) => ms_or_zero(segments[i].start_ticks),
        None => 0,
    };
    Some(SkipMarkers { intro_start_ms, intro_end_ms, credits_start_ms })
}

/// What a converted Jellyfin item says of its item, over all items: its id
/// is `jellyfin:{source}:{item id}`; its runtime is the run time in whole
/// minutes and its resume position the position in whole milliseconds
/// (ten thousand ticks each), both rounded down; it is watched exactly when
/// the server says it was played; its resolution label is `4k` from 2000
/// lines, `1080` from 1080, `720` from 720, `sd` below, none without a
/// positive height; an episode's parent is its season and a season's its
/// series; only an episode carries an episode number.
pub proof fn lemma_jellyfin_item_meaning(dto: BaseItemDto, source_id: Seq<char>, t: MediaType, it: MediaItem)
    requires
        jellyfin_item(dto, source_id, t, it),
    ensures
        it.id@ == "jellyfin:"@ + source_id + ":"@ + dto.id@,
        it.year == dto.production_year,
        dto.run_time_ticks is Some && 0 <= dto.run_time_ticks->0 < 600_000_000 * 0x8000_0000
            ==> it.runtime_minutes is Some && it.runtime_minutes->0 * 600_000_000
            <= dto.run_time_ticks->0 < (it.runtime_minutes->0 + 1) * 600_000_000,
        (dto.user_data is Some && dto.user_data->0.playback_position_ticks is Some
            && dto.user_data->0.playback_position_ticks->0 >= 0) ==> it.playback_position_ms is Some
            && it.playback_position_ms->0 * 10_000 <= dto.user_data->0.playback_position_ticks->0 < (
        it.playback_position_ms->0 + 1) * 10_000,
        it.watched <==> (dto.user_data is Some && dto.user_data->0.played),
        dto.height is Some && dto.height->0 >= 2000 ==> opt_view(it.video_resolution) == Some("4k"@),
        dto.height is Some && 1080 <= dto.height->0 < 2000 ==> opt_view(it.video_resolution) == Some(
            "1080"@,
        ),
        dto.height is Some && 720 <= dto.height->0 < 1080 ==> opt_view(it.video_resolution) == Some(
            "720"@,
        ),
        dto.height is Some && 0 < dto.height->0 < 720 ==> opt_view(it.video_resolution) == Some("sd"@),
        (dto.height is None || dto.height->0 <= 0) ==> it.video_resolution is None,
        t == MediaType::Episode && dto.season_id is Some ==> opt_view(it.parent_id) == Some(
            "jellyfin:"@ + source_id + ":"@ + dto.season_id->0@,
        ),
        t == MediaType::Season && dto.series_id is Some ==> opt_view(it.parent_id) == Some(
            "jellyfin:"@ + source_id + ":"@ + dto.series_id->0@,
        ),
        t != MediaType::Episode ==> it.episode_number is None,
{
    reveal_strlit("jellyfin");
    reveal_strlit(":");
    reveal_strlit("jellyfin:");
    assert("jellyfin"@ + ":"@ =~= "jellyfin:"@);
    assert(composite_key("jellyfin"@, source_id, dto.id@) =~= "jellyfin:"@ + source_id + ":"@ + dto.id@);
    if let Some(sid) = dto.season_id {
        assert(composite_key("jellyfin"@, source_id, sid@) =~= "jellyfin:"@ + source_id + ":"@ + sid@);
    }
    if let Some(sid) = dto.series_id {
        assert(composite_key("jellyfin"@, source_id, sid@) =~= "jellyfin:"@ + source_id + ":"@ + sid@);
    }
    if let Some(tk) = dto.run_time_ticks {
        if 0 <= tk < 600_000_000 * 0x8000_0000 {
            let ms = tk as int / 10_000;
            let q = ms / 60_000;
            assert(q == tk as int / 600_000_000) by (nonlinear_arith)
                requires
                    ms == tk as int / 10_000,
                    q == ms / 60_000,
                    tk >= 0,
            ;
            assert(0 <= q < 0x8000_0000);
        }
    }
}

} // verus!
