//! Conversion of Plex payloads into the library's media model, and of Plex
//! chapter markers into intro/credits skip markers.

use vstd::prelude::*;
use crate::jellyfin::models::trunc_div;
use crate::media::{
    composite_key, hdr_from_plex, library_type_from_plex, CastMember, CollectionRef, HdrFormat,
    LibrarySection, LibraryType, MediaDetail, MediaItem, MediaType, SkipMarkers, SourceType,
    TechnicalInfo,
};
use crate::plex::models::{PlexChapter, PlexLibrary, PlexMetadata, PlexRole, PlexTag};
use crate::text::{
    chars_of, clone_opt, infix_of, int_digits, is_infix, lowercase, opt_view, owned, push_int,
    str_eq, strs_view, to_lower,
};

verus! {

/// Convert a Plex library section; sections other than movies and shows are
/// not browsed.
pub fn plex_library_to_section(lib: &PlexLibrary) -> (r: Option<LibrarySection>)
    ensures
        match r {
            Some(sec) => library_type_from_plex(lib.library_type@) == Some(sec.library_type)
                && sec.key@ == lib.key@ && sec.title@ == lib.title@ && sec.count == lib.item_count,
            None => library_type_from_plex(lib.library_type@) is None,
        },
{
    let library_type = match LibraryType::from_plex_type(lib.library_type.as_str()) {
        Some(t) => t,
        None => {
            return None;
        },
    };
    Some(
        LibrarySection {
            key: lib.key.clone(),
            title: lib.title.clone(),
            library_type,
            count: lib.item_count,
        },
    )
}

/// The kind of item a Plex `type` names; other types are not modelled.
pub open spec fn plex_media_type(t: Seq<char>) -> Option<MediaType> {
    if t == "movie"@ {
        Some(MediaType::Movie)
    } else if t == "show"@ {
        Some(MediaType::Show)
    } else if t == "season"@ {
        Some(MediaType::Season)
    } else if t == "episode"@ {
        Some(MediaType::Episode)
    } else if t == "collection"@ {
        Some(MediaType::Collection)
    } else {
        None
    }
}

/// The key of the first part of the first media version.
pub open spec fn plex_file_path(m: PlexMetadata) -> Option<Seq<char>> {
    if m.media@.len() > 0 && m.media@[0].parts@.len() > 0 {
        opt_view(m.media@[0].parts@[0].key)
    } else {
        None
    }
}

/// The resolution of the first media version.
pub open spec fn plex_resolution(m: PlexMetadata) -> Option<Seq<char>> {
    if m.media@.len() > 0 {
        opt_view(m.media@[0].video_resolution)
    } else {
        None
    }
}

/// The HDR format of the first media version.
pub open spec fn plex_hdr(m: PlexMetadata) -> Option<HdrFormat> {
    if m.media@.len() > 0 {
        match m.media@[0].video_dynamic_range {
            Some(r) => hdr_from_plex(r@),
            None => None,
        }
    } else {
        None
    }
}

/// The tags' names, in order.
pub open spec fn tag_names(s: Seq<PlexTag>) -> Seq<Seq<char>> {
    s.map_values(|t: PlexTag| t.tag@)
}

/// A timestamp as decimal text, or the empty string.
pub open spec fn stamp_text(t: Option<i64>) -> Seq<char> {
    match t {
        Some(x) => int_digits(x as int),
        None => Seq::empty(),
    }
}

/// `it` is the media item for `m` of kind `t` from source `source_id`. A
/// season or an episode points at its parent; an episode carries the series
/// poster and its number; one or more views mark an item watched.
pub open spec fn plex_item(m: PlexMetadata, source_id: Seq<char>, t: MediaType, it: MediaItem) -> bool {
    &&& plex_item_fields(m, source_id, t, it)
    &&& opt_view(it.library_section_id) == opt_view(m.library_section_id)
}

/// Every field of `it` but its library section is as `plex_item` says.
pub open spec fn plex_item_fields(m: PlexMetadata, source_id: Seq<char>, t: MediaType, it: MediaItem) -> bool {
    &&& it.id@ == composite_key("plex"@, source_id, m.rating_key@)
    &&& it.source_type == SourceType::Plex
    &&& it.source_id@ == source_id
    &&& it.external_id@ == m.rating_key@
    &&& it.media_type == t
    &&& it.title@ == m.title@
    &&& it.year == m.year
    &&& opt_view(it.overview) == opt_view(m.summary)
    &&& opt_view(it.content_rating) == opt_view(m.content_rating)
    &&& it.rating == m.rating
    &&& it.runtime_minutes == (match m.duration {
        Some(ms) => Some(trunc_div(ms as int, 60_000) as i32),
        None => None,
    })
    &&& opt_view(it.poster_path) == opt_view(m.thumb)
    &&& opt_view(it.series_poster_path) == (if t == MediaType::Episode {
        opt_view(m.grandparent_thumb)
    } else {
        None
    })
    &&& opt_view(it.backdrop_path) == opt_view(m.art)
    &&& strs_view(it.genres@) == tag_names(m.genres@)
    &&& opt_view(it.parent_id) == (if t == MediaType::Season || t == MediaType::Episode {
        match m.parent_rating_key {
            Some(pk) => Some(composite_key("plex"@, source_id, pk@)),
            None => None,
        }
    } else {
        None
    })
    &&& it.season_number == (match m.parent_index {
        Some(p) => Some(p),
        None => m.index,
    })
    &&& it.episode_number == (if t == MediaType::Episode {
        m.index
    } else {
        None
    })
    &&& opt_view(it.air_date) == opt_view(m.originally_available_at)
    &&& opt_view(it.file_path) == plex_file_path(m)
    &&& opt_view(it.video_resolution) == plex_resolution(m)
    &&& it.hdr == plex_hdr(m)
    &&& it.added_at@ == stamp_text(m.added_at)
    &&& it.updated_at@ == (match m.updated_at {
        Some(x) => int_digits(x as int),
        None => stamp_text(m.added_at),
    })
    &&& it.playback_position_ms == m.view_offset
    &&& it.watched == (match m.view_count {
        Some(c) => c >= 1,
        None => false,
    })
}

/// The kind of item a Plex `type` names.
fn media_type_of(t: &str) -> (r: Option<MediaType>)
    ensures
        r == plex_media_type(t@),
{
    if str_eq(t, "movie") {
        Some(MediaType::Movie)
    } else if str_eq(t, "show") {
        Some(MediaType::Show)
    } else if str_eq(t, "season") {
        Some(MediaType::Season)
    } else if str_eq(t, "episode") {
        Some(MediaType::Episode)
    } else if str_eq(t, "collection") {
        Some(MediaType::Collection)
    } else {
        None
    }
}

/// The names of tags.
fn names_of(tags: &Vec<PlexTag>) -> (r: Vec<String>)
    ensures
        strs_view(r@) == tag_names(tags@),
{
    let mut out: Vec<String> = Vec::new();
    let mut i: usize = 0;
    while i < tags.len()
        invariant
            i <= tags@.len(),
            out@.len() == i,
            forall|k: int| 0 <= k < i ==> #[trigger] out@[k]@ == tags@[k].tag@,
        decreases tags.len() - i,
    {
        out.push(tags[i].tag.clone());
        i = i + 1;
    }
    assert(strs_view(out@) =~= tag_names(tags@));
    out
}

/// A timestamp as decimal text.
fn stamp_string(t: i64) -> (r: String)
    ensures
        r@ == int_digits(t as int),
{
    let mut s = String::new();
    push_int(&mut s, t);
    assert(s@ =~= int_digits(t as int));
    s
}

/// Convert Plex metadata to a media item. `None` for item types not
/// modelled.
pub fn plex_metadata_to_media_item(metadata: &PlexMetadata, source_id: &str) -> (r: Option<
    MediaItem,
>)
    ensures
        match r {
            Some(it) => plex_media_type(metadata.metadata_type@) == Some(it.media_type) && plex_item(
                *metadata,
                source_id@,
                it.media_type,
                it,
            ),
            None => plex_media_type(metadata.metadata_type@) is None,
        },
{
    let media_type = match media_type_of(metadata.metadata_type.as_str()) {
        Some(t) => t,
        None => {
            return None;
        },
    };
    let id = MediaItem::make_id(SourceType::Plex, source_id, metadata.rating_key.as_str());
    let file_path: Option<String> = if metadata.media.len() > 0 && metadata.media[0].parts.len()
        > 0 {
        clone_opt(&metadata.media[0].parts[0].key)
    } else {
        None
    };
    let video_resolution: Option<String> = if metadata.media.len() > 0 {
        clone_opt(&metadata.media[0].video_resolution)
    } else {
        None
    };
    let hdr: Option<HdrFormat> = if metadata.media.len() > 0 {
        match &metadata.media[0].video_dynamic_range {
            Some(r) => HdrFormat::from_plex(r.as_str()),
            None => None,
        }
    } else {
        None
    };
    let runtime_minutes: Option<i32> = match metadata.duration {
        Some(ms) => {
            let minutes: i64 = if ms >= 0 {
                ms / 60_000
            } else {
                let q: i128 = (-(ms as i128)) / 60_000;
                (-q) as i64
            };
            Some(minutes as i32)
        },
        None => None,
    };
    let genres = names_of(&metadata.genres);
    let parent_id: Option<String> = match media_type {
        MediaType::Season | MediaType::Episode => match &metadata.parent_rating_key {
            Some(pk) => Some(MediaItem::make_id(SourceType::Plex, source_id, pk.as_str())),
            None => None,
        },
        _ => None,
    };
    let added_at: String = match metadata.added_at {
        Some(ts) => stamp_string(ts),
        None => String::new(),
    };
    let updated_at: String = match metadata.updated_at {
        Some(ts) => stamp_string(ts),
        None => added_at.clone(),
    };
    let series_poster_path: Option<String> = match media_type {
        MediaType::Episode => clone_opt(&metadata.grandparent_thumb),
        _ => None,
    };
    let watched = match metadata.view_count {
        Some(c) => c >= 1,
        None => false,
    };
    let season_number = match metadata.parent_index {
        Some(p) => Some(p),
        None => metadata.index,
    };
    let episode_number = match media_type {
        MediaType::Episode => metadata.index,
        _ => None,
    };
    let it = MediaItem {
        id,
        source_type: SourceType::Plex,
        source_id: owned(source_id),
        external_id: metadata.rating_key.clone(),
        media_type,
        title: metadata.title.clone(),
        year: metadata.year,
        overview: clone_opt(&metadata.summary),
        content_rating: clone_opt(&metadata.content_rating),
        rating: metadata.rating,
        runtime_minutes,
        poster_path: clone_opt(&metadata.thumb),
        series_poster_path,
        backdrop_path: clone_opt(&metadata.art),
        genres,
        parent_id,
        season_number,
        episode_number,
        air_date: clone_opt(&metadata.originally_available_at),
        file_path,
        video_resolution,
        hdr,
        added_at,
        updated_at,
        playback_position_ms: metadata.view_offset,
        watched,
        library_section_id: clone_opt(&metadata.library_section_id),
    };
    proof {
        reveal_strlit("jellyfin");
        reveal_strlit("plex");
        reveal_strlit("local");
    }
    Some(it)
}

/// Name, character and photo of cast members.
pub open spec fn cast_full_view(c: Seq<CastMember>) -> Seq<(Seq<char>, Option<Seq<char>>, Option<Seq<char>>)> {
    c.map_values(|m: CastMember| (m.name@, opt_view(m.character), opt_view(m.photo_path)))
}

/// Name, role and photo of Plex roles.
pub open spec fn roles_view(r: Seq<PlexRole>) -> Seq<(Seq<char>, Option<Seq<char>>, Option<Seq<char>>)> {
    r.map_values(|x: PlexRole| (x.tag@, opt_view(x.role), opt_view(x.thumb)))
}

/// Names of collections.
pub open spec fn collection_names(c: Seq<CollectionRef>) -> Seq<Seq<char>> {
    c.map_values(|x: CollectionRef| x.name@)
}

/// `d` is the detail of `m`: every role as cast, directors, writers and
/// collections by name, and the first media version's technical facts.
pub open spec fn plex_detail(m: PlexMetadata, d: MediaDetail) -> bool {
    &&& cast_full_view(d.cast@) == roles_view(m.roles@)
    &&& strs_view(d.directors@) == tag_names(m.directors@)
    &&& strs_view(d.writers@) == tag_names(m.writers@)
    &&& collection_names(d.collections@) == tag_names(m.collections@)
    &&& (if m.media@.len() > 0 {
        d.technical matches Some(t) && {
            let md = m.media@[0];
            &&& opt_view(t.video_resolution) == opt_view(md.video_resolution)
            &&& opt_view(t.video_codec) == opt_view(md.video_codec)
            &&& opt_view(t.audio_codec) == opt_view(md.audio_codec)
            &&& t.audio_channels == md.audio_channels
            &&& opt_view(t.container) == opt_view(md.container)
            &&& t.bitrate_kbps == md.bitrate
            &&& t.file_size_bytes == (if md.parts@.len() > 0 {
                md.parts@[0].size
            } else {
                None
            })
        }
    } else {
        d.technical is None
    })
}

/// Convert Plex metadata to a media item with its detail-page enrichment.
pub fn plex_metadata_to_media_detail(metadata: &PlexMetadata, source_id: &str) -> (r: Option<
    MediaDetail,
>)
    ensures
        match r {
            Some(d) => plex_media_type(metadata.metadata_type@) == Some(d.item.media_type) && plex_item(
                *metadata,
                source_id@,
                d.item.media_type,
                d.item,
            ) && plex_detail(*metadata, d),
            None => plex_media_type(metadata.metadata_type@) is None,
        },
{
    let item = match plex_metadata_to_media_item(metadata, source_id) {
        Some(it) => it,
        None => {
            return None;
        },
    };
    let mut cast: Vec<CastMember> = Vec::new();
    let mut i: usize = 0;
    while i < metadata.roles.len()
        invariant
            i <= metadata.roles@.len(),
            cast@.len() == i,
            forall|k: int|
                0 <= k < i ==> (#[trigger] cast@[k]).name@ == metadata.roles@[k].tag@ && opt_view(
                    cast@[k].character,
                ) == opt_view(metadata.roles@[k].role) && opt_view(cast@[k].photo_path)
                    == opt_view(metadata.roles@[k].thumb),
        decreases metadata.roles.len() - i,
    {
        let r = &metadata.roles[i];
        cast.push(
            CastMember {
                name: r.tag.clone(),
                character: clone_opt(&r.role),
                photo_path: clone_opt(&r.thumb),
            },
        );
        i = i + 1;
    }
    assert(cast_full_view(cast@) =~= roles_view(metadata.roles@));
    let directors = names_of(&metadata.directors);
    let writers = names_of(&metadata.writers);
    let mut collections: Vec<CollectionRef> = Vec::new();
    let mut j: usize = 0;
    while j < metadata.collections.len()
        invariant
            j <= metadata.collections@.len(),
            collections@.len() == j,
            forall|k: int|
                0 <= k < j ==> (#[trigger] collections@[k]).name@ == metadata.collections@[k].tag@,
        decreases metadata.collections.len() - j,
    {
        collections.push(CollectionRef { name: metadata.collections[j].tag.clone() });
        j = j + 1;
    }
    assert(collection_names(collections@) =~= tag_names(metadata.collections@));
    let technical = if metadata.media.len() > 0 {
        let m = &metadata.media[0];
        let file_size = if m.parts.len() > 0 {
            m.parts[0].size
        } else {
            None
        };
        Some(
            TechnicalInfo {
                video_resolution: clone_opt(&m.video_resolution),
                video_codec: clone_opt(&m.video_codec),
                audio_codec: clone_opt(&m.audio_codec),
                audio_channels: m.audio_channels,
                container: clone_opt(&m.container),
                bitrate_kbps: m.bitrate,
                file_size_bytes: file_size,
            },
        )
    } else {
        None
    };
    Some(MediaDetail { item, cast, directors, writers, technical, collections })
}

// --- Chapters to skip markers -----------------------------------------------------

/// Chapter-title fragments that mark an intro.
pub open spec fn intro_tags() -> Seq<Seq<char>> {
    seq!["intro"@, "opening"@, "opening credits"@, "title sequence"@]
}

/// Chapter-title fragments that mark the credits.
pub open spec fn credits_tags() -> Seq<Seq<char>> {
    seq!["credits"@, "end credits"@, "closing credits"@]
}

/// The chapter title, lowercased, contains one of `cands`.
pub open spec fn tag_matches(tag: Option<String>, cands: Seq<Seq<char>>) -> bool {
    match tag {
        Some(t) => exists|i: int| 0 <= i < cands.len() && is_infix(#[trigger] cands[i], lowercase(t@)),
        None => false,
    }
}

/// The first chapter whose title matches `cands`.
pub open spec fn first_matching(chs: Seq<PlexChapter>, cands: Seq<Seq<char>>) -> Option<PlexChapter>
    decreases chs.len(),
{
    if chs.len() == 0 {
        None
    } else if tag_matches(chs[0].tag, cands) {
        Some(chs[0])
    } else {
        first_matching(chs.drop_first(), cands)
    }
}

/// The last chapter whose title matches `cands`.
pub open spec fn last_matching(chs: Seq<PlexChapter>, cands: Seq<Seq<char>>) -> Option<PlexChapter>
    decreases chs.len(),
{
    if chs.len() == 0 {
        None
    } else if tag_matches(chs.last().tag, cands) {
        Some(chs.last())
    } else {
        last_matching(chs.drop_last(), cands)
    }
}

/// The intro range in milliseconds: a chapter titled as an intro, else the
/// second chapter when it starts within five minutes and lasts more than
/// nothing and at most three minutes, else nothing (zeros).
pub open spec fn intro_range(chs: Seq<PlexChapter>) -> (int, int) {
    match first_matching(chs, intro_tags()) {
        Some(ch) => (ch.start_time_offset as int, ch.end_time_offset as int),
        None => if chs.len() >= 2 {
            let s = chs[1];
            let len = s.end_time_offset - s.start_time_offset;
            if s.start_time_offset <= 300_000 && 0 < len <= 180_000 {
                (s.start_time_offset as int, s.end_time_offset as int)
            } else {
                (0, 0)
            }
        } else {
            (0, 0)
        },
    }
}

/// The credits start in milliseconds: the last chapter titled as credits,
/// else the last chapter when it starts in the final quarter, else zero.
pub open spec fn credits_start(chs: Seq<PlexChapter>, duration_ms: int) -> int {
    match last_matching(chs, credits_tags()) {
        Some(ch) => ch.start_time_offset as int,
        None => if chs.len() > 0 && 4 * chs.last().start_time_offset >= 3 * duration_ms {
            chs.last().start_time_offset as int
        } else {
            0
        },
    }
}

/// `v` clamped to `[0, hi]`.
pub open spec fn clamp_to(v: int, hi: int) -> int {
    if v < 0 {
        0
    } else if v > hi {
        hi
    } else {
        v
    }
}

/// Skip markers from chapters of an item lasting `duration_ms`: none for no
/// chapters, a non-positive duration, or when neither an intro end nor a
/// credits start was found; otherwise the values clamped to the duration.
pub open spec fn chapter_markers(chs: Seq<PlexChapter>, duration_ms: int) -> Option<SkipMarkers> {
    if chs.len() == 0 || duration_ms <= 0 {
        None
    } else {
        let (a, b) = intro_range(chs);
        let c = credits_start(chs, duration_ms);
        if b <= 0 && c <= 0 {
            None
        } else {
            Some(
                SkipMarkers {
                    intro_start_ms: clamp_to(a, duration_ms) as i64,
                    intro_end_ms: clamp_to(b, duration_ms) as i64,
                    credits_start_ms: clamp_to(c, duration_ms) as i64,
                },
            )
        }
    }
}

/// Whether an optional chapter title, lowercased, contains one of the
/// candidate fragments.
fn title_matches(tag: &Option<String>, intro: bool) -> (r: bool)
    ensures
        r == tag_matches(*tag, if intro { intro_tags() } else { credits_tags() }),
{
    match tag {
        None => false,
        Some(t) => {
            let low = to_lower(t.as_str());
            let hay = chars_of(low.as_str());
            let cands: Vec<&str> = if intro {
                vec!["intro", "opening", "opening credits", "title sequence"]
            } else {
                vec!["credits", "end credits", "closing credits"]
            };
            let ghost cs = if intro { intro_tags() } else { credits_tags() };
            assert(cands@.len() == cs.len());
            assert(forall|i: int| 0 <= i < cs.len() ==> cands@[i]@ == #[trigger] cs[i]);
            let mut i: usize = 0;
            while i < cands.len()
                invariant
                    i <= cands@.len(),
                    cands@.len() == cs.len(),
                    forall|k: int| 0 <= k < cs.len() ==> cands@[k]@ == #[trigger] cs[k],
                    hay@ == lowercase(t@),
                    *tag == Some(*t),
                    cs == (if intro { intro_tags() } else { credits_tags() }),
                    forall|k: int| 0 <= k < i ==> !is_infix(#[trigger] cs[k], lowercase(t@)),
                decreases cands.len() - i,
            {
                let needle = chars_of(cands[i]);
                if infix_of(&needle, &hay) {
                    assert(is_infix(cs[i as int], lowercase(t@)));
                    return true;
                }
                i = i + 1;
            }
            false
        },
    }
}

/// The position of the first chapter titled as an intro (`intro`) or credits.
fn first_titled(chs: &[PlexChapter], intro: bool) -> (r: Option<usize>)
    ensures
        match r {
            Some(i) => i < chs@.len() && first_matching(chs@, if intro { intro_tags() } else { credits_tags() })
                == Some(chs@[i as int]),
            None => first_matching(chs@, if intro { intro_tags() } else { credits_tags() }) is None,
        },
{
    let ghost cs = if intro { intro_tags() } else { credits_tags() };
    let mut i: usize = 0;
    assert(chs@.skip(0) =~= chs@);
    while i < chs.len()
        invariant
            i <= chs@.len(),
            cs == (if intro { intro_tags() } else { credits_tags() }),
            first_matching(chs@, cs) == first_matching(chs@.skip(i as int), cs),
        decreases chs.len() - i,
    {
        assert(chs@.skip(i as int).drop_first() =~= chs@.skip(i + 1));
        assert(chs@.skip(i as int)[0] == chs@[i as int]);
        if title_matches(&chs[i].tag, intro) {
            return Some(i);
        }
        i = i + 1;
    }
    None
}

/// The position of the last chapter titled as credits.
fn last_credits(chs: &[PlexChapter]) -> (r: Option<usize>)
    ensures
        match r {
            Some(i) => i < chs@.len() && last_matching(chs@, credits_tags()) == Some(chs@[i as int]),
            None => last_matching(chs@, credits_tags()) is None,
        },
{
    let mut n: usize = chs.len();
    assert(chs@.subrange(0, n as int) =~= chs@);
    while n > 0
        invariant
            n <= chs@.len(),
            last_matching(chs@, credits_tags()) == last_matching(chs@.subrange(0, n as int), credits_tags()),
        decreases n,
    {
        assert(chs@.subrange(0, n as int).drop_last() =~= chs@.subrange(0, n - 1));
        assert(chs@.subrange(0, n as int).last() == chs@[n - 1]);
        if title_matches(&chs[n - 1].tag, false) {
            return Some(n - 1);
        }
        n = n - 1;
    }
    None
}

/// `v` clamped to `[0, hi]`.
fn clamp_ms(v: i64, hi: i64) -> (r: i64)
    requires
        hi >= 0,
    ensures
        r == clamp_to(v as int, hi as int),
{
    if v < 0 {
        0
    } else if v > hi {
        hi
    } else {
        v
    }
}

/// Convert Plex chapter markers to skip markers for an item lasting
/// `duration_ms`, in priority order: a chapter titled as an intro gives the
/// intro range and the last chapter titled as credits the credits start;
/// otherwise the second chapter is taken as the intro when it starts within
/// five minutes and lasts at most three, and the last chapter as the credits
/// when it starts in the final quarter. `None` when neither is found, so the
/// skip button stays hidden.
pub fn plex_chapters_to_skip_markers(chapters: &[PlexChapter], duration_ms: i64) -> (r: Option<
    SkipMarkers,
>)
    ensures
        r == chapter_markers(chapters@, duration_ms as int),
{
    if chapters.len() == 0 || duration_ms <= 0 {
        return None;
    }
    let n = chapters.len();
    let (intro_start, intro_end): (i64, i64) = match first_titled(chapters, true) {
        Some(i) => (chapters[i].start_time_offset, chapters[i].end_time_offset),
        None => {
            if n >= 2 {
                let s = &chapters[1];
                let len: i128 = (s.end_time_offset as i128) - (s.start_time_offset as i128);
                if s.start_time_offset <= 300_000 && 0 < len && len <= 180_000 {
                    (s.start_time_offset, s.end_time_offset)
                } else {
                    (0, 0)
                }
            } else {
                (0, 0)
            }
        },
    };
    let credits: i64 = match last_credits(chapters) {
        Some(i) => chapters[i].start_time_offset,
        None => {
            let last = &chapters[n - 1];
            if 4 * (last.start_time_offset as i128) >= 3 * (duration_ms as i128) {
                last.start_time_offset
            } else {
                0
            }
        },
    };
    assert(chapters@.last() == chapters@[n - 1]);
    if intro_end <= 0 && credits <= 0 {
        return None;
    }
    Some(
        SkipMarkers {
            intro_start_ms: clamp_ms(intro_start, duration_ms),
            intro_end_ms: clamp_ms(intro_end, duration_ms),
            credits_start_ms: clamp_ms(credits, duration_ms),
        },
    )
}

/// What a converted Plex item says of its metadata, over all metadata: its
/// id is `plex:{source}:{rating key}`; its runtime is the duration in whole
/// minutes, rounded down; it is watched exactly when it was viewed at least
/// once; only an episode carries an episode number and a series poster; and
/// an episode's parent is `plex:{source}:{parent rating key}`.
pub proof fn lemma_plex_item_meaning(m: PlexMetadata, source_id: Seq<char>, t: MediaType, it: MediaItem)
    requires
        plex_item(m, source_id, t, it),
    ensures
        it.id@ == "plex:"@ + source_id + ":"@ + m.rating_key@,
        it.title@ == m.title@,
        it.year == m.year,
        m.duration is Some && 0 <= m.duration->0 < 60_000 * 0x8000_0000 ==> it.runtime_minutes is Some
            && it.runtime_minutes->0 * 60_000 <= m.duration->0 < (it.runtime_minutes->0 + 1) * 60_000,
        m.duration is None ==> it.runtime_minutes is None,
        it.watched <==> (m.view_count is Some && m.view_count->0 >= 1),
        it.playback_position_ms == m.view_offset,
        t != MediaType::Episode ==> it.episode_number is None && it.series_poster_path is None,
        t == MediaType::Episode && m.parent_rating_key is Some ==> opt_view(it.parent_id) == Some(
            "plex:"@ + source_id + ":"@ + m.parent_rating_key->0@,
        ),
{
    reveal_strlit("plex");
    reveal_strlit(":");
    reveal_strlit("plex:");
    assert("plex"@ + ":"@ =~= "plex:"@);
    assert(composite_key("plex"@, source_id, m.rating_key@) =~= "plex:"@ + source_id + ":"@ + m.rating_key@);
    if let Some(pk) = m.parent_rating_key {
        assert(composite_key("plex"@, source_id, pk@) =~= "plex:"@ + source_id + ":"@ + pk@);
    }
    if let Some(d) = m.duration {
        if 0 <= d < 60_000 * 0x8000_0000 {
            let q = d as int / 60_000;
            assert(0 <= q < 0x8000_0000);
            assert(q * 60_000 <= d < (q + 1) * 60_000);
        }
    }
}

} // verus!
