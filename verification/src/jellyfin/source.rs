//! What the Jellyfin media source computes around its API calls: the request
//! URLs, the item lists it hands out (unsupported kinds dropped, optionally
//! stamped with the library they were listed from), the library sections, the
//! discovery hubs, and which listing gives an item's children.

use vstd::prelude::*;
use crate::jellyfin::convert::{
    base_item_to_media_item, jellyfin_item_fields, jellyfin_media_type, or_empty,
    user_view_to_section, view_library_type,
};
use crate::jellyfin::models::BaseItemDto;
use crate::media::{kept_where, lemma_kept_where_step, LibrarySection, MediaHub, MediaItem};
use crate::text::{opt_view, owned, str_eq};

verus! {

// --- Request URLs -----------------------------------------------------------------

/// The `fields` every item listing asks for, so the server returns what the
/// converters read.
pub open spec fn item_fields() -> Seq<char> {
    "Overview,Genres,People,MediaSources,ProductionYear,PremiereDate,ParentId"@
}

/// A Jellyfin API request.
#[derive(Debug, Clone, PartialEq)]
pub enum JellyfinEndpoint {
    UserViews,
    Items { parent_id: Option<String>, include_item_types: Option<String>, recursive: bool },
    Item(String),
    Seasons(String),
    Episodes { series_id: String, season_id: String },
    Resume,
    NextUp,
    Suggestions,
    Latest(Option<String>),
    MediaSegments(String),
    SessionsPlaying,
    SessionsProgress,
    SessionsStopped,
    Ping(String),
    ActiveEncodings(String),
    PlayedItem(String),
}

/// `&{name}={value}` for a present value, nothing otherwise.
pub open spec fn opt_param(name: Seq<char>, v: Option<String>) -> Seq<char> {
    match v {
        Some(x) => "&"@ + name + "="@ + x@,
        None => Seq::empty(),
    }
}

/// The path and query of a request, after the base URL; listings are scoped
/// to `user_id`, encoder stops to `device_id`.
pub open spec fn endpoint_path(e: JellyfinEndpoint, user_id: Seq<char>, device_id: Seq<char>) -> Seq<char> {
    match e {
        JellyfinEndpoint::UserViews => "/UserViews?userId="@ + user_id,
        JellyfinEndpoint::Items { parent_id, include_item_types, recursive } => "/Items?userId="@
            + user_id + "&fields="@ + item_fields() + opt_param("parentId"@, parent_id) + opt_param(
            "includeItemTypes"@,
            include_item_types,
        ) + if recursive {
            "&recursive=true"@
        } else {
            Seq::empty()
        },
        JellyfinEndpoint::Item(id) => "/Items/"@ + id@ + "?userId="@ + user_id + "&fields="@
            + item_fields(),
        JellyfinEndpoint::Seasons(s) => "/Shows/"@ + s@ + "/Seasons?userId="@ + user_id,
        JellyfinEndpoint::Episodes { series_id, season_id } => "/Shows/"@ + series_id@
            + "/Episodes?userId="@ + user_id + "&seasonId="@ + season_id@,
        JellyfinEndpoint::Resume => "/UserItems/Resume?userId="@ + user_id,
        JellyfinEndpoint::NextUp => "/Shows/NextUp?userId="@ + user_id,
        JellyfinEndpoint::Suggestions => "/Items/Suggestions?userId="@ + user_id,
        JellyfinEndpoint::Latest(p) => "/Items/Latest?userId="@ + user_id + opt_param(
            "parentId"@,
            p,
        ),
        JellyfinEndpoint::MediaSegments(id) => "/MediaSegments/"@ + id@,
        JellyfinEndpoint::SessionsPlaying => "/Sessions/Playing"@,
        JellyfinEndpoint::SessionsProgress => "/Sessions/Playing/Progress"@,
        JellyfinEndpoint::SessionsStopped => "/Sessions/Playing/Stopped"@,
        JellyfinEndpoint::Ping(s) => "/Sessions/Playing/Ping?playSessionId="@ + s@,
        JellyfinEndpoint::ActiveEncodings(s) => "/Videos/ActiveEncodings?deviceId="@ + device_id
            + "&playSessionId="@ + s@,
        JellyfinEndpoint::PlayedItem(id) => "/UserPlayedItems/"@ + id@ + "?userId="@ + user_id,
    }
}

/// Append `&{name}={value}` for a present value.
fn push_opt_param(s: &mut String, name: &str, v: &Option<String>)
    ensures
        final(s)@ == old(s)@ + opt_param(name@, *v),
{
    match v {
        Some(x) => {
            s.append("&");
            s.append(name);
            s.append("=");
            s.append(x.as_str());
            assert(final(s)@ =~= old(s)@ + opt_param(name@, *v));
        },
        None => {
            assert(final(s)@ =~= old(s)@ + opt_param(name@, *v));
        },
    }
}

/// The URL of a request against the server at `base` (already without a
/// trailing `/`).
pub fn endpoint_url(base: &str, user_id: &str, device_id: &str, e: &JellyfinEndpoint) -> (r: String)
    ensures
        r@ == base@ + endpoint_path(*e, user_id@, device_id@),
{
    let fields = "Overview,Genres,People,MediaSources,ProductionYear,PremiereDate,ParentId";
    let mut s = owned(base);
    match e {
        JellyfinEndpoint::UserViews => {
            s.append("/UserViews?userId=");
            s.append(user_id);
        },
        JellyfinEndpoint::Items { parent_id, include_item_types, recursive } => {
            s.append("/Items?userId=");
            s.append(user_id);
            s.append("&fields=");
            s.append(fields);
            let ghost mid = s@;
            push_opt_param(&mut s, "parentId", parent_id);
            push_opt_param(&mut s, "includeItemTypes", include_item_types);
            if *recursive {
                s.append("&recursive=true");
            }
        },
        JellyfinEndpoint::Item(id) => {
            s.append("/Items/");
            s.append(id.as_str());
            s.append("?userId=");
            s.append(user_id);
            s.append("&fields=");
            s.append(fields);
        },
        JellyfinEndpoint::Seasons(series) => {
            s.append("/Shows/");
            s.append(series.as_str());
            s.append("/Seasons?userId=");
            s.append(user_id);
        },
        JellyfinEndpoint::Episodes { series_id, season_id } => {
            s.append("/Shows/");
            s.append(series_id.as_str());
            s.append("/Episodes?userId=");
            s.append(user_id);
            s.append("&seasonId=");
            s.append(season_id.as_str());
        },
        JellyfinEndpoint::Resume => {
            s.append("/UserItems/Resume?userId=");
            s.append(user_id);
        },
        JellyfinEndpoint::NextUp => {
            s.append("/Shows/NextUp?userId=");
            s.append(user_id);
        },
        JellyfinEndpoint::Suggestions => {
            s.append("/Items/Suggestions?userId=");
            s.append(user_id);
        },
        JellyfinEndpoint::Latest(p) => {
            s.append("/Items/Latest?userId=");
            s.append(user_id);
            push_opt_param(&mut s, "parentId", p);
        },
        JellyfinEndpoint::MediaSegments(id) => {
            s.append("/MediaSegments/");
            s.append(id.as_str());
        },
        JellyfinEndpoint::SessionsPlaying => s.append("/Sessions/Playing"),
        JellyfinEndpoint::SessionsProgress => s.append("/Sessions/Playing/Progress"),
        JellyfinEndpoint::SessionsStopped => s.append("/Sessions/Playing/Stopped"),
        JellyfinEndpoint::Ping(session) => {
            s.append("/Sessions/Playing/Ping?playSessionId=");
            s.append(session.as_str());
        },
        JellyfinEndpoint::ActiveEncodings(session) => {
            s.append("/Videos/ActiveEncodings?deviceId=");
            s.append(device_id);
            s.append("&playSessionId=");
            s.append(session.as_str());
        },
        JellyfinEndpoint::PlayedItem(id) => {
            s.append("/UserPlayedItems/");
            s.append(id.as_str());
            s.append("?userId=");
            s.append(user_id);
        },
    }
    proof {
        reveal_strlit("Overview,Genres,People,MediaSources,ProductionYear,PremiereDate,ParentId");
    }
    assert(s@ =~= base@ + endpoint_path(*e, user_id@, device_id@));
    s
}

// --- Item lists -------------------------------------------------------------------

/// Whether an item kind is one the library models.
pub open spec fn jellyfin_listed(d: BaseItemDto) -> bool {
    jellyfin_media_type(opt_view(d.type_)) is Some
}

/// `it` is the listed item for `d`: converted as `jellyfin_item` says, its
/// library section being `tag` when given and `d`'s parent otherwise.
pub open spec fn jellyfin_listed_item(d: BaseItemDto, source_id: Seq<char>, tag: Option<Seq<char>>, it: MediaItem) -> bool {
    &&& jellyfin_media_type(opt_view(d.type_)) == Some(it.media_type)
    &&& jellyfin_item_fields(d, source_id, it.media_type, it)
    &&& opt_view(it.library_section_id) == match tag {
        Some(t) => Some(t),
        None => opt_view(d.parent_id),
    }
}

/// `out` lists, in order, the modelled items of `ds`.
pub open spec fn jellyfin_items_of(ds: Seq<BaseItemDto>, source_id: Seq<char>, tag: Option<Seq<char>>, out: Seq<MediaItem>) -> bool {
    let k = kept_where(ds, |d: BaseItemDto| jellyfin_listed(d));
    &&& out.len() == k.len()
    &&& forall|i: int| 0 <= i < k.len() ==> jellyfin_listed_item(k[i], source_id, tag, #[trigger] out[i])
}

/// Convert a list of Jellyfin items, dropping kinds the library does not
/// model; with `tag_library`, every item is stamped with that library.
pub fn convert_items(dtos: &[BaseItemDto], source_id: &str, tag_library: Option<&str>) -> (r: Vec<MediaItem>)
    ensures
        jellyfin_items_of(
            dtos@,
            source_id@,
            match tag_library {
                Some(k) => Some(k@),
                None => None,
            },
            r@,
        ),
{
    let ghost tag = match tag_library {
        Some(k) => Some(k@),
        None => None::<Seq<char>>,
    };
    let ghost p = |d: BaseItemDto| jellyfin_listed(d);
    let mut out: Vec<MediaItem> = Vec::new();
    let mut i: usize = 0;
    while i < dtos.len()
        invariant
            i <= dtos.len(),
            tag == match tag_library {
                Some(k) => Some(k@),
                None => None::<Seq<char>>,
            },
            p == (|d: BaseItemDto| jellyfin_listed(d)),
            jellyfin_items_of(dtos@.take(i as int), source_id@, tag, out@),
        decreases dtos.len() - i,
    {
        proof {
            lemma_kept_where_step(dtos@, p, i as int);
        }
        let ghost before = out@;
        match base_item_to_media_item(&dtos[i], source_id) {
            Some(mut it) => {
                match tag_library {
                    Some(k) => {
                        it.library_section_id = Some(owned(k));
                    },
                    None => {},
                }
                out.push(it);
                proof {
                    let k = kept_where(dtos@.take(i as int + 1), p);
                    assert forall|j: int| 0 <= j < k.len() implies jellyfin_listed_item(
                        k[j],
                        source_id@,
                        tag,
                        #[trigger] out@[j],
                    ) by {
                        if j < before.len() {
                            assert(out@[j] == before[j]);
                        }
                    }
                }
            },
            None => {},
        }
        i = i + 1;
    }
    assert(dtos@.take(dtos.len() as int) =~= dtos@);
    out
}

/// Whether a library view is one that is browsed.
pub open spec fn view_kept(d: BaseItemDto) -> bool {
    view_library_type(opt_view(d.collection_type)) is Some
}

/// `sec` is library view `d` as a section.
pub open spec fn view_section_of(d: BaseItemDto, sec: LibrarySection) -> bool {
    &&& view_library_type(opt_view(d.collection_type)) == Some(sec.library_type)
    &&& sec.key@ == d.id@
    &&& sec.title@ == or_empty(d.name)
    &&& sec.count is None
}

/// Convert the user's library views, keeping the browsed kinds.
pub fn view_sections(views: &[BaseItemDto]) -> (r: Vec<LibrarySection>)
    ensures
        ({
            let k = kept_where(views@, |d: BaseItemDto| view_kept(d));
            &&& r@.len() == k.len()
            &&& forall|i: int| 0 <= i < k.len() ==> view_section_of(k[i], #[trigger] r@[i])
        }),
{
    let ghost p = |d: BaseItemDto| view_kept(d);
    let mut out: Vec<LibrarySection> = Vec::new();
    let mut i: usize = 0;
    while i < views.len()
        invariant
            i <= views.len(),
            p == (|d: BaseItemDto| view_kept(d)),
            out@.len() == kept_where(views@.take(i as int), p).len(),
            forall|j: int|
                0 <= j < out@.len() ==> view_section_of(
                    kept_where(views@.take(i as int), p)[j],
                    #[trigger] out@[j],
                ),
        decreases views.len() - i,
    {
        proof {
            lemma_kept_where_step(views@, p, i as int);
        }
        match user_view_to_section(&views[i]) {
            Some(sec) => {
                let ghost before = out@;
                out.push(sec);
                proof {
                    let k = kept_where(views@.take(i as int + 1), p);
                    assert forall|j: int| 0 <= j < out@.len() implies view_section_of(
                        k[j],
                        #[trigger] out@[j],
                    ) by {
                        if j < before.len() {
                            assert(out@[j] == before[j]);
                        }
                    }
                }
            },
            None => {},
        }
        i = i + 1;
    }
    assert(views@.take(views.len() as int) =~= views@);
    out
}

// --- Hubs -------------------------------------------------------------------------

/// `out` is the discovery row titled `title` for the items `fetched`.
pub open spec fn hub_of(title: Seq<char>, identifier: Seq<char>, fetched: Seq<BaseItemDto>, source_id: Seq<char>, out: MediaHub) -> bool {
    &&& out.title@ == title
    &&& opt_view(out.hub_identifier) == Some(identifier)
    &&& jellyfin_items_of(fetched, source_id, None, out.items@)
}

/// The items a fetch yielded: none when it failed.
pub open spec fn fetched_items(fetched: Option<Vec<BaseItemDto>>) -> Seq<BaseItemDto> {
    match fetched {
        Some(v) => v@,
        None => Seq::empty(),
    }
}

/// Whether a fetch yields a non-empty row.
pub open spec fn row_shown(fetched: Option<Vec<BaseItemDto>>) -> bool {
    kept_where(fetched_items(fetched), |d: BaseItemDto| jellyfin_listed(d)).len() > 0
}

/// Append the row for a fetch (`None` when the fetch failed) unless it has no
/// items, so one endpoint missing on an older server leaves the other rows.
pub fn push_hub(
    hubs: &mut Vec<MediaHub>,
    title: &str,
    identifier: &str,
    fetched: &Option<Vec<BaseItemDto>>,
    source_id: &str,
)
    ensures
        row_shown(*fetched) ==> final(hubs)@.len() == old(hubs)@.len() + 1 && final(hubs)@.drop_last()
            == old(hubs)@ && hub_of(
            title@,
            identifier@,
            fetched_items(*fetched),
            source_id@,
            final(hubs)@.last(),
        ),
        !row_shown(*fetched) ==> final(hubs)@ == old(hubs)@,
{
    let items = match fetched {
        Some(v) => convert_items(v.as_slice(), source_id, None),
        None => {
            let empty: Vec<BaseItemDto> = Vec::new();
            let r = convert_items(empty.as_slice(), source_id, None);
            assert(empty@ =~= fetched_items(*fetched));
            r
        },
    };
    if items.len() > 0 {
        hubs.push(MediaHub { title: owned(title), hub_identifier: Some(owned(identifier)), items });
        assert(hubs@.drop_last() =~= old(hubs)@);
    }
}

/// The discovery rows, in order Latest, Next Up, Suggested, each left out when
/// its fetch failed or yielded no items.
pub fn discovery_hubs(
    latest: &Option<Vec<BaseItemDto>>,
    next_up: &Option<Vec<BaseItemDto>>,
    suggestions: &Option<Vec<BaseItemDto>>,
    source_id: &str,
) -> (r: Vec<MediaHub>)
    ensures
        r@.len() == (if row_shown(*latest) {
            1int
        } else {
            0
        }) + (if row_shown(*next_up) {
            1int
        } else {
            0
        }) + (if row_shown(*suggestions) {
            1int
        } else {
            0
        }),
        row_shown(*latest) ==> hub_of(
            "Latest"@,
            "jellyfin.latest"@,
            fetched_items(*latest),
            source_id@,
            r@[0],
        ),
        row_shown(*next_up) ==> hub_of(
            "Next Up"@,
            "jellyfin.nextup"@,
            fetched_items(*next_up),
            source_id@,
            r@[if row_shown(*latest) {
                1int
            } else {
                0
            }],
        ),
        row_shown(*suggestions) ==> hub_of(
            "Suggested"@,
            "jellyfin.suggestions"@,
            fetched_items(*suggestions),
            source_id@,
            r@[r@.len() - 1],
        ),
{
    let mut hubs: Vec<MediaHub> = Vec::new();
    push_hub(&mut hubs, "Latest", "jellyfin.latest", latest, source_id);
    let ghost h1 = hubs@;
    push_hub(&mut hubs, "Next Up", "jellyfin.nextup", next_up, source_id);
    let ghost h2 = hubs@;
    push_hub(&mut hubs, "Suggested", "jellyfin.suggestions", suggestions, source_id);
    proof {
        if row_shown(*latest) {
            assert(h1[0] == h1.last());
            assert(h2[0] == h1[0]) by {
                if row_shown(*next_up) {
                    assert(h2.drop_last()[0] == h2[0]);
                }
            }
            assert(hubs@[0] == h2[0]) by {
                if row_shown(*suggestions) {
                    assert(hubs@.drop_last()[0] == hubs@[0]);
                }
            }
        }
        if row_shown(*next_up) {
            let ix = if row_shown(*latest) {
                1int
            } else {
                0
            };
            assert(h2[ix] == h2.last());
            assert(hubs@[ix] == h2[ix]) by {
                if row_shown(*suggestions) {
                    assert(hubs@.drop_last()[ix] == hubs@[ix]);
                }
            }
        }
    }
    hubs
}

// --- Children ---------------------------------------------------------------------

/// Which listing gives an item's children.
#[derive(Debug, Clone, PartialEq)]
pub enum ChildrenListing {
    /// The seasons of the series.
    Seasons { series_id: String },
    /// The episodes of the season, within its series.
    Episodes { series_id: String, season_id: String },
    /// The item has no children to list.
    Nothing,
}

/// A series lists its seasons; a season lists its episodes (its series id
/// being empty when unknown); anything else has no children.
pub fn children_listing(rating_key: &str, item: &BaseItemDto) -> (r: ChildrenListing)
    ensures
        opt_view(item.type_) == Some("Series"@) ==> (r matches ChildrenListing::Seasons {
            series_id,
        } && series_id@ == rating_key@),
        opt_view(item.type_) == Some("Season"@) ==> (r matches ChildrenListing::Episodes {
            series_id,
            season_id,
        } && series_id@ == or_empty(item.series_id) && season_id@ == rating_key@),
        opt_view(item.type_) != Some("Series"@) && opt_view(item.type_) != Some("Season"@) ==> r
            is Nothing,
{
    proof {
        reveal_strlit("Series");
        reveal_strlit("Season");
        assert("Series"@[3] != "Season"@[3]);
    }
    match &item.type_ {
        Some(t) => {
            if str_eq(t.as_str(), "Series") {
                ChildrenListing::Seasons { series_id: owned(rating_key) }
            } else if str_eq(t.as_str(), "Season") {
                let series_id = match &item.series_id {
                    Some(s) => s.clone(),
                    None => String::new(),
                };
                ChildrenListing::Episodes { series_id, season_id: owned(rating_key) }
            } else {
                ChildrenListing::Nothing
            }
        },
        None => ChildrenListing::Nothing,
    }
}

} // verus!
