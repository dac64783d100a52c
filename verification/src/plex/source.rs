//! What the Plex media source computes around its API calls: the request
//! URLs, the item lists it hands out (unsupported kinds dropped, optionally
//! stamped with the library they were listed from), the home hubs, and the
//! download descriptor of an item.

use vstd::prelude::*;
use crate::media::{kept_where, lemma_kept_where_step, LibrarySection, MediaHub, MediaItem};
use crate::media_source::{DownloadDescriptor, SourceError};
use crate::plex::convert::{
    plex_item_fields, plex_library_to_section, plex_media_type, plex_metadata_to_media_item,
};
use crate::plex::models::{PlexHub, PlexLibrary, PlexMetadata};
use crate::plex::transcode::{playback_url, playback_url_spec};
use crate::media::library_type_from_plex;
use crate::text::{clone_opt, int_digits, opt_view, owned, push_int};

verus! {

// --- Request URLs -----------------------------------------------------------------

/// A Plex API request.
#[derive(Debug, Clone, PartialEq)]
pub enum PlexEndpoint {
    /// The server root, which names the server.
    Identity,
    Libraries,
    LibraryItems(String),
    Metadata(String),
    Children(String),
    Chapters(String),
    Collections(String),
    CollectionItems(String),
    OnDeck,
    RecentlyAdded,
    RecentlyAddedInLibrary(String),
    Hubs,
    Timeline { rating_key: String, state: String, time_ms: i64, duration_ms: i64 },
    Scrobble(String),
    Unscrobble(String),
}

/// The path and query of a request, after the base URL.
pub open spec fn endpoint_path(e: PlexEndpoint) -> Seq<char> {
    match e {
        PlexEndpoint::Identity => "/"@,
        PlexEndpoint::Libraries => "/library/sections"@,
        PlexEndpoint::LibraryItems(k) => "/library/sections/"@ + k@ + "/all"@,
        PlexEndpoint::Metadata(k) => "/library/metadata/"@ + k@,
        PlexEndpoint::Children(k) => "/library/metadata/"@ + k@ + "/children"@,
        PlexEndpoint::Chapters(k) => "/library/metadata/"@ + k@ + "/chapters"@,
        PlexEndpoint::Collections(k) => "/library/sections/"@ + k@ + "/collections"@,
        PlexEndpoint::CollectionItems(k) => "/library/collections/"@ + k@ + "/children"@,
        PlexEndpoint::OnDeck => "/library/onDeck"@,
        PlexEndpoint::RecentlyAdded => "/library/recentlyAdded"@,
        PlexEndpoint::RecentlyAddedInLibrary(k) => "/library/sections/"@ + k@ + "/recentlyAdded"@,
        PlexEndpoint::Hubs => "/hubs"@,
        PlexEndpoint::Timeline { rating_key, state, time_ms, duration_ms } => "/:/timeline?ratingKey="@
            + rating_key@ + "&key=/library/metadata/"@ + rating_key@ + "&state="@ + state@
            + "&time="@ + int_digits(time_ms as int) + "&duration="@ + int_digits(
            duration_ms as int,
        ) + "&identifier=com.plexapp.plugins.library"@,
        PlexEndpoint::Scrobble(k) => "/:/scrobble?key="@ + k@
            + "&identifier=com.plexapp.plugins.library"@,
        PlexEndpoint::Unscrobble(k) => "/:/unscrobble?key="@ + k@
            + "&identifier=com.plexapp.plugins.library"@,
    }
}

/// The URL of a request against the server at `base` (already without a
/// trailing `/`).
pub fn endpoint_url(base: &str, e: &PlexEndpoint) -> (r: String)
    ensures
        r@ == base@ + endpoint_path(*e),
{
    let mut s = owned(base);
    match e {
        PlexEndpoint::Identity => s.append("/"),
        PlexEndpoint::Libraries => s.append("/library/sections"),
        PlexEndpoint::LibraryItems(k) => {
            s.append("/library/sections/");
            s.append(k.as_str());
            s.append("/all");
        },
        PlexEndpoint::Metadata(k) => {
            s.append("/library/metadata/");
            s.append(k.as_str());
        },
        PlexEndpoint::Children(k) => {
            s.append("/library/metadata/");
            s.append(k.as_str());
            s.append("/children");
        },
        PlexEndpoint::Chapters(k) => {
            s.append("/library/metadata/");
            s.append(k.as_str());
            s.append("/chapters");
        },
        PlexEndpoint::Collections(k) => {
            s.append("/library/sections/");
            s.append(k.as_str());
            s.append("/collections");
        },
        PlexEndpoint::CollectionItems(k) => {
            s.append("/library/collections/");
            s.append(k.as_str());
            s.append("/children");
        },
        PlexEndpoint::OnDeck => s.append("/library/onDeck"),
        PlexEndpoint::RecentlyAdded => s.append("/library/recentlyAdded"),
        PlexEndpoint::RecentlyAddedInLibrary(k) => {
            s.append("/library/sections/");
            s.append(k.as_str());
            s.append("/recentlyAdded");
        },
        PlexEndpoint::Hubs => s.append("/hubs"),
        PlexEndpoint::Timeline { rating_key, state, time_ms, duration_ms } => {
            s.append("/:/timeline?ratingKey=");
            s.append(rating_key.as_str());
            s.append("&key=/library/metadata/");
            s.append(rating_key.as_str());
            s.append("&state=");
            s.append(state.as_str());
            s.append("&time=");
            push_int(&mut s, *time_ms);
            s.append("&duration=");
            push_int(&mut s, *duration_ms);
            s.append("&identifier=com.plexapp.plugins.library");
        },
        PlexEndpoint::Scrobble(k) => {
            s.append("/:/scrobble?key=");
            s.append(k.as_str());
            s.append("&identifier=com.plexapp.plugins.library");
        },
        PlexEndpoint::Unscrobble(k) => {
            s.append("/:/unscrobble?key=");
            s.append(k.as_str());
            s.append("&identifier=com.plexapp.plugins.library");
        },
    }
    assert(s@ =~= base@ + endpoint_path(*e));
    s
}

/// The headers of every request to a Plex server: JSON answers, the product
/// identity, the fixed client identifier of the server client, and the token.
pub open spec fn client_headers_spec(token: Seq<char>) -> Seq<(Seq<char>, Seq<char>)> {
    seq![
        ("Accept"@, "application/json"@),
        ("X-Plex-Product"@, "Reel"@),
        ("X-Plex-Version"@, "0.1.0"@),
        ("X-Plex-Client-Identifier"@, "reel-media-player"@),
        ("X-Plex-Token"@, token),
    ]
}

/// The default headers of the server client, as `(name, value)` pairs; a
/// token the HTTP layer cannot carry is left out there.
pub fn client_headers(token: &str) -> (r: Vec<(String, String)>)
    ensures
        r@.map_values(|p: (String, String)| (p.0@, p.1@)) == client_headers_spec(token@),
{
    let mut v: Vec<(String, String)> = Vec::new();
    v.push((owned("Accept"), owned("application/json")));
    v.push((owned("X-Plex-Product"), owned("Reel")));
    v.push((owned("X-Plex-Version"), owned("0.1.0")));
    v.push((owned("X-Plex-Client-Identifier"), owned("reel-media-player")));
    v.push((owned("X-Plex-Token"), owned(token)));
    assert(v@.map_values(|p: (String, String)| (p.0@, p.1@)) =~= client_headers_spec(token@));
    v
}

// --- Item lists -------------------------------------------------------------------

/// Whether an item kind is one the library models.
pub open spec fn plex_listed(m: PlexMetadata) -> bool {
    plex_media_type(m.metadata_type@) is Some
}

/// `it` is the listed item for `m`: converted as `plex_item` says, its
/// library section being `tag` when given and `m`'s own otherwise.
pub open spec fn plex_listed_item(m: PlexMetadata, source_id: Seq<char>, tag: Option<Seq<char>>, it: MediaItem) -> bool {
    &&& plex_media_type(m.metadata_type@) == Some(it.media_type)
    &&& plex_item_fields(m, source_id, it.media_type, it)
    &&& opt_view(it.library_section_id) == match tag {
        Some(t) => Some(t),
        None => opt_view(m.library_section_id),
    }
}

/// `out` lists, in order, the modelled items of `ms`.
pub open spec fn plex_items_of(ms: Seq<PlexMetadata>, source_id: Seq<char>, tag: Option<Seq<char>>, out: Seq<MediaItem>) -> bool {
    let k = kept_where(ms, |m: PlexMetadata| plex_listed(m));
    &&& out.len() == k.len()
    &&& forall|i: int| 0 <= i < k.len() ==> plex_listed_item(k[i], source_id, tag, #[trigger] out[i])
}

/// Convert a list of Plex metadata, dropping kinds the library does not
/// model; with `library_key`, every item is stamped with that library (list
/// payloads leave the section out).
pub fn plex_items(metadata: &[PlexMetadata], source_id: &str, library_key: Option<&str>) -> (r: Vec<MediaItem>)
    ensures
        plex_items_of(
            metadata@,
            source_id@,
            match library_key {
                Some(k) => Some(k@),
                None => None,
            },
            r@,
        ),
{
    let ghost tag = match library_key {
        Some(k) => Some(k@),
        None => None::<Seq<char>>,
    };
    let ghost p = |m: PlexMetadata| plex_listed(m);
    let mut out: Vec<MediaItem> = Vec::new();
    let mut i: usize = 0;
    while i < metadata.len()
        invariant
            i <= metadata.len(),
            tag == match library_key {
                Some(k) => Some(k@),
                None => None::<Seq<char>>,
            },
            p == (|m: PlexMetadata| plex_listed(m)),
            plex_items_of(metadata@.take(i as int), source_id@, tag, out@),
        decreases metadata.len() - i,
    {
        proof {
            lemma_kept_where_step(metadata@, p, i as int);
        }
        let ghost before = out@;
        match plex_metadata_to_media_item(&metadata[i], source_id) {
            Some(mut it) => {
                match library_key {
                    Some(k) => {
                        it.library_section_id = Some(owned(k));
                    },
                    None => {},
                }
                out.push(it);
                proof {
                    let k = kept_where(metadata@.take(i as int + 1), p);
                    assert forall|j: int| 0 <= j < k.len() implies plex_listed_item(
                        k[j],
                        source_id@,
                        tag,
                        #[trigger] out@[j],
                    ) by {
                        if j < before.len() {
                            assert(out@[j] == before[j]);
                        }
                    }
                }
            },
            None => {},
        }
        i = i + 1;
    }
    assert(metadata@.take(metadata.len() as int) =~= metadata@);
    out
}

/// Whether a hub keeps at least one modelled item.
pub open spec fn plex_hub_kept(h: PlexHub) -> bool {
    kept_where(h.metadata@, |m: PlexMetadata| plex_listed(m)).len() > 0
}

/// `out` is hub `h` with its items converted.
pub open spec fn plex_hub_of(h: PlexHub, source_id: Seq<char>, out: MediaHub) -> bool {
    &&& out.title@ == h.title@
    &&& opt_view(out.hub_identifier) == opt_view(h.hub_identifier)
    &&& plex_items_of(h.metadata@, source_id, None, out.items@)
}

/// Convert the home hubs, dropping every hub left without items (so the home
/// view never shows an empty shelf).
pub fn plex_hubs(hubs: &[PlexHub], source_id: &str) -> (r: Vec<MediaHub>)
    ensures
        ({
            let k = kept_where(hubs@, |h: PlexHub| plex_hub_kept(h));
            &&& r@.len() == k.len()
            &&& forall|i: int| 0 <= i < k.len() ==> plex_hub_of(k[i], source_id@, #[trigger] r@[i])
        }),
{
    let ghost p = |h: PlexHub| plex_hub_kept(h);
    let mut out: Vec<MediaHub> = Vec::new();
    let mut i: usize = 0;
    while i < hubs.len()
        invariant
            i <= hubs.len(),
            p == (|h: PlexHub| plex_hub_kept(h)),
            out@.len() == kept_where(hubs@.take(i as int), p).len(),
            forall|j: int|
                0 <= j < out@.len() ==> plex_hub_of(
                    kept_where(hubs@.take(i as int), p)[j],
                    source_id@,
                    #[trigger] out@[j],
                ),
        decreases hubs.len() - i,
    {
        proof {
            lemma_kept_where_step(hubs@, p, i as int);
        }
        let h = &hubs[i];
        let items = plex_items(h.metadata.as_slice(), source_id, None);
        if items.len() > 0 {
            let ghost before = out@;
            out.push(
                MediaHub {
                    title: h.title.clone(),
                    hub_identifier: clone_opt(&h.hub_identifier),
                    items,
                },
            );
            proof {
                let k = kept_where(hubs@.take(i as int + 1), p);
                assert forall|j: int| 0 <= j < out@.len() implies plex_hub_of(
                    k[j],
                    source_id@,
                    #[trigger] out@[j],
                ) by {
                    if j < before.len() {
                        assert(out@[j] == before[j]);
                    }
                }
            }
        }
        i = i + 1;
    }
    assert(hubs@.take(hubs.len() as int) =~= hubs@);
    out
}

/// Whether a library section is one that is browsed.
pub open spec fn plex_section_kept(l: PlexLibrary) -> bool {
    library_type_from_plex(l.library_type@) is Some
}

/// `sec` is library `l` as a section.
pub open spec fn plex_section_of(l: PlexLibrary, sec: LibrarySection) -> bool {
    &&& library_type_from_plex(l.library_type@) == Some(sec.library_type)
    &&& sec.key@ == l.key@
    &&& sec.title@ == l.title@
    &&& sec.count == l.item_count
}

/// Convert the library sections, keeping those that are browsed (movies and
/// shows).
pub fn plex_sections(libs: &[PlexLibrary]) -> (r: Vec<LibrarySection>)
    ensures
        ({
            let k = kept_where(libs@, |l: PlexLibrary| plex_section_kept(l));
            &&& r@.len() == k.len()
            &&& forall|i: int| 0 <= i < k.len() ==> plex_section_of(k[i], #[trigger] r@[i])
        }),
{
    let ghost p = |l: PlexLibrary| plex_section_kept(l);
    let mut out: Vec<LibrarySection> = Vec::new();
    let mut i: usize = 0;
    while i < libs.len()
        invariant
            i <= libs.len(),
            p == (|l: PlexLibrary| plex_section_kept(l)),
            out@.len() == kept_where(libs@.take(i as int), p).len(),
            forall|j: int|
                0 <= j < out@.len() ==> plex_section_of(
                    kept_where(libs@.take(i as int), p)[j],
                    #[trigger] out@[j],
                ),
        decreases libs.len() - i,
    {
        proof {
            lemma_kept_where_step(libs@, p, i as int);
        }
        match plex_library_to_section(&libs[i]) {
            Some(sec) => {
                let ghost before = out@;
                out.push(sec);
                proof {
                    let k = kept_where(libs@.take(i as int + 1), p);
                    assert forall|j: int| 0 <= j < out@.len() implies plex_section_of(
                        k[j],
                        #[trigger] out@[j],
                    ) by {
                        if j < before.len() {
                            assert(out@[j] == before[j]);
                        }
                    }
                }
            },
            None => {},
        }
        i = i + 1;
    }
    assert(libs@.take(libs.len() as int) =~= libs@);
    out
}

// --- Downloads --------------------------------------------------------------------

/// How to download an item's original file: its non-empty part key rebuilt
/// into the raw-file URL; an item without one has nothing to download.
pub fn plex_download_descriptor(base: &str, token: &str, item: &MediaItem) -> (r: Result<
    DownloadDescriptor,
    SourceError,
>)
    ensures
        match r {
            Ok(d) => item.file_path matches Some(p) && p@.len() > 0 && d.part_key@ == p@ && d.url@
                == playback_url_spec(base@, p@, token@) && d.expected_size is None,
            Err(e) => (item.file_path is None || item.file_path.unwrap()@.len() == 0) && (e matches SourceError::NotFound(
                m,
            ) && m@ == "No downloadable file for item "@ + item.id@),
        },
{
    match &item.file_path {
        Some(p) => {
            if p.as_str().unicode_len() > 0 {
                return Ok(
                    DownloadDescriptor {
                        url: playback_url(base, p.as_str(), token),
                        part_key: p.clone(),
                        expected_size: None,
                    },
                );
            }
        },
        None => {},
    }
    let mut msg = owned("No downloadable file for item ");
    msg.append(item.id.as_str());
    Err(SourceError::NotFound(msg))
}

} // verus!
