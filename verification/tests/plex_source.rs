use reel::jellyfin::api::base_url_of;
use reel::media::{LibraryType, MediaItem, MediaType, SourceType};
use reel::media_source::SourceError;
use reel::plex::error::{check_status, plex_source_error, status_outcome, transcode_source_error, PlexError};
use reel::plex::models::{PlexHub, PlexLibrary, PlexMetadata};
use reel::plex::source::{endpoint_url, plex_download_descriptor, plex_hubs, plex_items, plex_sections, PlexEndpoint};
use reel::plex::transcode::{lifecycle_url, ping_outcome, playback_url, stop_outcome, transcode_image_url, TranscodeError};

const BASE: &str = "http://localhost:32400";

fn meta(rating_key: &str, kind: &str) -> PlexMetadata {
    PlexMetadata {
        rating_key: rating_key.to_string(),
        title: format!("Item {rating_key}"),
        metadata_type: kind.to_string(),
        year: None,
        summary: None,
        content_rating: None,
        rating: None,
        duration: None,
        thumb: None,
        art: None,
        added_at: None,
        updated_at: None,
        parent_rating_key: None,
        grandparent_rating_key: None,
        parent_index: None,
        index: None,
        originally_available_at: None,
        parent_thumb: None,
        grandparent_thumb: None,
        library_section_id: Some("9".to_string()),
        view_offset: None,
        view_count: None,
        last_viewed_at: None,
        genres: vec![],
        roles: vec![],
        directors: vec![],
        writers: vec![],
        collections: vec![],
        media: vec![],
    }
}

fn item_with_file(id: &str, file_path: Option<&str>) -> MediaItem {
    MediaItem {
        id: id.to_string(),
        source_type: SourceType::Plex,
        source_id: "http://localhost:32400".to_string(),
        external_id: "456".to_string(),
        media_type: MediaType::Movie,
        title: "Dune".to_string(),
        year: Some(2021),
        overview: None,
        content_rating: None,
        rating: None,
        runtime_minutes: Some(155),
        poster_path: None,
        series_poster_path: None,
        backdrop_path: None,
        genres: vec![],
        parent_id: None,
        season_number: None,
        episode_number: None,
        air_date: None,
        file_path: file_path.map(String::from),
        video_resolution: None,
        hdr: None,
        added_at: "2026-01-01".to_string(),
        updated_at: "2026-01-01".to_string(),
        playback_position_ms: None,
        watched: false,
        library_section_id: None,
    }
}

#[test]
fn playback_url_format() {
    let base = base_url_of("http://192.168.1.100:32400");
    let url = playback_url(&base, "/library/parts/456/file.mkv", "my-token");
    assert_eq!(
        url,
        "http://192.168.1.100:32400/library/parts/456/file.mkv?download=1&X-Plex-Token=my-token"
    );
}

#[test]
fn playback_url_strips_trailing_slash_from_base() {
    let base = base_url_of("http://localhost:32400/");
    let url = playback_url(&base, "/library/parts/1/file.mkv", "token");
    assert!(url.starts_with("http://localhost:32400/library/parts/"));
    assert!(!url.contains("//library"));
}

#[test]
fn transcode_image_url_format() {
    let base = base_url_of("http://localhost:32400");
    let url = transcode_image_url(&base, "/library/metadata/123/thumb/1234", 300, 450, "my-token");
    assert!(url.contains("width=300"));
    assert!(url.contains("height=450"));
    assert!(url.contains("X-Plex-Token=my-token"));
    assert!(url.contains("/photo/:/transcode"));
}

#[test]
fn base_url_getter() {
    assert_eq!(base_url_of("http://localhost:32400/"), "http://localhost:32400");
}

#[test]
fn plex_source_playback_url() {
    let url = playback_url(BASE, "/library/parts/456/file.mkv", "token");
    assert!(url.contains("/library/parts/456/file.mkv"));
    assert!(url.contains("X-Plex-Token=token"));
}

#[test]
fn plex_download_descriptor_has_download_url_and_part_key() {
    let item = item_with_file("plex:srv:456", Some("/library/parts/456/file.mkv"));
    let desc = plex_download_descriptor(BASE, "token", &item).unwrap();
    assert!(desc.url.contains("download=1"));
    assert!(desc.url.contains("X-Plex-Token=token"));
    assert_eq!(desc.part_key, "/library/parts/456/file.mkv");
    assert_eq!(desc.expected_size, None);
}

#[test]
fn plex_download_descriptor_errors_without_file() {
    let item = item_with_file("plex:srv:456", None);
    let result = plex_download_descriptor(BASE, "token", &item);
    assert!(matches!(result, Err(SourceError::NotFound(_))));
}

#[test]
fn plex_source_artwork_url() {
    let url = transcode_image_url(BASE, "/library/metadata/123/thumb/1", 300, 450, "token");
    assert!(url.contains("width=300"));
    assert!(url.contains("height=450"));
}

#[test]
fn download_descriptor_rejects_empty_part_key() {
    let item = item_with_file("plex:srv:456", Some(""));
    match plex_download_descriptor(BASE, "token", &item) {
        Err(SourceError::NotFound(m)) => assert_eq!(m, "No downloadable file for item plex:srv:456"),
        other => panic!("unexpected {other:?}"),
    }
}

#[test]
fn plex_endpoint_urls_match_the_server_api() {
    assert_eq!(endpoint_url(BASE, &PlexEndpoint::Identity), "http://localhost:32400/");
    assert_eq!(endpoint_url(BASE, &PlexEndpoint::Libraries), "http://localhost:32400/library/sections");
    assert_eq!(
        endpoint_url(BASE, &PlexEndpoint::LibraryItems("1".into())),
        "http://localhost:32400/library/sections/1/all"
    );
    assert_eq!(
        endpoint_url(BASE, &PlexEndpoint::Children("7".into())),
        "http://localhost:32400/library/metadata/7/children"
    );
    assert_eq!(
        endpoint_url(BASE, &PlexEndpoint::CollectionItems("5".into())),
        "http://localhost:32400/library/collections/5/children"
    );
    assert_eq!(endpoint_url(BASE, &PlexEndpoint::Hubs), "http://localhost:32400/hubs");
    assert_eq!(
        endpoint_url(
            BASE,
            &PlexEndpoint::Timeline {
                rating_key: "123".into(),
                state: "playing".into(),
                time_ms: 45000,
                duration_ms: 7200000,
            }
        ),
        "http://localhost:32400/:/timeline?ratingKey=123&key=/library/metadata/123&state=playing&time=45000&duration=7200000&identifier=com.plexapp.plugins.library"
    );
    assert_eq!(
        endpoint_url(BASE, &PlexEndpoint::Scrobble("123".into())),
        "http://localhost:32400/:/scrobble?key=123&identifier=com.plexapp.plugins.library"
    );
    assert_eq!(
        endpoint_url(BASE, &PlexEndpoint::Unscrobble("123".into())),
        "http://localhost:32400/:/unscrobble?key=123&identifier=com.plexapp.plugins.library"
    );
}

#[test]
fn items_drop_unsupported_kinds_and_keep_order() {
    let ms = vec![meta("1", "movie"), meta("2", "artist"), meta("3", "show"), meta("4", "photo")];
    let items = plex_items(&ms, BASE, None);
    assert_eq!(items.len(), 2);
    assert_eq!(items[0].external_id, "1");
    assert_eq!(items[1].external_id, "3");
    assert_eq!(items[0].library_section_id.as_deref(), Some("9"));
}

#[test]
fn items_listed_from_a_library_are_stamped_with_it() {
    let ms = vec![meta("1", "movie"), meta("3", "show")];
    let items = plex_items(&ms, BASE, Some("42"));
    assert!(items.iter().all(|i| i.library_section_id.as_deref() == Some("42")));
}

#[test]
fn hubs_drop_empty_rows() {
    let hubs = vec![
        PlexHub {
            title: "Recently Added".into(),
            hub_identifier: Some("home.recent".into()),
            hub_type: None,
            metadata: vec![meta("1", "movie")],
        },
        PlexHub {
            title: "Music".into(),
            hub_identifier: Some("home.music".into()),
            hub_type: None,
            metadata: vec![meta("2", "artist")],
        },
        PlexHub { title: "Empty".into(), hub_identifier: None, hub_type: None, metadata: vec![] },
    ];
    let out = plex_hubs(&hubs, BASE);
    assert_eq!(out.len(), 1);
    assert_eq!(out[0].title, "Recently Added");
    assert_eq!(out[0].hub_identifier.as_deref(), Some("home.recent"));
    assert_eq!(out[0].items.len(), 1);
}

#[test]
fn sections_keep_movies_and_shows() {
    let libs = vec![
        PlexLibrary { key: "1".into(), title: "Movies".into(), library_type: "movie".into(), item_count: Some(3) },
        PlexLibrary { key: "2".into(), title: "Music".into(), library_type: "artist".into(), item_count: None },
        PlexLibrary { key: "3".into(), title: "TV".into(), library_type: "show".into(), item_count: None },
    ];
    let secs = plex_sections(&libs);
    assert_eq!(secs.len(), 2);
    assert_eq!(secs[0].key, "1");
    assert_eq!(secs[0].library_type, LibraryType::Movie);
    assert_eq!(secs[1].key, "3");
}

#[test]
fn plex_status_classification() {
    assert_eq!(check_status(200), Ok(()));
    assert_eq!(check_status(204), Ok(()));
    assert_eq!(check_status(401), Err(PlexError::Unauthorized));
    assert_eq!(check_status(404), Err(PlexError::NotFound("Resource not found".into())));
    assert_eq!(
        check_status(500),
        Err(PlexError::Server { status: 500, message: "Internal Server Error".into() })
    );
    assert_eq!(
        check_status(599),
        Err(PlexError::Server { status: 599, message: "Unknown error".into() })
    );
    assert_eq!(
        status_outcome(503, Some("Busy")),
        Err(PlexError::Server { status: 503, message: "Busy".into() })
    );
}

#[test]
fn plex_errors_map_to_source_errors() {
    assert_eq!(
        plex_source_error(PlexError::Unauthorized),
        SourceError::Auth("Invalid or expired Plex token".into())
    );
    assert_eq!(plex_source_error(PlexError::NotFound("gone".into())), SourceError::NotFound("gone".into()));
    assert_eq!(plex_source_error(PlexError::Http("reset".into())), SourceError::Connection("reset".into()));
    assert_eq!(
        plex_source_error(PlexError::Deserialize("eof".into())),
        SourceError::Other("Parse error: eof".into())
    );
    assert_eq!(
        plex_source_error(PlexError::Server { status: 500, message: "boom".into() }),
        SourceError::Other("Server error 500: boom".into())
    );
    assert_eq!(
        PlexError::Server { status: 500, message: "boom".into() }.message(),
        "Server error: 500 - boom"
    );
}

#[test]
fn transcode_errors_map_to_source_errors() {
    assert_eq!(
        transcode_source_error(TranscodeError::Timeout),
        SourceError::Connection("transcode decision timed out".into())
    );
    assert_eq!(
        transcode_source_error(TranscodeError::Request("reset".into())),
        SourceError::Connection("transcode decision request failed: reset".into())
    );
    assert_eq!(
        transcode_source_error(TranscodeError::Server { status: 500 }),
        SourceError::Other("transcode decision server error: HTTP 500".into())
    );
    assert_eq!(
        transcode_source_error(TranscodeError::NoDecision),
        SourceError::Other("transcode decision response had no decision field".into())
    );
}

#[test]
fn session_lifecycle() {
    assert_eq!(stop_outcome(200), None);
    assert_eq!(stop_outcome(404), None);
    assert_eq!(stop_outcome(500), Some(TranscodeError::Server { status: 500 }));
    assert_eq!(ping_outcome(200), Ok(()));
    assert_eq!(ping_outcome(404), Err(TranscodeError::Server { status: 404 }));
    let url = lifecycle_url(BASE, "tok", "stop", "abc").unwrap();
    assert_eq!(url, "http://localhost:32400/video/:/transcode/universal/stop?session=abc&X-Plex-Token=tok");
}
