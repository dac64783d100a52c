use reel::jellyfin::api::{
    artwork_ids, artwork_url, base_url_of, client_authorization, download_descriptor, image_url,
    playback_ids, playback_url, stream_url,
};
use reel::jellyfin::auth::{device_auth_header, initiate_codes};
use reel::jellyfin::models::QuickConnectResult;
use reel::media::{MediaItem, MediaType, SourceType};
use reel::media_source::SourceError;

const BASE: &str = "http://localhost:8096";

#[test]
fn base_url_strips_trailing_slash() {
    assert_eq!(base_url_of("http://localhost:8096/"), "http://localhost:8096");
    assert_eq!(base_url_of("http://localhost:8096//"), "http://localhost:8096");
    assert_eq!(base_url_of("http://localhost:8096"), "http://localhost:8096");
}

#[test]
fn stream_url_appends_api_key_and_static() {
    let url = stream_url(BASE, "item9", "src5", "test-token");
    assert!(url.contains("/Videos/item9/stream"));
    assert!(url.contains("static=true"));
    assert!(url.contains("mediaSourceId=src5"));
    assert!(url.contains("api_key=test-token"));
    assert_eq!(url, "http://localhost:8096/Videos/item9/stream?static=true&mediaSourceId=src5&api_key=test-token");
}

#[test]
fn image_url_includes_tag_and_fill() {
    let url = image_url(BASE, "item9", "Primary", Some("tagX"), Some(300), Some(450), "test-token");
    assert!(url.contains("/Items/item9/Images/Primary"));
    assert!(url.contains("tag=tagX"));
    assert!(url.contains("fillWidth=300"));
    assert!(url.contains("fillHeight=450"));
    assert!(url.contains("api_key=test-token"));
    assert_eq!(
        url,
        "http://localhost:8096/Items/item9/Images/Primary?tag=tagX&fillWidth=300&fillHeight=450&api_key=test-token"
    );
}

#[test]
fn image_url_without_options_carries_only_the_token() {
    let url = image_url(BASE, "i", "Logo", None, None, None, "t");
    assert_eq!(url, "http://localhost:8096/Items/i/Images/Logo?api_key=t");
}

#[test]
fn client_authorization_carries_token_and_device() {
    let h = client_authorization("tok", "dev1");
    assert_eq!(
        h,
        "MediaBrowser Token=\"tok\", Client=\"Reel\", Device=\"Reel\", DeviceId=\"dev1\", Version=\"0.1.0\""
    );
}

#[test]
fn device_auth_header_has_no_token() {
    let h = device_auth_header("dev123");
    assert!(h.starts_with("MediaBrowser"));
    assert!(h.contains("DeviceId=\"dev123\""));
    assert!(h.contains("Client=\"Reel\""));
    assert!(!h.contains("Token="));
}

#[test]
fn playback_url_splits_composite() {
    let url = playback_url(BASE, "token", "item9|src5");
    assert!(url.contains("/Videos/item9/stream"));
    assert!(url.contains("mediaSourceId=src5"));
}

#[test]
fn playback_url_without_pipe_uses_whole_as_both() {
    let url = playback_url(BASE, "token", "item9");
    assert!(url.contains("/Videos/item9/stream"));
    assert!(url.contains("mediaSourceId=item9"));
}

#[test]
fn playback_ids_split_at_first_pipe_only() {
    assert_eq!(playback_ids("a|b|c"), ("a".to_string(), "b|c".to_string()));
    assert_eq!(playback_ids("|x"), ("".to_string(), "x".to_string()));
}

#[test]
fn artwork_url_parses_descriptor() {
    let url = artwork_url(BASE, "token", "item9/Primary/tagX", 300, 450);
    assert!(url.contains("/Items/item9/Images/Primary"));
    assert!(url.contains("tag=tagX"));
    assert!(url.contains("fillWidth=300"));
    assert!(url.contains("fillHeight=450"));
}

#[test]
fn artwork_url_best_effort_for_bare_id() {
    let url = artwork_url(BASE, "token", "item9", 300, 450);
    assert!(url.contains("/Items/item9/Images/Primary"));
    assert!(!url.contains("tag="));
}

#[test]
fn artwork_ids_keep_slashes_in_the_tag() {
    assert_eq!(
        artwork_ids("a/Backdrop/t/u"),
        ("a".to_string(), "Backdrop".to_string(), Some("t/u".to_string()))
    );
    assert_eq!(artwork_ids("a/Logo"), ("a".to_string(), "Logo".to_string(), None));
}

#[test]
fn quick_connect_initiate_needs_code_and_secret() {
    let both = QuickConnectResult { code: Some("C".into()), secret: Some("S".into()), authenticated: false };
    assert_eq!(initiate_codes(both), Some(("C".to_string(), "S".to_string())));
    let missing = QuickConnectResult { code: Some("C".into()), secret: None, authenticated: false };
    assert_eq!(initiate_codes(missing), None);
}

fn item_with_file(file: Option<&str>) -> MediaItem {
    MediaItem {
        id: "jellyfin:srv:x".to_string(),
        source_type: SourceType::Jellyfin,
        source_id: "srv".to_string(),
        external_id: "x".to_string(),
        media_type: MediaType::Movie,
        title: "X".to_string(),
        year: None,
        overview: None,
        content_rating: None,
        rating: None,
        runtime_minutes: None,
        poster_path: None,
        series_poster_path: None,
        backdrop_path: None,
        genres: vec![],
        parent_id: None,
        season_number: None,
        episode_number: None,
        air_date: None,
        file_path: file.map(String::from),
        video_resolution: None,
        hdr: None,
        added_at: String::new(),
        updated_at: String::new(),
        playback_position_ms: None,
        watched: false,
        library_section_id: None,
    }
}

#[test]
fn download_descriptor_builds_static_url_from_composite_key() {
    let d = download_descriptor(BASE, "tok", &item_with_file(Some("item9|src5"))).unwrap();
    assert_eq!(d.part_key, "item9|src5");
    assert!(d.url.contains("/Videos/item9/stream?static=true&mediaSourceId=src5"));
    assert_eq!(d.expected_size, None);
}

#[test]
fn download_descriptor_errors_when_no_file_path() {
    let e = download_descriptor(BASE, "tok", &item_with_file(None)).unwrap_err();
    assert_eq!(e, SourceError::NotFound("No downloadable file for item jellyfin:srv:x".to_string()));
    assert!(download_descriptor(BASE, "tok", &item_with_file(Some(""))).is_err());
}
