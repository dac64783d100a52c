use reel::media::{MediaItem, MediaType, SourceType};
use reel::visibility::retain_visible_items;

fn item(source_id: &str, section: Option<&str>) -> MediaItem {
    MediaItem {
        id: format!("plex:{source_id}:x"),
        source_type: SourceType::Plex,
        source_id: source_id.to_string(),
        external_id: "x".to_string(),
        media_type: MediaType::Movie,
        title: "X".to_string(),
        year: None,
        overview: None,
        content_rating: None,
        rating: None,
        runtime_minutes: None,
        poster_path: None,
        series_poster_path: None,
        backdrop_path: None,
        genres: vec![],
        parent_id: None,
        season_number: None,
        episode_number: None,
        air_date: None,
        file_path: None,
        video_resolution: None,
        hdr: None,
        added_at: String::new(),
        updated_at: String::new(),
        playback_position_ms: None,
        watched: false,
        library_section_id: section.map(String::from),
    }
}

fn hidden(keys: &[&str]) -> Vec<String> {
    keys.iter().map(|s| s.to_string()).collect()
}

#[test]
fn empty_hidden_set_returns_all() {
    let items = vec![item("srv", Some("1")), item("srv", Some("2"))];
    let out = retain_visible_items(items, &Vec::new());
    assert_eq!(out.len(), 2);
}

#[test]
fn drops_items_from_hidden_library() {
    let items = vec![item("srv", Some("1")), item("srv", Some("2"))];
    let out = retain_visible_items(items, &hidden(&["plex:srv:2"]));
    assert_eq!(out.len(), 1);
    assert_eq!(out[0].library_section_id, Some("1".to_string()));
}

#[test]
fn keeps_items_with_no_section() {
    let items = vec![item("srv", None), item("srv", Some("2"))];
    let out = retain_visible_items(items, &hidden(&["plex:srv:2"]));
    assert_eq!(out.len(), 1);
    assert_eq!(out[0].library_section_id, None);
}

#[test]
fn visibility_is_source_scoped() {
    let items = vec![item("srvA", Some("2")), item("srvB", Some("2"))];
    let out = retain_visible_items(items, &hidden(&["plex:srvA:2"]));
    assert_eq!(out.len(), 1);
    assert_eq!(out[0].source_id, "srvB");
}

#[test]
fn order_of_visible_items_is_kept() {
    let items = vec![item("a", Some("1")), item("b", Some("9")), item("c", Some("1")), item("d", None)];
    let out = retain_visible_items(items, &hidden(&["plex:b:9"]));
    let ids: Vec<&str> = out.iter().map(|i| i.source_id.as_str()).collect();
    assert_eq!(ids, vec!["a", "c", "d"]);
}
