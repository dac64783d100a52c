use reel::media::{MediaHub, MediaItem, MediaType, SourceType};
use reel::session_cache::{
    diff_items, invalidation_for, CacheInvalidation, CachedHome, SessionContentCache,
    SourceSetEvent, DEFAULT_LIBRARY_CAPACITY,
};

fn item(id: &str) -> MediaItem {
    MediaItem {
        id: id.to_string(),
        source_type: SourceType::Plex,
        source_id: "srv".into(),
        external_id: id.to_string(),
        media_type: MediaType::Movie,
        title: id.to_string(),
        year: None,
        overview: None,
        content_rating: None,
        rating: None,
        runtime_minutes: None,
        poster_path: None,
        series_poster_path: None,
        backdrop_path: None,
        genres: Vec::new(),
        parent_id: None,
        season_number: None,
        episode_number: None,
        air_date: None,
        file_path: None,
        video_resolution: None,
        hdr: None,
        added_at: String::new(),
        updated_at: String::new(),
        playback_position_ms: None,
        watched: false,
        library_section_id: None,
    }
}

fn items(ids: &[&str]) -> Vec<MediaItem> {
    ids.iter().map(|i| item(i)).collect()
}

fn home(key: &str) -> CachedHome {
    CachedHome {
        source_set_key: key.into(),
        continue_watching: Vec::new(),
        recently_added: Vec::new(),
        collections: Vec::new(),
        hubs: Vec::new(),
        epoch: 0,
    }
}

#[test]
fn put_then_get_returns_stored_items() {
    let mut c = SessionContentCache::new();
    c.put_library("plex:srv:1", items(&["a", "b"]));
    let got = c.get_library("plex:srv:1").expect("hit");
    assert_eq!(got.len(), 2);
    assert_eq!(got[0].id, "a");
}

#[test]
fn get_missing_library_returns_none() {
    let mut c = SessionContentCache::new();
    assert!(c.get_library("plex:srv:absent").is_none());
}

#[test]
fn empty_successful_fetch_is_a_valid_hit() {
    let mut c = SessionContentCache::new();
    c.put_library("plex:srv:empty", Vec::new());
    assert!(c.get_library("plex:srv:empty").is_some());
    assert_eq!(c.get_library("plex:srv:empty").unwrap().len(), 0);
}

#[test]
fn over_capacity_put_evicts_least_recently_used() {
    let mut c = SessionContentCache::with_capacity(3);
    c.put_library("k1", items(&["a"]));
    c.put_library("k2", items(&["b"]));
    c.put_library("k3", items(&["c"]));
    c.put_library("k4", items(&["d"]));
    assert_eq!(c.library_len(), 3);
    assert!(!c.contains_library("k1"));
    assert!(c.contains_library("k4"));
}

#[test]
fn get_refreshes_recency_so_touched_entry_survives() {
    let mut c = SessionContentCache::with_capacity(3);
    c.put_library("k1", items(&["a"]));
    c.put_library("k2", items(&["b"]));
    c.put_library("k3", items(&["c"]));
    let _ = c.get_library("k1");
    c.put_library("k4", items(&["d"]));
    assert!(c.contains_library("k1"), "touched entry should survive");
    assert!(!c.contains_library("k2"), "k2 is now LRU and evicted");
}

#[test]
fn interleaved_recency_evicts_correct_victim() {
    let mut c = SessionContentCache::with_capacity(3);
    c.put_library("a", items(&["a"]));
    c.put_library("b", items(&["b"]));
    c.put_library("c", items(&["c"]));
    let _ = c.get_library("a");
    let _ = c.get_library("b");
    c.put_library("d", items(&["d"]));
    assert!(!c.contains_library("c"));
    assert!(c.contains_library("a") && c.contains_library("b") && c.contains_library("d"));
    let _ = c.get_library("d");
    c.put_library("e", items(&["e"]));
    assert!(!c.contains_library("a"));
    assert!(c.contains_library("b") && c.contains_library("d") && c.contains_library("e"));
}

#[test]
fn home_slot_never_evicted_by_library_pressure() {
    let mut c = SessionContentCache::with_capacity(2);
    c.set_home(home("plex:srv"));
    for n in 0..10 {
        c.put_library(&format!("k{n}"), items(&["x"]));
    }
    assert_eq!(c.library_len(), 2);
    assert!(c.get_home("plex:srv").is_some(), "Home survives churn");
}

#[test]
fn invalidate_source_drops_only_matching_prefix() {
    let mut c = SessionContentCache::with_capacity(10);
    c.put_library("plex:srvA:1", items(&["a"]));
    c.put_library("plex:srvA:2", items(&["b"]));
    c.put_library("plex:srvB:1", items(&["c"]));
    c.invalidate_source("plex:srvA:");
    assert!(!c.contains_library("plex:srvA:1"));
    assert!(!c.contains_library("plex:srvA:2"));
    assert!(c.contains_library("plex:srvB:1"), "other source untouched");
    c.put_library("plex:srvB:2", items(&["d"]));
    assert_eq!(c.library_len(), 2);
}

#[test]
fn source_set_key_stable_under_reorder_changes_on_membership() {
    let a = SessionContentCache::source_set_key(&[
        (SourceType::Plex, "1".into()),
        (SourceType::Jellyfin, "2".into()),
    ]);
    let b = SessionContentCache::source_set_key(&[
        (SourceType::Jellyfin, "2".into()),
        (SourceType::Plex, "1".into()),
    ]);
    assert_eq!(a, b, "order-independent");
    let c = SessionContentCache::source_set_key(&[(SourceType::Plex, "1".into())]);
    assert_ne!(a, c, "membership change yields a different key");
}

#[test]
fn source_set_key_is_sorted_and_pipe_joined() {
    let k = SessionContentCache::source_set_key(&[
        (SourceType::Plex, "b".into()),
        (SourceType::Jellyfin, "z".into()),
        (SourceType::Plex, "a".into()),
    ]);
    assert_eq!(k, "jellyfin:z|plex:a|plex:b");
    assert_eq!(SessionContentCache::source_set_key(&[]), "");
}

#[test]
fn library_key_joins_type_source_and_section() {
    assert_eq!(SessionContentCache::library_key(SourceType::Jellyfin, "srv", "7"), "jellyfin:srv:7");
}

#[test]
fn get_home_misses_on_changed_source_set() {
    let mut c = SessionContentCache::new();
    c.set_home(home("plex:1"));
    assert!(c.get_home("plex:1").is_some());
    assert!(c.get_home("plex:1|plex:2").is_none(), "different set misses");
}

#[test]
fn re_put_increments_epoch() {
    let mut c = SessionContentCache::new();
    let e1 = c.put_library("k", items(&["a"]));
    let e2 = c.put_library("k", items(&["a"]));
    assert!(e2 > e1, "epoch advances even for identical re-put");
    assert_eq!(c.library_epoch("k"), Some(e2));
}

#[test]
fn set_home_takes_a_fresh_epoch() {
    let mut c = SessionContentCache::new();
    let e = c.put_library("k", items(&["a"]));
    c.set_home(home("plex:1"));
    assert_eq!(c.home_epoch(), Some(e + 1));
    c.invalidate_home();
    assert_eq!(c.home_epoch(), None);
}

#[test]
fn source_set_epoch_advances_on_bump() {
    let mut c = SessionContentCache::new();
    let before = c.source_set_epoch();
    c.bump_source_set_epoch();
    assert!(c.source_set_epoch() > before);
}

#[test]
fn invalidation_map_matches_policy() {
    assert_eq!(
        invalidation_for(SourceSetEvent::SourceAdded),
        CacheInvalidation { home: true, source_libraries: false, bump_source_set_epoch: true }
    );
    assert_eq!(
        invalidation_for(SourceSetEvent::SourceRemoved),
        CacheInvalidation { home: true, source_libraries: true, bump_source_set_epoch: true }
    );
    assert_eq!(invalidation_for(SourceSetEvent::BrowsedSwitched), CacheInvalidation::default());
    assert!(invalidation_for(SourceSetEvent::VisibilityChanged).home);
    assert!(!invalidation_for(SourceSetEvent::VisibilityChanged).bump_source_set_epoch);
}

#[test]
fn browsed_switch_invalidates_nothing() {
    let mut c = SessionContentCache::with_capacity(10);
    c.put_library("plex:srvA:1", items(&["a"]));
    c.put_library("plex:srvB:1", items(&["b"]));
    c.set_home(home("plex:srvA|plex:srvB"));
    c.apply_invalidation(invalidation_for(SourceSetEvent::BrowsedSwitched), None);
    assert!(c.contains_library("plex:srvA:1"));
    assert!(c.contains_library("plex:srvB:1"));
    assert!(c.get_home("plex:srvA|plex:srvB").is_some());
}

#[test]
fn patch_watch_state_updates_library_and_home_entries() {
    let mut c = SessionContentCache::with_capacity(10);
    c.put_library("plex:srv:1", items(&["x", "y"]));
    let mut h = home("plex:srv");
    h.continue_watching = vec![(item("x"), "Plex".into())];
    h.recently_added = vec![("Movies".into(), items(&["x"]))];
    h.hubs = vec![MediaHub { title: "Hub".into(), hub_identifier: None, items: items(&["x", "z"]) }];
    c.set_home(h);
    let touched = c.patch_watch_state("x", true, Some(12_345));
    assert!(touched);
    let lib = c.peek_library("plex:srv:1").unwrap();
    let x = lib.iter().find(|i| i.id == "x").unwrap();
    assert!(x.watched && x.playback_position_ms == Some(12_345));
    assert!(!lib.iter().find(|i| i.id == "y").unwrap().watched);
    let home = c.get_home("plex:srv").unwrap();
    assert!(home.continue_watching[0].0.watched);
    assert!(home.recently_added[0].1[0].watched);
    assert!(home.hubs[0].items[0].watched);
    assert!(!home.hubs[0].items[1].watched);
}

#[test]
fn home_mut_edits_the_cached_home_in_place() {
    let mut c = SessionContentCache::new();
    assert!(c.home_mut().is_none());
    c.set_home(home("plex:1"));
    c.home_mut().unwrap().collections.push(item("c"));
    assert_eq!(c.get_home("plex:1").unwrap().collections.len(), 1);
}

#[test]
fn diff_identical_lists_is_empty() {
    let a = items(&["x", "y", "z"]);
    let b = items(&["x", "y", "z"]);
    assert!(diff_items(&a, &b).is_empty());
}

#[test]
fn diff_detects_add_remove() {
    let old = items(&["x", "y"]);
    let new = items(&["y", "z"]);
    let d = diff_items(&old, &new);
    assert_eq!(d.added, vec!["z"]);
    assert_eq!(d.removed, vec!["x"]);
    assert!(!d.reordered);
}

#[test]
fn diff_detects_watch_only_change() {
    let old = items(&["x"]);
    let mut new = items(&["x"]);
    new[0].watched = true;
    let d = diff_items(&old, &new);
    assert_eq!(d.changed, vec!["x"]);
    assert!(d.added.is_empty() && d.removed.is_empty());
    assert!(!d.is_empty());
}

#[test]
fn diff_detects_reorder_only() {
    let old = items(&["x", "y", "z"]);
    let new = items(&["z", "y", "x"]);
    let d = diff_items(&old, &new);
    assert!(d.reordered);
    assert!(d.added.is_empty() && d.removed.is_empty() && d.changed.is_empty());
    assert!(!d.is_empty());
}

#[test]
fn patch_watch_state_absent_id_touches_nothing() {
    let mut c = SessionContentCache::new();
    c.put_library("plex:srv:1", items(&["x"]));
    assert!(!c.patch_watch_state("absent", true, None));
}

#[test]
fn source_removed_drops_its_libraries_and_home_keeps_others() {
    let mut c = SessionContentCache::with_capacity(10);
    c.put_library("plex:srvA:1", items(&["a"]));
    c.put_library("plex:srvB:1", items(&["b"]));
    c.set_home(home("plex:srvA|plex:srvB"));
    c.apply_invalidation(invalidation_for(SourceSetEvent::SourceRemoved), Some("plex:srvA:"));
    assert!(!c.contains_library("plex:srvA:1"));
    assert!(c.contains_library("plex:srvB:1"), "other source kept");
    assert!(c.get_home("plex:srvA|plex:srvB").is_none(), "Home dropped");
}

#[test]
fn zero_capacity_is_raised_to_one() {
    let mut c = SessionContentCache::with_capacity(0);
    assert_eq!(c.capacity(), 1);
    c.put_library("a", items(&["a"]));
    c.put_library("b", items(&["b"]));
    assert_eq!(c.library_len(), 1);
    assert!(c.contains_library("b"));
    assert_eq!(SessionContentCache::new().capacity(), DEFAULT_LIBRARY_CAPACITY);
}

#[test]
fn write_epochs_strictly_increase() {
    let mut c = SessionContentCache::with_capacity(2);
    let e1 = c.put_library("k1", items(&["a"]));
    c.set_home(home("s"));
    let e2 = c.get_home("s").unwrap().epoch;
    let _ = c.get_library("k1");
    let e3 = c.put_library("k1", items(&["a"]));
    let e4 = c.put_library("k2", items(&["b"]));
    let e5 = c.put_library("k3", items(&["c"]));
    assert!(e1 < e2 && e2 < e3 && e3 < e4 && e4 < e5);
    assert_eq!(c.library_epoch("k3"), Some(e5));
}

#[test]
fn put_library_law_on_a_full_cache() {
    let mut c = SessionContentCache::with_capacity(2);
    c.put_library("k1", items(&["a"]));
    let e2 = c.put_library("k2", items(&["b"]));
    c.set_home(home("s"));
    let home_epoch = c.get_home("s").unwrap().epoch;
    let e3 = c.put_library("k3", items(&["c"]));
    assert_eq!(c.library_len(), 2);
    assert!(!c.contains_library("k1"));
    assert_eq!(c.peek_library("k3").unwrap().len(), 1);
    assert_eq!(c.library_epoch("k3"), Some(e3));
    assert_eq!(c.library_epoch("k2"), Some(e2));
    assert_eq!(c.get_home("s").unwrap().epoch, home_epoch);
    c.put_library("k2", items(&["b", "c"]));
    assert_eq!(c.library_len(), 2);
}

#[test]
fn different_source_sets_give_different_keys() {
    let a = SessionContentCache::source_set_key(&[
        (SourceType::Plex, "a".to_string()),
        (SourceType::Plex, "b".to_string()),
    ]);
    let b = SessionContentCache::source_set_key(&[(SourceType::Plex, "a".to_string())]);
    let c = SessionContentCache::source_set_key(&[
        (SourceType::Plex, "a".to_string()),
        (SourceType::Jellyfin, "b".to_string()),
    ]);
    assert_ne!(a, b);
    assert_ne!(a, c);
    // An id holding the separator can collide, as the key's law excludes.
    let d = SessionContentCache::source_set_key(&[(SourceType::Plex, "a|plex:b".to_string())]);
    assert_eq!(a, d);
}

#[test]
fn reading_a_key_changes_no_lookup() {
    let mut c = SessionContentCache::with_capacity(3);
    let e1 = c.put_library("k1", items(&["a"]));
    let e2 = c.put_library("k2", items(&["b", "c"]));
    let _ = c.get_library("k1");
    let _ = c.get_library("missing");
    assert_eq!(c.library_epoch("k1"), Some(e1));
    assert_eq!(c.library_epoch("k2"), Some(e2));
    assert_eq!(c.peek_library("k2").unwrap().len(), 2);
    assert_eq!(c.library_len(), 2);
    // Reading made k1 most recently used, so k2 is the one evicted next.
    c.put_library("k3", items(&["d"]));
    c.put_library("k4", items(&["e"]));
    assert!(c.contains_library("k1"));
    assert!(!c.contains_library("k2"));
}
