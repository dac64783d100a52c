use reel::sync_plan::{
    begin_backend_sync, SyncEvent,
    home_sections_key, item_key, libraries_key, library_items_key, missing_source_message, plan_library_items,
    syncing_library_label, SyncFailure, SyncItemKind, SyncOutcome, SyncTally, SyncedItem,
};

fn item(id: &str, kind: SyncItemKind) -> SyncedItem {
    SyncedItem { id: id.to_string(), kind }
}

#[test]
fn cache_keys() {
    assert_eq!(home_sections_key("plex_1"), "plex_1:home_sections");
    assert_eq!(libraries_key("plex_1"), "plex_1:libraries");
    assert_eq!(library_items_key("plex_1", "7"), "plex_1:library:7:items");
    assert_eq!(item_key("plex_1", "7", SyncItemKind::MusicAlbum, "42"), "plex_1:7:album:42");
    assert_eq!(item_key("b", "l", SyncItemKind::Episode, "e1"), "b:l:episode:e1");
}

#[test]
fn plan_marks_only_uncached_items_new() {
    let items = vec![
        item("1", SyncItemKind::Movie),
        item("2", SyncItemKind::Show),
        item("3", SyncItemKind::Movie),
    ];
    let existing = vec!["2".to_string(), "9".to_string()];
    let plan = plan_library_items("b", "lib", &items, &existing);
    assert_eq!(plan.cache_keys, vec!["b:lib:movie:1", "b:lib:show:2", "b:lib:movie:3"]);
    assert_eq!(plan.new_items, vec![0, 2]);
    let again = plan_library_items("b", "lib", &items, &vec!["1".into(), "2".into(), "3".into()]);
    assert!(again.new_items.is_empty());
}

#[test]
fn tally_completes_without_failures() {
    let mut t = SyncTally::new();
    t.add_synced(3);
    t.add_synced(1);
    assert_eq!(t.outcome(), SyncOutcome::Completed { items_synced: 4 });
}

#[test]
fn tally_fails_with_joined_messages() {
    let mut t = SyncTally::new();
    t.add_synced(2);
    t.record(&SyncFailure::CacheLibrary { id: "7".into(), error: "disk full".into() });
    t.record(&SyncFailure::SyncLibrary { title: "Movies".into(), error: "timeout".into() });
    assert_eq!(t.items_synced(), 2);
    assert_eq!(t.errors().len(), 2);
    assert_eq!(
        t.outcome(),
        SyncOutcome::Failed { error: "Failed to cache library 7: disk full, Failed to sync library Movies: timeout".into() }
    );
}

#[test]
fn failure_messages() {
    assert_eq!(SyncFailure::CacheHomeSections("x".into()).message(), "Failed to cache home sections: x");
    assert_eq!(SyncFailure::CacheLibraryList("x".into()).message(), "Failed to cache library list: x");
    assert_eq!(SyncFailure::FetchLibraries("x".into()).message(), "Failed to fetch libraries: x");
    assert_eq!(
        missing_source_message("b1"),
        "Source b1 does not exist in database - sources must be created during authentication, not during sync"
    );
    assert_eq!(syncing_library_label("TV"), "Syncing library: TV");
}

#[test]
fn backend_sync_needs_its_source() {
    assert!(begin_backend_sync("plex_1", true).is_ok());
    match begin_backend_sync("plex_1", false) {
        Err(m) => assert_eq!(m, missing_source_message("plex_1")),
        Ok(_) => panic!("a missing source must stop the sync"),
    }
}

#[test]
fn backend_sync_steps_count_and_collect_failures() {
    let mut t = begin_backend_sync("plex_1", true).unwrap();
    t.apply(SyncEvent::HomeSectionsStored { count: 4, stored: Ok(()) });
    t.apply(SyncEvent::LibraryStored { id: "1".into(), stored: Ok(()) });
    t.apply(SyncEvent::LibraryStored { id: "2".into(), stored: Err("disk full".into()) });
    t.apply(SyncEvent::LibraryListStored(Ok(())));
    t.apply(SyncEvent::LibrarySynced { title: "Movies".into(), synced: Ok(()) });
    t.apply(SyncEvent::LibrarySynced { title: "Shows".into(), synced: Err("timeout".into()) });
    assert_eq!(t.items_synced(), 6);
    assert_eq!(
        t.outcome(),
        SyncOutcome::Failed { error: "Failed to cache library 2: disk full, Failed to sync library Shows: timeout".into() }
    );
}

#[test]
fn unavailable_home_sections_are_no_failure() {
    let mut t = begin_backend_sync("b", true).unwrap();
    t.apply(SyncEvent::HomeSectionsUnavailable);
    t.apply(SyncEvent::HomeSectionsStored { count: 2, stored: Err("locked".into()) });
    t.apply(SyncEvent::LibrariesFetchFailed("offline".into()));
    assert_eq!(t.items_synced(), 0);
    assert_eq!(
        t.outcome(),
        SyncOutcome::Failed { error: "Failed to cache home sections: locked, Failed to fetch libraries: offline".into() }
    );
    let mut u = begin_backend_sync("b", true).unwrap();
    u.apply(SyncEvent::HomeSectionsUnavailable);
    u.apply(SyncEvent::LibraryListStored(Ok(())));
    assert_eq!(u.outcome(), SyncOutcome::Completed { items_synced: 0 });
}
