use reel::media::SourceType;
use reel::source_coordinator::{
    connection_status_for, failed_sync, fixed_source, readiness_for, should_sync, sync_result_for,
    ConnectionProbe, ConnectionRound, ConnectionStatus, ProviderKind, SourceReadiness,
    LOCAL_SOURCE_NAME,
};

#[test]
fn initialised_backend_with_client_is_connected() {
    assert_eq!(connection_status_for(Ok(()), true), ConnectionStatus::Connected);
}

#[test]
fn initialised_backend_without_client_needs_auth() {
    assert_eq!(connection_status_for(Ok(()), false), ConnectionStatus::NeedsAuth);
}

#[test]
fn failed_initialisation_keeps_the_error() {
    assert_eq!(
        connection_status_for(Err("connection refused".to_string()), true),
        ConnectionStatus::Error("connection refused".to_string())
    );
}

#[test]
fn only_connected_sources_are_synced() {
    assert!(should_sync(&ConnectionStatus::Connected));
    assert!(!should_sync(&ConnectionStatus::Offline));
    assert!(!should_sync(&ConnectionStatus::NeedsAuth));
    assert!(!should_sync(&ConnectionStatus::Error("x".to_string())));
}

#[test]
fn sync_result_counts_every_listed_library() {
    let r = sync_result_for("src1", Ok(4));
    assert_eq!(r.source_id, "src1");
    assert!(r.success);
    assert_eq!(r.libraries_synced, 4);
    assert_eq!(r.error, None);
}

#[test]
fn sync_result_of_failed_listing() {
    let r = sync_result_for("src1", Err("timeout".to_string()));
    assert!(!r.success);
    assert_eq!(r.libraries_synced, 0);
    assert_eq!(r.error, Some("timeout".to_string()));
    assert_eq!(failed_sync("src1", "timeout".to_string()), r);
}

#[test]
fn jellyfin_provider_stands_for_one_source() {
    let kind = ProviderKind::JellyfinAuth { server_url: "https://jf.example".to_string() };
    let s = fixed_source("p7", &kind).unwrap();
    assert_eq!(s.id, "source_p7");
    assert_eq!(s.name, "Jellyfin - https://jf.example");
    assert_eq!(s.source_type, SourceType::Jellyfin);
}

#[test]
fn local_provider_stands_for_local_files() {
    let s = fixed_source("local1", &ProviderKind::LocalFiles).unwrap();
    assert_eq!(s.id, "source_local1");
    assert_eq!(s.name, "Local Files");
    assert_eq!(LOCAL_SOURCE_NAME, "Local Files");
    assert_eq!(s.source_type, SourceType::Local);
}

#[test]
fn plex_and_network_providers_have_no_fixed_source() {
    assert_eq!(fixed_source("p", &ProviderKind::PlexAccount), None);
    assert_eq!(fixed_source("p", &ProviderKind::NetworkCredentials), None);
}

#[test]
fn probe_outcomes_give_readiness() {
    assert_eq!(readiness_for(ConnectionProbe::Failed), SourceReadiness::PlaybackReady);
    assert_eq!(
        readiness_for(ConnectionProbe::Reached { initialized: true, playback_ready: true, libraries: Some(3) }),
        SourceReadiness::Connected { library_count: 3 }
    );
    assert_eq!(
        readiness_for(ConnectionProbe::Reached { initialized: true, playback_ready: false, libraries: None }),
        SourceReadiness::Connected { library_count: 0 }
    );
    assert_eq!(
        readiness_for(ConnectionProbe::Reached { initialized: false, playback_ready: true, libraries: Some(3) }),
        SourceReadiness::PlaybackReady
    );
    assert_eq!(
        readiness_for(ConnectionProbe::Reached { initialized: false, playback_ready: false, libraries: None }),
        SourceReadiness::Unavailable
    );
}

#[test]
fn readiness_predicates() {
    assert!(SourceReadiness::Connected { library_count: 0 }.is_playable());
    assert!(SourceReadiness::Connected { library_count: 0 }.is_fully_connected());
    assert!(SourceReadiness::PlaybackReady.is_playable());
    assert!(!SourceReadiness::PlaybackReady.is_fully_connected());
    assert!(!SourceReadiness::Unavailable.is_playable());
}

#[test]
fn empty_round_is_neither_connected_nor_all_connected() {
    let r = ConnectionRound::new();
    assert!(!r.any_connected());
    assert!(!r.all_connected());
    assert_eq!(r.len(), 0);
}

#[test]
fn round_tracks_playable_and_full_connection() {
    let mut r = ConnectionRound::new();
    r.record("a", SourceReadiness::Connected { library_count: 2 });
    assert!(r.any_connected());
    assert!(r.all_connected());
    r.record("b", SourceReadiness::PlaybackReady);
    assert!(r.any_connected());
    assert!(!r.all_connected());
    assert_eq!(r.len(), 2);
}

#[test]
fn later_report_replaces_earlier_one() {
    let mut r = ConnectionRound::new();
    r.record("a", SourceReadiness::Unavailable);
    r.record("b", SourceReadiness::Connected { library_count: 1 });
    r.record("a", SourceReadiness::Connected { library_count: 5 });
    assert_eq!(r.len(), 2);
    assert_eq!(r.readiness("a"), Some(SourceReadiness::Connected { library_count: 5 }));
    assert_eq!(r.readiness("b"), Some(SourceReadiness::Connected { library_count: 1 }));
    assert_eq!(r.readiness("c"), None);
    assert!(r.all_connected());
}

#[test]
fn unavailable_sources_do_not_make_a_round_connected() {
    let mut r = ConnectionRound::new();
    r.record("a", SourceReadiness::Unavailable);
    assert!(!r.any_connected());
    assert!(!r.all_connected());
}

#[test]
fn playable_report_stays_counted_after_replacement() {
    let mut r = ConnectionRound::new();
    r.record("a", SourceReadiness::PlaybackReady);
    r.record("a", SourceReadiness::Unavailable);
    assert!(r.any_connected());
    assert_eq!(r.readiness("a"), Some(SourceReadiness::Unavailable));
}

#[test]
fn registered_source_starts_without_libraries() {
    let s = reel::source_coordinator::registered_status(
        "s1".to_string(),
        "Home Server".to_string(),
        SourceType::Plex,
        Err("unreachable".to_string()),
        false,
    );
    assert_eq!(s.source_id, "s1");
    assert_eq!(s.source_name, "Home Server");
    assert_eq!(s.source_type, SourceType::Plex);
    assert_eq!(s.connection_status, ConnectionStatus::Error("unreachable".to_string()));
    assert_eq!(s.library_count, 0);
}

#[test]
fn cached_sources_are_listed_without_libraries() {
    let s = reel::source_coordinator::cached_source_info("s1", "Home", "PlexServer", true);
    assert_eq!(s.id, "s1");
    assert_eq!(s.name, "Home");
    assert_eq!(s.source_type, "PlexServer");
    assert!(s.libraries.is_empty());
    assert!(s.is_enabled);
    assert_eq!(s.connection_status, "Cached");
    assert_eq!(reel::source_coordinator::CACHED_STATUS, "Cached");
}

#[test]
fn stored_credentials_make_playback_ready() {
    assert!(!reel::source_coordinator::playback_ready_from_credentials(0));
    assert!(reel::source_coordinator::playback_ready_from_credentials(2));
}
