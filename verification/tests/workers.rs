use reel::keyed::KeyedList;
use reel::media::{MediaItem, MediaType, SourceType};
use reel::workers::{
    connection_test_output, credentials_found, download_output, index_outcome, reauth_output,
    search_cache_key, thumbnail_output, ConnectionMonitor, ConnectionWorker,
    ConnectionWorkerAction, ConnectionWorkerInput, ConnectionWorkerOutput, ImageWorker,
    ImageWorkerAction, ImageWorkerInput, ImageWorkerOutput, SearchStep, SearchWorker, SearchWorkerAction, SearchWorkerInput,
    SearchWorkerOutput, SyncWorker, SyncWorkerAction, SyncWorkerInput, SyncWorkerOutput,
    INDEX_WARM_ITEMS,
};

fn item(title: &str) -> MediaItem {
    MediaItem {
        id: format!("plex:srv:{title}"),
        source_type: SourceType::Plex,
        source_id: "srv".to_string(),
        external_id: title.to_string(),
        media_type: MediaType::Movie,
        title: title.to_string(),
        year: None,
        overview: None,
        content_rating: None,
        rating: None,
        runtime_minutes: None,
        poster_path: None,
        series_poster_path: None,
        backdrop_path: None,
        genres: vec![],
        parent_id: None,
        season_number: None,
        episode_number: None,
        air_date: None,
        file_path: None,
        video_resolution: None,
        hdr: None,
        added_at: "0".to_string(),
        updated_at: "0".to_string(),
        playback_position_ms: None,
        watched: false,
        library_section_id: None,
    }
}

#[test]
fn keyed_list_set_get_replace() {
    let mut m: KeyedList<u32> = KeyedList::new();
    assert_eq!(m.get("a"), None);
    m.set("a", 1);
    m.set("b", 2);
    m.set("a", 3);
    assert_eq!(m.len(), 2);
    assert_eq!(m.get("a"), Some(&3));
    assert_eq!(m.get("b"), Some(&2));
    m.clear();
    assert_eq!(m.len(), 0);
    assert_eq!(m.get("b"), None);
}

#[test]
fn search_cache_key_format() {
    assert_eq!(search_cache_key("matrix", Some("lib1")), "matrix__lib1");
    assert_eq!(search_cache_key("matrix", None), "matrix__all");
}

#[test]
fn uncached_search_asks_for_the_query() {
    let w = SearchWorker::new();
    assert_eq!(
        w.search("alien", None, Some(2)),
        SearchStep::QueryDatabase { cache_key: "alien__all".to_string() }
    );
}

#[test]
fn query_result_is_cached_and_limited() {
    let mut w = SearchWorker::new();
    let found = vec![item("a"), item("b"), item("c")];
    let out = w.searched("x".to_string(), "x__all", Ok(found.clone()), Some(2));
    assert_eq!(
        out,
        SearchWorkerOutput::SearchResults {
            query: "x".to_string(),
            results: vec![item("a"), item("b")],
            total_count: 3
        }
    );
    // A repeated search is answered from the cache, with the full count.
    match w.search("x", None, Some(1)) {
        SearchStep::Answer(SearchWorkerOutput::SearchResults { query, results, total_count }) => {
            assert_eq!(query, "x");
            assert_eq!(results, vec![item("a")]);
            assert_eq!(total_count, 3);
        }
        other => panic!("unexpected {other:?}"),
    }
    match w.search("x", None, None) {
        SearchStep::Answer(SearchWorkerOutput::SearchResults { results, .. }) => {
            assert_eq!(results, found);
        }
        other => panic!("unexpected {other:?}"),
    }
}

#[test]
fn failed_query_caches_nothing() {
    let mut w = SearchWorker::new();
    let out = w.searched("x".to_string(), "x__all", Err("db locked".to_string()), None);
    assert_eq!(
        out,
        SearchWorkerOutput::SearchFailed { query: "x".to_string(), error: "db locked".to_string() }
    );
    assert!(matches!(w.search("x", None, None), SearchStep::QueryDatabase { .. }));
}

#[test]
fn clearing_the_cache_forgets_results() {
    let mut w = SearchWorker::new();
    w.searched("x".to_string(), "x__lib", Ok(vec![item("a")]), None);
    assert!(matches!(w.search("x", Some("lib"), None), SearchStep::Answer(_)));
    assert_eq!(w.clear_cache(), SearchWorkerOutput::CacheCleared);
    assert!(matches!(w.search("x", Some("lib"), None), SearchStep::QueryDatabase { .. }));
}

#[test]
fn index_outcomes() {
    assert_eq!(INDEX_WARM_ITEMS, 100);
    assert_eq!(
        index_outcome("lib".to_string(), Ok(12)),
        Some(SearchWorkerOutput::IndexBuilt("lib".to_string()))
    );
    assert_eq!(index_outcome("lib".to_string(), Err("no db".to_string())), None);
}

#[test]
fn start_runs_a_sync_when_idle() {
    let mut w = SyncWorker::new();
    assert_eq!(
        w.update(SyncWorkerInput::StartSync { source_id: "s1".to_string() }),
        SyncWorkerAction::RunSync("s1".to_string())
    );
    assert_eq!(w.update(SyncWorkerInput::GetProgress), SyncWorkerAction::Nothing);
    assert_eq!(w.update(SyncWorkerInput::CancelSync), SyncWorkerAction::Nothing);
}

#[test]
fn running_sync_refuses_another_and_reports_progress() {
    let mut w = SyncWorker::new();
    let started: SyncWorkerOutput<u32> = w.begin_sync("s1");
    assert_eq!(started, SyncWorkerOutput::SyncStarted("s1".to_string()));
    assert_eq!(
        w.update(SyncWorkerInput::StartSync { source_id: "s2".to_string() }),
        SyncWorkerAction::Nothing
    );
    assert_eq!(w.update(SyncWorkerInput::GetProgress), SyncWorkerAction::FetchProgress("s1".to_string()));
    assert_eq!(w.progress_output(Ok(40u32)), Some(SyncWorkerOutput::Progress("s1".to_string(), 40)));
    assert_eq!(w.progress_output::<u32>(Err("gone".to_string())), None);
}

#[test]
fn finished_sync_reports_counts() {
    let mut w = SyncWorker::new();
    let _: SyncWorkerOutput<u32> = w.begin_sync("s1");
    let done: SyncWorkerOutput<u32> = w.finish_sync("s1", Ok((2, 57)));
    assert_eq!(done, SyncWorkerOutput::SyncCompleted("s1".to_string(), 2, 57));
    assert_eq!(w.progress_output(Ok(1u32)), None);
}

#[test]
fn cancelled_sync_reports_cancellation() {
    let mut w = SyncWorker::new();
    let _: SyncWorkerOutput<u32> = w.begin_sync("s1");
    w.update(SyncWorkerInput::CancelSync);
    let done: SyncWorkerOutput<u32> = w.finish_sync("s1", Ok((2, 57)));
    assert_eq!(done, SyncWorkerOutput::SyncCancelled("s1".to_string()));
}

#[test]
fn failed_sync_reports_error_even_when_cancelled() {
    let mut w = SyncWorker::new();
    let _: SyncWorkerOutput<u32> = w.begin_sync("s1");
    w.update(SyncWorkerInput::CancelSync);
    let done: SyncWorkerOutput<u32> = w.finish_sync("s1", Err("offline".to_string()));
    assert_eq!(done, SyncWorkerOutput::SyncFailed("s1".to_string(), "offline".to_string()));
}

#[test]
fn connection_test_reports() {
    assert_eq!(
        connection_test_output("s".to_string(), Ok(true)),
        ConnectionWorkerOutput::ConnectionStatus { source_id: "s".to_string(), is_connected: true, error: None }
    );
    assert_eq!(
        connection_test_output("s".to_string(), Err("dns".to_string())),
        ConnectionWorkerOutput::ConnectionStatus {
            source_id: "s".to_string(),
            is_connected: false,
            error: Some("dns".to_string())
        }
    );
    assert_eq!(
        reauth_output("s".to_string(), Ok(())),
        ConnectionWorkerOutput::ReauthResult { source_id: "s".to_string(), success: true, error: None }
    );
    assert_eq!(
        reauth_output("s".to_string(), Err("denied".to_string())),
        ConnectionWorkerOutput::ReauthResult {
            source_id: "s".to_string(),
            success: false,
            error: Some("denied".to_string())
        }
    );
}

#[test]
fn monitoring_flags() {
    let mut w = ConnectionWorker::new();
    assert!(!w.is_monitoring("s"));
    w.set_monitoring("s", true);
    assert!(w.is_monitoring("s"));
    w.set_monitoring("s", false);
    assert!(!w.is_monitoring("s"));
}

#[test]
fn monitor_reports_only_changes() {
    let mut m = ConnectionMonitor::new();
    assert_eq!(m.observe("s", Ok(false)), None);
    assert_eq!(
        m.observe("s", Ok(true)),
        Some(ConnectionWorkerOutput::ConnectionChanged { source_id: "s".to_string(), is_connected: true })
    );
    assert_eq!(m.observe("s", Ok(true)), None);
    assert_eq!(
        m.observe("s", Err("timeout".to_string())),
        Some(ConnectionWorkerOutput::ConnectionChanged { source_id: "s".to_string(), is_connected: false })
    );
    assert!(!m.last_status);
}

#[test]
fn monitoring_needs_credentials() {
    assert!(credentials_found::<u8>(&Ok(Some(1))));
    assert!(!credentials_found::<u8>(&Ok(None)));
    assert!(!credentials_found::<u8>(&Err("io".to_string())));
}

#[test]
fn image_loads_are_noted_and_cleared() {
    let mut w = ImageWorker::new();
    assert_eq!(w.pending_url("p1"), None);
    w.load_requested("p1", "http://h/a.jpg".to_string());
    w.load_requested("p1", "http://h/b.jpg".to_string());
    assert_eq!(w.pending_url("p1"), Some(&"http://h/b.jpg".to_string()));
    assert_eq!(w.clear_cache(), ImageWorkerOutput::CacheCleared);
    assert_eq!(w.pending_url("p1"), None);
}

#[test]
fn image_reports() {
    assert_eq!(
        download_output("p1".to_string(), Ok(vec![1, 2, 3]), "/c/x.jpg".to_string()),
        ImageWorkerOutput::ImageLoaded {
            id: "p1".to_string(),
            data: vec![1, 2, 3],
            path: Some("/c/x.jpg".to_string())
        }
    );
    assert_eq!(
        download_output("p1".to_string(), Err("404".to_string()), "/c/x.jpg".to_string()),
        ImageWorkerOutput::LoadFailed { id: "p1".to_string(), error: "404".to_string() }
    );
    assert_eq!(
        thumbnail_output("p1".to_string(), Ok(()), "/c/t.jpg".to_string()),
        ImageWorkerOutput::ThumbnailGenerated { id: "p1".to_string(), path: "/c/t.jpg".to_string() }
    );
    assert_eq!(
        thumbnail_output("p1".to_string(), Err("bad image".to_string()), "/c/t.jpg".to_string()),
        ImageWorkerOutput::LoadFailed { id: "p1".to_string(), error: "bad image".to_string() }
    );
}

#[test]
fn search_requests_are_handed_out_and_clear_is_immediate() {
    let mut w = SearchWorker::new();
    assert_eq!(
        w.update(SearchWorkerInput::Search { query: "q".to_string(), library_id: None, limit: Some(5) }),
        SearchWorkerAction::Search { query: "q".to_string(), library_id: None, limit: Some(5) }
    );
    assert_eq!(
        w.update(SearchWorkerInput::BuildIndex("lib".to_string())),
        SearchWorkerAction::BuildIndex("lib".to_string())
    );
    w.searched("q".to_string(), "q__all", Ok(vec![item("a")]), None);
    assert_eq!(
        w.update(SearchWorkerInput::ClearCache),
        SearchWorkerAction::Report(SearchWorkerOutput::CacheCleared)
    );
    assert!(matches!(w.search("q", None, None), SearchStep::QueryDatabase { .. }));
}

#[test]
fn connection_requests() {
    let mut w = ConnectionWorker::new();
    assert_eq!(
        w.update(ConnectionWorkerInput::TestConnection { source_id: "s".to_string() }),
        ConnectionWorkerAction::Test("s".to_string())
    );
    assert_eq!(
        w.update(ConnectionWorkerInput::StartMonitoring { source_id: "s".to_string(), interval_ms: 30000 }),
        ConnectionWorkerAction::Monitor { source_id: "s".to_string(), interval_ms: 30000 }
    );
    w.set_monitoring("s", true);
    assert_eq!(w.update(ConnectionWorkerInput::StopMonitoring("s".to_string())), ConnectionWorkerAction::Nothing);
    assert!(!w.is_monitoring("s"));
    assert_eq!(
        w.update(ConnectionWorkerInput::Reauth { source_id: "s".to_string() }),
        ConnectionWorkerAction::Reauth("s".to_string())
    );
}

#[test]
fn image_requests_are_handed_out() {
    let mut w = ImageWorker::new();
    assert_eq!(
        w.update(ImageWorkerInput::LoadImage { id: "p".to_string(), url: "http://h/a.jpg".to_string(), cache_path: None }),
        ImageWorkerAction::Load { id: "p".to_string(), url: "http://h/a.jpg".to_string(), cache_path: None }
    );
    assert_eq!(w.pending_url("p"), Some(&"http://h/a.jpg".to_string()));
    assert_eq!(
        w.update(ImageWorkerInput::GenerateThumbnail { id: "t".to_string(), source_path: "/x/a.png".to_string(), width: 200, height: 300 }),
        ImageWorkerAction::Thumbnail { id: "t".to_string(), source_path: "/x/a.png".to_string(), width: 200, height: 300 }
    );
    assert_eq!(w.update(ImageWorkerInput::ClearCache), ImageWorkerAction::Report(ImageWorkerOutput::CacheCleared));
    assert_eq!(w.pending_url("p"), None);
}
