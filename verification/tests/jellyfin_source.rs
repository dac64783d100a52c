use reel::jellyfin::error::{
    check_status, jellyfin_source_error, jellyfin_transcode_source_error, retry_step,
    stop_encoding_outcome, JellyfinError, JellyfinTranscodeError, RetryStep,
};
use reel::jellyfin::models::{BaseItemDto, Ticks};
use reel::jellyfin::sessions::{PlaySessions, ReportPlan};
use reel::jellyfin::source::{
    children_listing, convert_items, discovery_hubs, endpoint_url, view_sections, ChildrenListing,
    JellyfinEndpoint,
};
use reel::media::LibraryType;
use reel::media_source::SourceError;

const BASE: &str = "http://localhost:8096";

fn dto(id: &str, kind: &str) -> BaseItemDto {
    let mut d = BaseItemDto::default();
    d.id = id.to_string();
    d.name = Some(format!("Item {id}"));
    d.type_ = Some(kind.to_string());
    d.parent_id = Some("lib0".to_string());
    d
}

#[test]
fn jellyfin_error_unauthorized_maps_to_auth() {
    let err: SourceError = jellyfin_source_error(JellyfinError::Unauthorized);
    assert!(matches!(err, SourceError::Auth(_)));
}

#[test]
fn jellyfin_error_not_found_maps_to_not_found() {
    let err: SourceError = jellyfin_source_error(JellyfinError::NotFound("gone".into()));
    assert!(matches!(err, SourceError::NotFound(_)));
}

#[test]
fn jellyfin_error_server_maps_to_other() {
    let err: SourceError =
        jellyfin_source_error(JellyfinError::Server { status: 500, message: "boom".into() });
    assert!(matches!(err, SourceError::Other(_)));
}

#[test]
fn api_ticks_to_ms_and_secs() {
    assert_eq!(Ticks(10_000_000).to_ms(), 1000);
}

#[test]
fn models_ticks_to_ms_and_secs() {
    let t = Ticks(10_000_000);
    assert_eq!(t.to_ms(), 1000);
    assert_eq!(Ticks::from_ms(1000), Ticks(10_000_000));
}

#[test]
fn error_messages_and_texts() {
    assert_eq!(
        jellyfin_source_error(JellyfinError::Server { status: 500, message: "boom".into() }),
        SourceError::Other("Server error 500: boom".into())
    );
    assert_eq!(
        jellyfin_source_error(JellyfinError::Unauthorized),
        SourceError::Auth("Invalid or expired Jellyfin token".into())
    );
    assert_eq!(
        jellyfin_source_error(JellyfinError::Deserialize("eof".into())),
        SourceError::Other("Parse error: eof".into())
    );
    assert_eq!(JellyfinError::NotFound("x".into()).message(), "Not found: x");
    assert_eq!(
        jellyfin_transcode_source_error(JellyfinTranscodeError::Timeout),
        SourceError::Connection("PlaybackInfo request timed out".into())
    );
    assert_eq!(
        jellyfin_transcode_source_error(JellyfinTranscodeError::Server { status: 502 }),
        SourceError::Other("PlaybackInfo server error: 502".into())
    );
}

#[test]
fn jellyfin_status_classification() {
    assert_eq!(check_status(200), Ok(()));
    assert_eq!(check_status(401), Err(JellyfinError::Unauthorized));
    assert_eq!(check_status(404), Err(JellyfinError::NotFound("Resource not found".into())));
    assert_eq!(
        check_status(503),
        Err(JellyfinError::Server { status: 503, message: "Service Unavailable".into() })
    );
}

#[test]
fn transient_failures_are_retried_twice() {
    assert_eq!(retry_step(1, true), RetryStep::RetryAfter { delay_ms: 600 });
    assert_eq!(retry_step(2, true), RetryStep::RetryAfter { delay_ms: 600 });
    assert_eq!(retry_step(3, true), RetryStep::Fail);
    assert_eq!(retry_step(1, false), RetryStep::Fail);
}

#[test]
fn encoder_stop_treats_404_as_done() {
    assert_eq!(stop_encoding_outcome(204), None);
    assert_eq!(stop_encoding_outcome(404), None);
    assert_eq!(
        stop_encoding_outcome(500),
        Some(JellyfinError::Server { status: 500, message: "stop encoding failed".into() })
    );
}

#[test]
fn jellyfin_endpoint_urls_match_the_server_api() {
    let url = |e: JellyfinEndpoint| endpoint_url(BASE, "user1", "device1", &e);
    assert_eq!(url(JellyfinEndpoint::UserViews), "http://localhost:8096/UserViews?userId=user1");
    assert_eq!(
        url(JellyfinEndpoint::Items {
            parent_id: Some("lib1".into()),
            include_item_types: Some("Movie,Series".into()),
            recursive: true,
        }),
        "http://localhost:8096/Items?userId=user1&fields=Overview,Genres,People,MediaSources,ProductionYear,PremiereDate,ParentId&parentId=lib1&includeItemTypes=Movie,Series&recursive=true"
    );
    assert_eq!(
        url(JellyfinEndpoint::Items { parent_id: None, include_item_types: None, recursive: false }),
        "http://localhost:8096/Items?userId=user1&fields=Overview,Genres,People,MediaSources,ProductionYear,PremiereDate,ParentId"
    );
    assert_eq!(
        url(JellyfinEndpoint::Episodes { series_id: "s1".into(), season_id: "se1".into() }),
        "http://localhost:8096/Shows/s1/Episodes?userId=user1&seasonId=se1"
    );
    assert_eq!(
        url(JellyfinEndpoint::Latest(Some("lib1".into()))),
        "http://localhost:8096/Items/Latest?userId=user1&parentId=lib1"
    );
    assert_eq!(
        url(JellyfinEndpoint::ActiveEncodings("ps1".into())),
        "http://localhost:8096/Videos/ActiveEncodings?deviceId=device1&playSessionId=ps1"
    );
    assert_eq!(
        url(JellyfinEndpoint::PlayedItem("i1".into())),
        "http://localhost:8096/UserPlayedItems/i1?userId=user1"
    );
    assert_eq!(
        url(JellyfinEndpoint::Ping("ps1".into())),
        "http://localhost:8096/Sessions/Playing/Ping?playSessionId=ps1"
    );
}

#[test]
fn convert_items_drops_unsupported_and_tags() {
    let dtos = vec![dto("a", "Movie"), dto("b", "MusicAlbum"), dto("c", "Series")];
    let items = convert_items(&dtos, BASE, None);
    assert_eq!(items.len(), 2);
    assert_eq!(items[0].external_id, "a");
    assert_eq!(items[1].external_id, "c");
    assert_eq!(items[0].library_section_id.as_deref(), Some("lib0"));
    let tagged = convert_items(&dtos, BASE, Some("lib9"));
    assert!(tagged.iter().all(|i| i.library_section_id.as_deref() == Some("lib9")));
}

#[test]
fn view_sections_keep_browsed_kinds() {
    let mut movies = dto("m", "CollectionFolder");
    movies.collection_type = Some("movies".into());
    let mut music = dto("mu", "CollectionFolder");
    music.collection_type = Some("music".into());
    let mut shows = dto("t", "CollectionFolder");
    shows.collection_type = Some("tvshows".into());
    let secs = view_sections(&[movies, music, shows]);
    assert_eq!(secs.len(), 2);
    assert_eq!(secs[0].library_type, LibraryType::Movie);
    assert_eq!(secs[1].key, "t");
}

#[test]
fn hubs_skip_failed_and_empty_rows() {
    let latest = Some(vec![dto("a", "Movie")]);
    let next_up: Option<Vec<BaseItemDto>> = None;
    let suggestions = Some(vec![dto("b", "Episode"), dto("c", "Movie")]);
    let hubs = discovery_hubs(&latest, &next_up, &suggestions, BASE);
    assert_eq!(hubs.len(), 2);
    assert_eq!(hubs[0].title, "Latest");
    assert_eq!(hubs[0].hub_identifier.as_deref(), Some("jellyfin.latest"));
    assert_eq!(hubs[1].title, "Suggested");
    assert_eq!(hubs[1].hub_identifier.as_deref(), Some("jellyfin.suggestions"));
    assert_eq!(hubs[1].items.len(), 2);

    let only_music = Some(vec![dto("z", "MusicAlbum")]);
    let hubs = discovery_hubs(&only_music, &Some(vec![]), &None, BASE);
    assert!(hubs.is_empty());
}

#[test]
fn children_route_by_item_kind() {
    let series = dto("s1", "Series");
    assert_eq!(children_listing("s1", &series), ChildrenListing::Seasons { series_id: "s1".into() });
    let mut season = dto("se1", "Season");
    season.series_id = Some("s1".into());
    assert_eq!(
        children_listing("se1", &season),
        ChildrenListing::Episodes { series_id: "s1".into(), season_id: "se1".into() }
    );
    let orphan = dto("se2", "Season");
    assert_eq!(
        children_listing("se2", &orphan),
        ChildrenListing::Episodes { series_id: "".into(), season_id: "se2".into() }
    );
    assert_eq!(children_listing("m", &dto("m", "Movie")), ChildrenListing::Nothing);
}

#[test]
fn first_report_opens_a_minted_session_then_reuses_it() {
    let mut s = PlaySessions::new();
    let plan = s.plan_report("item9", "playing", 1000, 7);
    assert_eq!(
        plan,
        ReportPlan::Start {
            session_id: "item9-7".into(),
            position_ticks: 10_000_000,
            paused: false,
            play_method: "DirectPlay".into(),
        }
    );
    s.confirm_started("item9", "item9-7");
    let plan = s.plan_report("item9", "paused", 2000, 8);
    assert_eq!(
        plan,
        ReportPlan::Progress {
            session_id: "item9-7".into(),
            position_ticks: 20_000_000,
            paused: true,
            play_method: "DirectPlay".into(),
        }
    );
    let plan = s.plan_report("item9", "stopped", 3000, 9);
    assert_eq!(plan, ReportPlan::Stopped { session_id: Some("item9-7".into()), position_ticks: 30_000_000 });
    assert_eq!(s.play_session("item9"), None);
}

#[test]
fn transcode_decision_session_is_reused_for_progress() {
    let mut s = PlaySessions::new();
    s.record_decision("item9", &Some("psid-1".into()), true);
    assert_eq!(s.play_method_for("item9"), "Transcode");
    let plan = s.plan_report("item9", "playing", 0, 1);
    assert_eq!(
        plan,
        ReportPlan::Start {
            session_id: "psid-1".into(),
            position_ticks: 0,
            paused: false,
            play_method: "Transcode".into(),
        }
    );
    s.record_decision("item9", &Some("psid-2".into()), false);
    assert_eq!(s.transcode_session("item9"), None);
    assert_eq!(s.play_method_for("item9"), "DirectPlay");
}

#[test]
fn stopping_an_encoder_forgets_its_session() {
    let mut s = PlaySessions::new();
    s.record_decision("a", &Some("ps".into()), true);
    s.record_decision("b", &Some("other".into()), true);
    s.end_transcode("ps");
    assert_eq!(s.transcode_session("a"), None);
    assert_eq!(s.transcode_session("b"), Some("other".into()));
}

#[test]
fn stopped_without_open_session_reports_nothing() {
    let mut s = PlaySessions::new();
    s.record_decision("a", &Some("ps".into()), true);
    assert_eq!(s.plan_report("a", "stopped", 5, 0), ReportPlan::Stopped { session_id: None, position_ticks: 50_000 });
    assert_eq!(s.transcode_session("a"), None);
}
