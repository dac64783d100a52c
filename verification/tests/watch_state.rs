use reel::watch_state::{
    PlaybackState, WatchStateEvent, WatchStateTracker, PERSIST_INTERVAL_MS, TIMELINE_INTERVAL_MS,
};

/// Two hours, in milliseconds.
const DURATION: u64 = 7_200_000;
/// An arbitrary start time on the monotonic clock.
const T0: u64 = 1_000_000;

fn tracker_with_plex() -> (WatchStateTracker, u64) {
    let mut t = WatchStateTracker::new();
    t.start("media:1", Some("123"), DURATION, T0);
    (t, T0)
}

fn tracker_local_file() -> (WatchStateTracker, u64) {
    let mut t = WatchStateTracker::new();
    t.start("local:file:test.mkv", None, DURATION, T0);
    (t, T0)
}

fn has_scrobble(events: &[WatchStateEvent]) -> bool {
    events.iter().any(|e| matches!(e, WatchStateEvent::Scrobble { .. }))
}

fn has_persist(events: &[WatchStateEvent]) -> bool {
    events.iter().any(|e| matches!(e, WatchStateEvent::PersistProgress { .. }))
}

fn has_timeline(events: &[WatchStateEvent]) -> bool {
    events.iter().any(|e| matches!(e, WatchStateEvent::ReportTimeline { .. }))
}

#[test]
fn new_tracker_is_inactive() {
    let t = WatchStateTracker::new();
    assert!(!t.is_active());
    assert!(t.media_id().is_none());
}

#[test]
fn start_activates_tracker() {
    let (t, _) = tracker_with_plex();
    assert!(t.is_active());
    assert_eq!(t.media_id(), Some("media:1"));
}

#[test]
fn process_position_no_events_before_intervals() {
    let (mut t, now) = tracker_with_plex();
    let events = t.process_position(100_000, now + 5_000);
    assert!(events.is_empty());
}

#[test]
fn persist_after_interval() {
    let (mut t, now) = tracker_with_plex();
    let events = t.process_position(300_000, now + PERSIST_INTERVAL_MS);
    assert!(events.iter().any(|e| matches!(
        e,
        WatchStateEvent::PersistProgress { position_ms, .. } if *position_ms == 300_000
    )));
}

#[test]
fn timeline_after_interval() {
    let (mut t, now) = tracker_with_plex();
    let events = t.process_position(300_000, now + TIMELINE_INTERVAL_MS);
    assert!(events.iter().any(|e| matches!(
        e,
        WatchStateEvent::ReportTimeline { rating_key, state, .. }
            if rating_key == "123" && state == "playing"
    )));
}

#[test]
fn no_timeline_for_local_file() {
    let (mut t, now) = tracker_local_file();
    let events = t.process_position(300_000, now + TIMELINE_INTERVAL_MS);
    assert!(!has_timeline(&events));
}

#[test]
fn persist_still_fires_for_local_file() {
    let (mut t, now) = tracker_local_file();
    let events = t.process_position(300_000, now + PERSIST_INTERVAL_MS);
    assert!(has_persist(&events));
}

#[test]
fn scrobble_at_ninety_percent() {
    let (mut t, now) = tracker_with_plex();
    let position = DURATION / 100 * 91;
    let events = t.process_position(position, now + PERSIST_INTERVAL_MS);
    assert!(events.iter().any(|e| matches!(
        e,
        WatchStateEvent::Scrobble { media_id, rating_key }
            if media_id == "media:1" && rating_key == "123"
    )));
}

#[test]
fn scrobble_fires_once_per_session() {
    let (mut t, now) = tracker_with_plex();
    let events1 = t.process_position(DURATION / 100 * 91, now + PERSIST_INTERVAL_MS);
    assert!(has_scrobble(&events1));

    let events2 = t.process_position(DURATION / 100 * 95, now + PERSIST_INTERVAL_MS * 2);
    assert!(!has_scrobble(&events2));
}

#[test]
fn no_scrobble_below_threshold() {
    let (mut t, now) = tracker_with_plex();
    let position = DURATION / 100 * 89;
    let events = t.process_position(position, now + PERSIST_INTERVAL_MS);
    assert!(!has_scrobble(&events));
}

#[test]
fn scrobble_exactly_at_threshold() {
    let (mut t, now) = tracker_with_plex();
    let position = DURATION / 10 * 9;
    let events = t.process_position(position, now + PERSIST_INTERVAL_MS);
    assert!(has_scrobble(&events));
}

#[test]
fn pause_persists_immediately() {
    let (mut t, now) = tracker_with_plex();
    let events = t.process_state_change(PlaybackState::Paused, 500_000, now + 1_000);
    assert!(events.iter().any(|e| matches!(
        e,
        WatchStateEvent::PersistProgress { position_ms, .. } if *position_ms == 500_000
    )));
}

#[test]
fn pause_reports_timeline() {
    let (mut t, now) = tracker_with_plex();
    let events = t.process_state_change(PlaybackState::Paused, 500_000, now + 1_000);
    assert!(events.iter().any(|e| matches!(
        e,
        WatchStateEvent::ReportTimeline { state, .. } if state == "paused"
    )));
}

#[test]
fn resume_reports_timeline_playing() {
    let (mut t, now) = tracker_with_plex();
    t.process_state_change(PlaybackState::Paused, 500_000, now + 1_000);
    let events = t.process_state_change(PlaybackState::Playing, 500_000, now + 5_000);
    assert!(events.iter().any(|e| matches!(
        e,
        WatchStateEvent::ReportTimeline { state, .. } if state == "playing"
    )));
}

#[test]
fn resume_does_not_persist() {
    let (mut t, now) = tracker_with_plex();
    t.process_state_change(PlaybackState::Paused, 500_000, now + 1_000);
    let events = t.process_state_change(PlaybackState::Playing, 500_000, now + 5_000);
    assert!(!has_persist(&events));
}

#[test]
fn stop_emits_final_persist() {
    let (mut t, _now) = tracker_with_plex();
    let events = t.stop(1_000_000);
    assert!(events.iter().any(|e| matches!(
        e,
        WatchStateEvent::PersistProgress { position_ms, .. } if *position_ms == 1_000_000
    )));
}

#[test]
fn stop_emits_stopped_timeline() {
    let (mut t, _now) = tracker_with_plex();
    let events = t.stop(1_000_000);
    assert!(events.iter().any(|e| matches!(
        e,
        WatchStateEvent::ReportTimeline { state, .. } if state == "stopped"
    )));
}

#[test]
fn stop_no_timeline_for_local() {
    let (mut t, _now) = tracker_local_file();
    let events = t.stop(1_000_000);
    assert!(!has_timeline(&events));
}

#[test]
fn stop_triggers_scrobble_if_past_threshold() {
    let (mut t, _now) = tracker_with_plex();
    let events = t.stop(DURATION / 100 * 95);
    assert!(has_scrobble(&events));
}

#[test]
fn stop_no_scrobble_below_threshold() {
    let (mut t, _now) = tracker_with_plex();
    let events = t.stop(DURATION / 2);
    assert!(!has_scrobble(&events));
}

#[test]
fn stop_no_duplicate_scrobble() {
    let (mut t, now) = tracker_with_plex();
    t.process_position(DURATION / 100 * 91, now + PERSIST_INTERVAL_MS);
    let events = t.stop(DURATION / 100 * 95);
    assert!(!has_scrobble(&events));
}

#[test]
fn stop_deactivates_tracker() {
    let (mut t, _now) = tracker_with_plex();
    t.stop(1_000_000);
    assert!(!t.is_active());
}

#[test]
fn inactive_tracker_produces_no_events() {
    let mut t = WatchStateTracker::new();
    let events = t.process_position(100_000, T0 + PERSIST_INTERVAL_MS);
    assert!(events.is_empty());
}

#[test]
fn inactive_tracker_state_change_no_events() {
    let mut t = WatchStateTracker::new();
    let events = t.process_state_change(PlaybackState::Paused, 100_000, T0);
    assert!(events.is_empty());
}

#[test]
fn stop_on_inactive_tracker_no_events() {
    let mut t = WatchStateTracker::new();
    let events = t.stop(100_000);
    assert!(events.is_empty());
}

#[test]
fn timeline_time_ms_conversion() {
    let (mut t, now) = tracker_with_plex();
    let events = t.process_position(100_500, now + TIMELINE_INTERVAL_MS);
    let timeline = events.iter().find(|e| matches!(e, WatchStateEvent::ReportTimeline { .. }));
    if let Some(WatchStateEvent::ReportTimeline { time_ms, duration_ms, .. }) = timeline {
        assert_eq!(*time_ms, 100500);
        assert_eq!(*duration_ms, 7200000);
    } else {
        panic!("Expected ReportTimeline event");
    }
}

#[test]
fn persist_resets_timer() {
    let (mut t, now) = tracker_with_plex();
    let events1 = t.process_position(100_000, now + PERSIST_INTERVAL_MS);
    assert!(has_persist(&events1));

    let events2 = t.process_position(200_000, now + PERSIST_INTERVAL_MS + 5_000);
    assert!(!has_persist(&events2));

    let events3 = t.process_position(300_000, now + PERSIST_INTERVAL_MS * 2);
    assert!(has_persist(&events3));
}

#[test]
fn pause_resets_persist_timer() {
    let (mut t, now) = tracker_with_plex();
    t.process_state_change(PlaybackState::Paused, 500_000, now + 5_000);
    t.process_state_change(PlaybackState::Playing, 500_000, now + 6_000);

    let events = t.process_position(600_000, now + 15_000);
    assert!(!has_persist(&events));

    let events = t.process_position(700_000, now + 20_000);
    assert!(has_persist(&events));
}

#[test]
fn zero_duration_no_scrobble() {
    let mut t = WatchStateTracker::new();
    t.start("media:1", Some("123"), 0, T0);
    let events = t.process_position(100_000, T0 + PERSIST_INTERVAL_MS);
    assert!(!has_scrobble(&events));
}

#[test]
fn start_resets_scrobble_flag() {
    let (mut t, now) = tracker_with_plex();
    t.process_position(DURATION / 100 * 91, now + PERSIST_INTERVAL_MS);
    assert!(t.scrobbled());

    let now2 = now + 100_000;
    t.start("media:2", Some("456"), DURATION, now2);
    assert!(!t.scrobbled());
}

#[test]
fn playback_state_names() {
    assert_eq!(PlaybackState::Playing.as_str(), "playing");
    assert_eq!(PlaybackState::Paused.as_str(), "paused");
    assert_eq!(PlaybackState::Stopped.as_str(), "stopped");
}

#[test]
fn events_come_in_scrobble_persist_timeline_order() {
    let (mut t, now) = tracker_with_plex();
    let events = t.process_position(DURATION, now + PERSIST_INTERVAL_MS);
    assert_eq!(events.len(), 3);
    assert!(matches!(events[0], WatchStateEvent::Scrobble { .. }));
    assert!(matches!(events[1], WatchStateEvent::PersistProgress { .. }));
    assert!(matches!(events[2], WatchStateEvent::ReportTimeline { .. }));
}

#[test]
fn clock_going_backwards_emits_nothing() {
    let (mut t, now) = tracker_with_plex();
    let events = t.process_position(1_000, now - 60_000);
    assert!(events.is_empty());
}

#[test]
fn local_file_never_reports_timeline_over_a_session() {
    let (mut t, now) = tracker_local_file();
    let mut all = Vec::new();
    all.extend(t.process_position(DURATION / 2, now + 30_000));
    all.extend(t.process_state_change(PlaybackState::Paused, DURATION / 2, now + 31_000));
    all.extend(t.process_state_change(PlaybackState::Playing, DURATION / 2, now + 32_000));
    all.extend(t.process_position(DURATION, now + 60_000));
    all.extend(t.stop(DURATION));
    assert!(!has_timeline(&all));
    assert_eq!(all.iter().filter(|e| matches!(e, WatchStateEvent::Scrobble { .. })).count(), 1);
}

fn scrobbles(events: &[WatchStateEvent]) -> Vec<&WatchStateEvent> {
    events.iter().filter(|e| matches!(e, WatchStateEvent::Scrobble { .. })).collect()
}

#[test]
fn session_scrobbles_exactly_when_ninety_percent_is_reached() {
    // Reached at a stop: one scrobble naming the session's item.
    let (mut t, now) = tracker_with_plex();
    let mut all = Vec::new();
    all.extend(t.process_position(DURATION / 2, now + PERSIST_INTERVAL_MS));
    all.extend(t.process_state_change(PlaybackState::Paused, DURATION / 2, now + PERSIST_INTERVAL_MS * 2));
    all.extend(t.stop(DURATION / 100 * 95));
    all.extend(t.process_position(DURATION, now + PERSIST_INTERVAL_MS * 3));
    let s = scrobbles(&all);
    assert_eq!(s.len(), 1);
    assert_eq!(
        *s[0],
        WatchStateEvent::Scrobble { media_id: "media:1".to_string(), rating_key: "123".to_string() }
    );

    // Never reached: none, also after the stop.
    let (mut u, now) = tracker_local_file();
    let mut all = Vec::new();
    all.extend(u.process_position(DURATION / 100 * 89, now + PERSIST_INTERVAL_MS));
    all.extend(u.stop(DURATION / 100 * 50));
    all.extend(u.process_position(DURATION, now + PERSIST_INTERVAL_MS * 2));
    assert!(scrobbles(&all).is_empty());

    // A zero duration never scrobbles.
    let mut z = WatchStateTracker::new();
    z.start("media:2", Some("9"), 0, T0);
    let mut all = Vec::new();
    all.extend(z.process_position(10, T0 + PERSIST_INTERVAL_MS));
    all.extend(z.stop(10));
    assert!(scrobbles(&all).is_empty());
}
