//! Watch-state tracking for a playing item: debounced progress persistence,
//! periodic timeline reports, and a single scrobble once playback passes
//! ninety percent of the item.
//!
//! The tracker does no I/O. Positions and durations are held in whole
//! milliseconds, and the caller hands in the current time as milliseconds on a
//! monotonic clock; the tracker answers with the events to dispatch.

use vstd::prelude::*;
use crate::text::{owned, clone_opt, opt_view};

verus! {

/// Minimum time between two debounced progress saves, in milliseconds.
pub const PERSIST_INTERVAL_MS: u64 = 15_000;

/// Minimum time between two periodic timeline reports, in milliseconds.
pub const TIMELINE_INTERVAL_MS: u64 = 10_000;

/// Playback state for timeline reporting.
#[derive(Debug, Clone, Copy, PartialEq, Eq, Structural)]
pub enum PlaybackState {
    Playing,
    Paused,
    Stopped,
}

/// The wire name of a playback state.
pub open spec fn state_name(s: PlaybackState) -> Seq<char> {
    match s {
        PlaybackState::Playing => "playing"@,
        PlaybackState::Paused => "paused"@,
        PlaybackState::Stopped => "stopped"@,
    }
}

impl PlaybackState {
    /// The wire name: `playing`, `paused` or `stopped`.
    pub fn as_str(&self) -> (r: &'static str)
        ensures
            r@ == state_name(*self),
    {
        match self {
            PlaybackState::Playing => "playing",
            PlaybackState::Paused => "paused",
            PlaybackState::Stopped => "stopped",
        }
    }
}

/// What the tracker asks its owner to do.
#[derive(Debug, Clone, PartialEq)]
pub enum WatchStateEvent {
    /// Save the position to the local store.
    PersistProgress { media_id: String, position_ms: u64, duration_ms: u64 },
    /// Report the position to the server's timeline.
    ReportTimeline { rating_key: String, state: String, time_ms: u64, duration_ms: u64 },
    /// Mark the item watched locally and on the server.
    Scrobble { media_id: String, rating_key: String },
}

/// An event with its strings taken as character sequences.
pub enum EventModel {
    PersistProgress { media_id: Seq<char>, position_ms: u64, duration_ms: u64 },
    ReportTimeline { rating_key: Seq<char>, state: Seq<char>, time_ms: u64, duration_ms: u64 },
    Scrobble { media_id: Seq<char>, rating_key: Seq<char> },
}

impl View for WatchStateEvent {
    type V = EventModel;

    open spec fn view(&self) -> EventModel {
        match self {
            WatchStateEvent::PersistProgress { media_id, position_ms, duration_ms } => {
                EventModel::PersistProgress {
                    media_id: media_id@,
                    position_ms: *position_ms,
                    duration_ms: *duration_ms,
                }
            },
            WatchStateEvent::ReportTimeline { rating_key, state, time_ms, duration_ms } => {
                EventModel::ReportTimeline {
                    rating_key: rating_key@,
                    state: state@,
                    time_ms: *time_ms,
                    duration_ms: *duration_ms,
                }
            },
            WatchStateEvent::Scrobble { media_id, rating_key } => EventModel::Scrobble {
                media_id: media_id@,
                rating_key: rating_key@,
            },
        }
    }
}

/// The views of a list of events.
pub open spec fn events_view(v: Seq<WatchStateEvent>) -> Seq<EventModel> {
    v.map_values(|e: WatchStateEvent| e@)
}

/// The tracker's state.
pub struct TrackerModel {
    pub media_id: Option<Seq<char>>,
    pub rating_key: Option<Seq<char>>,
    pub duration_ms: u64,
    pub last_persisted_position_ms: Option<u64>,
    pub last_persist_ms: u64,
    pub last_timeline_ms: u64,
    pub last_state: PlaybackState,
    pub scrobbled: bool,
    pub active: bool,
}

/// Time from `since` to `now`, zero when `now` is not later.
pub open spec fn elapsed(now: u64, since: u64) -> int {
    if now >= since {
        now - since
    } else {
        0
    }
}

/// Whether `position` is at least ninety percent of a positive `duration`.
pub open spec fn past_threshold(position: u64, duration: u64) -> bool {
    duration > 0 && position * 10 >= duration * 9
}

/// The rating key, or the empty string for an item without one.
pub open spec fn key_or_empty(k: Option<Seq<char>>) -> Seq<char> {
    match k {
        Some(s) => s,
        None => Seq::empty(),
    }
}

/// Whether the tracker has an item to report on.
pub open spec fn tracking(m: TrackerModel) -> bool {
    m.active && m.media_id is Some
}

pub open spec fn scrobble_event(m: TrackerModel) -> EventModel {
    EventModel::Scrobble { media_id: m.media_id->0, rating_key: key_or_empty(m.rating_key) }
}

pub open spec fn persist_event(m: TrackerModel, position: u64) -> EventModel {
    EventModel::PersistProgress {
        media_id: m.media_id->0,
        position_ms: position,
        duration_ms: m.duration_ms,
    }
}

pub open spec fn timeline_event(m: TrackerModel, state: Seq<char>, position: u64) -> EventModel {
    EventModel::ReportTimeline {
        rating_key: key_or_empty(m.rating_key),
        state,
        time_ms: position,
        duration_ms: m.duration_ms,
    }
}

/// Whether a position update scrobbles.
pub open spec fn position_scrobbles(m: TrackerModel, position: u64) -> bool {
    !m.scrobbled && past_threshold(position, m.duration_ms)
}

/// Whether a position update saves progress.
pub open spec fn position_persists(m: TrackerModel, now: u64) -> bool {
    elapsed(now, m.last_persist_ms) >= PERSIST_INTERVAL_MS
}

/// Whether a position update reports to the timeline.
pub open spec fn position_reports(m: TrackerModel, now: u64) -> bool {
    m.rating_key is Some && elapsed(now, m.last_timeline_ms) >= TIMELINE_INTERVAL_MS
}

/// One event when `b`, none otherwise.
pub open spec fn when(b: bool, e: EventModel) -> Seq<EventModel> {
    if b {
        seq![e]
    } else {
        Seq::empty()
    }
}

/// The events of a position update: scrobble, then save, then timeline.
pub open spec fn position_events(m: TrackerModel, position: u64, now: u64) -> Seq<EventModel> {
    if !tracking(m) {
        Seq::empty()
    } else {
        when(position_scrobbles(m, position), scrobble_event(m)) + when(
            position_persists(m, now),
            persist_event(m, position),
        ) + when(position_reports(m, now), timeline_event(m, state_name(m.last_state), position))
    }
}

/// The state after a position update.
pub open spec fn after_position(m: TrackerModel, position: u64, now: u64) -> TrackerModel {
    if !tracking(m) {
        m
    } else {
        TrackerModel {
            scrobbled: m.scrobbled || position_scrobbles(m, position),
            last_persist_ms: if position_persists(m, now) {
                now
            } else {
                m.last_persist_ms
            },
            last_persisted_position_ms: if position_persists(m, now) {
                Some(position)
            } else {
                m.last_persisted_position_ms
            },
            last_timeline_ms: if position_reports(m, now) {
                now
            } else {
                m.last_timeline_ms
            },
            ..m
        }
    }
}

/// The events of a play/pause change: a save on pause, then a timeline report
/// for an item with a rating key.
pub open spec fn state_events(m: TrackerModel, state: PlaybackState, position: u64) -> Seq<
    EventModel,
> {
    if !tracking(m) {
        Seq::empty()
    } else {
        when(state == PlaybackState::Paused, persist_event(m, position)) + when(
            m.rating_key is Some,
            timeline_event(m, state_name(state), position),
        )
    }
}

/// The state after a play/pause change.
pub open spec fn after_state(m: TrackerModel, state: PlaybackState, position: u64, now: u64) -> TrackerModel {
    if !tracking(m) {
        m
    } else {
        TrackerModel {
            last_state: state,
            last_persist_ms: if state == PlaybackState::Paused {
                now
            } else {
                m.last_persist_ms
            },
            last_persisted_position_ms: if state == PlaybackState::Paused {
                Some(position)
            } else {
                m.last_persisted_position_ms
            },
            last_timeline_ms: if m.rating_key is Some {
                now
            } else {
                m.last_timeline_ms
            },
            ..m
        }
    }
}

/// The events of a stop: a final save, a scrobble if past the threshold and
/// not yet scrobbled, and a `stopped` timeline report for an item with a
/// rating key.
pub open spec fn stop_events(m: TrackerModel, position: u64) -> Seq<EventModel> {
    if !tracking(m) {
        Seq::empty()
    } else {
        seq![persist_event(m, position)] + when(position_scrobbles(m, position), scrobble_event(m))
            + when(m.rating_key is Some, timeline_event(m, "stopped"@, position))
    }
}

/// The state after a stop.
pub open spec fn after_stop(m: TrackerModel, position: u64) -> TrackerModel {
    if !tracking(m) {
        m
    } else {
        TrackerModel {
            active: false,
            scrobbled: m.scrobbled || position_scrobbles(m, position),
            ..m
        }
    }
}

/// One call on a tracker, for stating what holds over a run of calls.
pub enum TrackerOp {
    Position { position_ms: u64, now_ms: u64 },
    StateChange { state: PlaybackState, position_ms: u64, now_ms: u64 },
    Stop { position_ms: u64 },
}

/// The events of one call.
pub open spec fn op_events(m: TrackerModel, op: TrackerOp) -> Seq<EventModel> {
    match op {
        TrackerOp::Position { position_ms, now_ms } => position_events(m, position_ms, now_ms),
        TrackerOp::StateChange { state, position_ms, now_ms: _ } => state_events(
            m,
            state,
            position_ms,
        ),
        TrackerOp::Stop { position_ms } => stop_events(m, position_ms),
    }
}

/// The state after one call.
pub open spec fn after_op(m: TrackerModel, op: TrackerOp) -> TrackerModel {
    match op {
        TrackerOp::Position { position_ms, now_ms } => after_position(m, position_ms, now_ms),
        TrackerOp::StateChange { state, position_ms, now_ms } => after_state(
            m,
            state,
            position_ms,
            now_ms,
        ),
        TrackerOp::Stop { position_ms } => after_stop(m, position_ms),
    }
}

/// All events of a run of calls, in order.
pub open spec fn run_events(m: TrackerModel, ops: Seq<TrackerOp>) -> Seq<EventModel>
    decreases ops.len(),
{
    if ops.len() == 0 {
        Seq::empty()
    } else {
        op_events(m, ops[0]) + run_events(after_op(m, ops[0]), ops.skip(1))
    }
}

/// The number of scrobbles among `es`.
pub open spec fn scrobble_count(es: Seq<EventModel>) -> nat
    decreases es.len(),
{
    if es.len() == 0 {
        0
    } else {
        (if es[0] is Scrobble {
            1nat
        } else {
            0nat
        }) + scrobble_count(es.skip(1))
    }
}

/// The number of timeline reports among `es`.
pub open spec fn timeline_count(es: Seq<EventModel>) -> nat
    decreases es.len(),
{
    if es.len() == 0 {
        0
    } else {
        (if es[0] is ReportTimeline {
            1nat
        } else {
            0nat
        }) + timeline_count(es.skip(1))
    }
}

proof fn lemma_counts_concat(a: Seq<EventModel>, b: Seq<EventModel>)
    ensures
        scrobble_count(a + b) == scrobble_count(a) + scrobble_count(b),
        timeline_count(a + b) == timeline_count(a) + timeline_count(b),
    decreases a.len(),
{
    if a.len() > 0 {
        assert((a + b).skip(1) =~= a.skip(1) + b);
        lemma_counts_concat(a.skip(1), b);
    } else {
        assert(a + b =~= b);
    }
}

proof fn lemma_counts_when(b: bool, e: EventModel)
    ensures
        scrobble_count(when(b, e)) == (if b && e is Scrobble {
            1nat
        } else {
            0nat
        }),
        timeline_count(when(b, e)) == (if b && e is ReportTimeline {
            1nat
        } else {
            0nat
        }),
{
    let s = when(b, e);
    if b {
        assert(s.len() == 1 && s[0] == e);
        assert(s.skip(1) =~= Seq::<EventModel>::empty());
        assert(scrobble_count(s.skip(1)) == 0);
        assert(timeline_count(s.skip(1)) == 0);
    } else {
        assert(s.len() == 0);
    }
}

/// What the tracker reports, call by call, for a tracked item:
/// - a position update saves the position once fifteen seconds have passed
///   since the last save, and not before;
/// - it reports to the timeline, in the current play state, once ten seconds
///   have passed since the last report, for an item with a rating key;
/// - pausing saves the position, resuming does not;
/// - a stop always saves the position and reports `stopped` for an item
///   with a rating key.
pub proof fn lemma_tracker_reports(m: TrackerModel, position: u64, now: u64, state: PlaybackState)
    requires
        tracking(m),
    ensures
        now >= m.last_persist_ms + 15_000 ==> position_events(m, position, now).contains(
            EventModel::PersistProgress {
                media_id: m.media_id->0,
                position_ms: position,
                duration_ms: m.duration_ms,
            },
        ),
        m.last_persist_ms <= now < m.last_persist_ms + 15_000 ==> forall|i: int|
            0 <= i < position_events(m, position, now).len() ==> !(#[trigger] position_events(
                m,
                position,
                now,
            )[i] is PersistProgress),
        m.rating_key is Some && now >= m.last_timeline_ms + 10_000 ==> position_events(
            m,
            position,
            now,
        ).contains(
            EventModel::ReportTimeline {
                rating_key: m.rating_key->0,
                state: state_name(m.last_state),
                time_ms: position,
                duration_ms: m.duration_ms,
            },
        ),
        state == PlaybackState::Paused ==> state_events(m, state, position).contains(
            EventModel::PersistProgress {
                media_id: m.media_id->0,
                position_ms: position,
                duration_ms: m.duration_ms,
            },
        ),
        state == PlaybackState::Playing ==> forall|i: int|
            0 <= i < state_events(m, state, position).len() ==> !(#[trigger] state_events(
                m,
                state,
                position,
            )[i] is PersistProgress),
        stop_events(m, position).contains(
            EventModel::PersistProgress {
                media_id: m.media_id->0,
                position_ms: position,
                duration_ms: m.duration_ms,
            },
        ),
        m.rating_key is Some ==> stop_events(m, position).contains(
            EventModel::ReportTimeline {
                rating_key: m.rating_key->0,
                state: "stopped"@,
                time_ms: position,
                duration_ms: m.duration_ms,
            },
        ),
{
    let a = when(position_scrobbles(m, position), scrobble_event(m));
    let b = when(position_persists(m, now), persist_event(m, position));
    let c = when(position_reports(m, now), timeline_event(m, state_name(m.last_state), position));
    let pe = position_events(m, position, now);
    assert(pe == a + b + c);
    if position_persists(m, now) {
        assert(pe[a.len() as int] == persist_event(m, position));
    } else {
        assert forall|i: int| 0 <= i < pe.len() implies !(#[trigger] pe[i] is PersistProgress) by {
            if i < a.len() {
                assert(pe[i] == a[i]);
            } else {
                assert(pe[i] == c[i - a.len()]);
            }
        }
    }
    if position_reports(m, now) {
        assert(pe[(a.len() + b.len()) as int] == timeline_event(m, state_name(m.last_state), position));
    }
    let sa = when(state == PlaybackState::Paused, persist_event(m, position));
    let sc = when(m.rating_key is Some, timeline_event(m, state_name(state), position));
    let se = state_events(m, state, position);
    assert(se == sa + sc);
    if state == PlaybackState::Paused {
        assert(se[0] == persist_event(m, position));
    } else {
        assert forall|i: int| 0 <= i < se.len() implies !(#[trigger] se[i] is PersistProgress) by {
            assert(se[i] == sc[i]);
        }
    }
    let p = seq![persist_event(m, position)];
    let ta = when(position_scrobbles(m, position), scrobble_event(m));
    let tc = when(m.rating_key is Some, timeline_event(m, "stopped"@, position));
    let st = stop_events(m, position);
    assert(st == p + ta + tc);
    assert(st[0] == persist_event(m, position));
    if m.rating_key is Some {
        assert(st[(1 + ta.len()) as int] == timeline_event(m, "stopped"@, position));
    }
}

/// Whether a call hands in a position (an update or a stop) that reaches
/// ninety percent of a positive `duration`.
pub open spec fn op_passes(op: TrackerOp, duration: u64) -> bool {
    match op {
        TrackerOp::Position { position_ms, now_ms: _ } => past_threshold(position_ms, duration),
        TrackerOp::Stop { position_ms } => past_threshold(position_ms, duration),
        TrackerOp::StateChange { .. } => false,
    }
}

/// Whether some call of a run, up to and including its first stop, hands in
/// a position that reaches ninety percent of a positive `duration`.
pub open spec fn run_passes(ops: Seq<TrackerOp>, duration: u64) -> bool
    decreases ops.len(),
{
    ops.len() > 0 && (op_passes(ops[0], duration) || (!(ops[0] is Stop) && run_passes(
        ops.skip(1),
        duration,
    )))
}

/// Every scrobble among `es` is `e`.
pub open spec fn scrobbles_are(es: Seq<EventModel>, e: EventModel) -> bool {
    forall|i: int| 0 <= i < es.len() && (#[trigger] es[i]) is Scrobble ==> es[i] == e
}

/// What one call contributes: at most one scrobble, none once scrobbled, and
/// the scrobbled flag set after it; no timeline report without a rating key.
proof fn lemma_op_counts(m: TrackerModel, op: TrackerOp)
    ensures
        tracking(m) ==> scrobble_count(op_events(m, op)) == (if !m.scrobbled && op_passes(
            op,
            m.duration_ms,
        ) {
            1nat
        } else {
            0nat
        }),
        tracking(m) ==> after_op(m, op).scrobbled == (m.scrobbled || op_passes(op, m.duration_ms)),
        scrobbles_are(op_events(m, op), scrobble_event(m)),
        after_op(m, op).media_id == m.media_id,
        after_op(m, op).duration_ms == m.duration_ms,
        tracking(m) && !(op is Stop) ==> tracking(after_op(m, op)),
        tracking(m) && op is Stop ==> !after_op(m, op).active,
        scrobble_count(op_events(m, op)) <= (if m.scrobbled {
            0nat
        } else {
            1nat
        }),
        scrobble_count(op_events(m, op)) == 1 ==> after_op(m, op).scrobbled,
        m.scrobbled ==> after_op(m, op).scrobbled,
        m.rating_key is None ==> timeline_count(op_events(m, op)) == 0,
        after_op(m, op).rating_key == m.rating_key,
{
    if tracking(m) {
        match op {
            TrackerOp::Position { position_ms, now_ms } => {
                let a = when(position_scrobbles(m, position_ms), scrobble_event(m));
                let b = when(position_persists(m, now_ms), persist_event(m, position_ms));
                let c = when(
                    position_reports(m, now_ms),
                    timeline_event(m, state_name(m.last_state), position_ms),
                );
                lemma_counts_when(position_scrobbles(m, position_ms), scrobble_event(m));
                lemma_counts_when(position_persists(m, now_ms), persist_event(m, position_ms));
                lemma_counts_when(
                    position_reports(m, now_ms),
                    timeline_event(m, state_name(m.last_state), position_ms),
                );
                lemma_counts_concat(a, b);
                lemma_counts_concat(a + b, c);
            },
            TrackerOp::StateChange { state, position_ms, now_ms: _ } => {
                let a = when(state == PlaybackState::Paused, persist_event(m, position_ms));
                let c = when(m.rating_key is Some, timeline_event(m, state_name(state), position_ms));
                lemma_counts_when(state == PlaybackState::Paused, persist_event(m, position_ms));
                lemma_counts_when(
                    m.rating_key is Some,
                    timeline_event(m, state_name(state), position_ms),
                );
                lemma_counts_concat(a, c);
            },
            TrackerOp::Stop { position_ms } => {
                let p = seq![persist_event(m, position_ms)];
                let a = when(position_scrobbles(m, position_ms), scrobble_event(m));
                let c = when(m.rating_key is Some, timeline_event(m, "stopped"@, position_ms));
                lemma_counts_when(true, persist_event(m, position_ms));
                assert(when(true, persist_event(m, position_ms)) == p);
                lemma_counts_when(position_scrobbles(m, position_ms), scrobble_event(m));
                lemma_counts_when(m.rating_key is Some, timeline_event(m, "stopped"@, position_ms));
                lemma_counts_concat(p, a);
                lemma_counts_concat(p + a, c);
            },
        }
    }
}

/// Scrobble fires at most once per session: over any run of position
/// updates, play/pause changes and stops, the tracker emits at most one
/// scrobble, and none if the session has already scrobbled.
pub proof fn lemma_scrobble_at_most_once(m: TrackerModel, ops: Seq<TrackerOp>)
    ensures
        scrobble_count(run_events(m, ops)) <= (if m.scrobbled {
            0nat
        } else {
            1nat
        }),
    decreases ops.len(),
{
    if ops.len() > 0 {
        let m1 = after_op(m, ops[0]);
        lemma_op_counts(m, ops[0]);
        lemma_scrobble_at_most_once(m1, ops.skip(1));
        lemma_counts_concat(op_events(m, ops[0]), run_events(m1, ops.skip(1)));
    }
}

/// A started session scrobbles exactly when some position handed in before
/// the tracker stops reaches ninety percent of a positive duration: once
/// then, never otherwise, and never again once it has scrobbled. Every
/// scrobble names the session's media id and rating key (empty for an item
/// without one).
pub proof fn lemma_scrobble_exactly_when_passed(m: TrackerModel, ops: Seq<TrackerOp>)
    requires
        tracking(m),
    ensures
        scrobble_count(run_events(m, ops)) == (if !m.scrobbled && run_passes(ops, m.duration_ms) {
            1nat
        } else {
            0nat
        }),
        scrobbles_are(run_events(m, ops), scrobble_event(m)),
    decreases ops.len(),
{
    if ops.len() > 0 {
        let op = ops[0];
        let m1 = after_op(m, op);
        let rest = ops.skip(1);
        lemma_op_counts(m, op);
        lemma_counts_concat(op_events(m, op), run_events(m1, rest));
        if op is Stop {
            lemma_idle_tracker_is_silent(m1, rest);
            assert(run_events(m, ops) =~= op_events(m, op) + Seq::<EventModel>::empty());
        } else {
            lemma_scrobble_exactly_when_passed(m1, rest);
            assert(scrobble_event(m1) == scrobble_event(m));
            let a = op_events(m, op);
            let b = run_events(m1, rest);
            assert forall|i: int| 0 <= i < (a + b).len() && (#[trigger] (a + b)[i]) is Scrobble implies (
            a + b)[i] == scrobble_event(m) by {
                if i < a.len() {
                    assert((a + b)[i] == a[i]);
                } else {
                    assert((a + b)[i] == b[i - a.len()]);
                }
            }
        }
    }
}

/// An item without a rating key (a local file) is never reported to the
/// server's timeline, whatever calls follow.
pub proof fn lemma_no_timeline_without_rating_key(m: TrackerModel, ops: Seq<TrackerOp>)
    requires
        m.rating_key is None,
    ensures
        timeline_count(run_events(m, ops)) == 0,
    decreases ops.len(),
{
    if ops.len() > 0 {
        let m1 = after_op(m, ops[0]);
        lemma_op_counts(m, ops[0]);
        lemma_no_timeline_without_rating_key(m1, ops.skip(1));
        lemma_counts_concat(op_events(m, ops[0]), run_events(m1, ops.skip(1)));
    }
}

/// An idle tracker answers every call with no events and stays as it is.
pub proof fn lemma_idle_tracker_is_silent(m: TrackerModel, ops: Seq<TrackerOp>)
    requires
        !m.active,
    ensures
        run_events(m, ops) == Seq::<EventModel>::empty(),
    decreases ops.len(),
{
    if ops.len() > 0 {
        assert(after_op(m, ops[0]) == m);
        lemma_idle_tracker_is_silent(m, ops.skip(1));
        assert(op_events(m, ops[0]) =~= Seq::<EventModel>::empty());
        assert(run_events(m, ops) =~= Seq::<EventModel>::empty());
    }
}

/// Tracks one playing item at a time.
pub struct WatchStateTracker {
    media_id: Option<String>,
    rating_key: Option<String>,
    duration_ms: u64,
    last_persisted_position_ms: Option<u64>,
    last_persist_ms: u64,
    last_timeline_ms: u64,
    last_state: PlaybackState,
    scrobbled: bool,
    active: bool,
}

impl WatchStateTracker {
    /// An active tracker always has an item.
    #[verifier::type_invariant]
    spec fn tracks_an_item(self) -> bool {
        self.active ==> self.media_id is Some
    }
}

impl View for WatchStateTracker {
    type V = TrackerModel;

    closed spec fn view(&self) -> TrackerModel {
        TrackerModel {
            media_id: opt_view(self.media_id),
            rating_key: opt_view(self.rating_key),
            duration_ms: self.duration_ms,
            last_persisted_position_ms: self.last_persisted_position_ms,
            last_persist_ms: self.last_persist_ms,
            last_timeline_ms: self.last_timeline_ms,
            last_state: self.last_state,
            scrobbled: self.scrobbled,
            active: self.active,
        }
    }
}

impl WatchStateTracker {
    /// An idle tracker: nothing tracked, nothing scrobbled.
    pub fn new() -> (t: Self)
        ensures
            !t@.active,
            t@.media_id is None,
            t@.rating_key is None,
            !t@.scrobbled,
            t@.last_state == PlaybackState::Stopped,
            t@.duration_ms == 0,
            t@.last_persisted_position_ms is None,
    {
        WatchStateTracker {
            media_id: None,
            rating_key: None,
            duration_ms: 0,
            last_persisted_position_ms: None,
            last_persist_ms: 0,
            last_timeline_ms: 0,
            last_state: PlaybackState::Stopped,
            scrobbled: false,
            active: false,
        }
    }

    /// Start tracking an item; both timers start at `now_ms`.
    pub fn start(&mut self, media_id: &str, rating_key: Option<&str>, duration_ms: u64, now_ms: u64)
        ensures
            final(self)@ == (TrackerModel {
                media_id: Some(media_id@),
                rating_key: match rating_key {
                    Some(k) => Some(k@),
                    None => None,
                },
                duration_ms,
                last_persisted_position_ms: None,
                last_persist_ms: now_ms,
                last_timeline_ms: now_ms,
                last_state: PlaybackState::Playing,
                scrobbled: false,
                active: true,
            }),
    {
        self.media_id = Some(owned(media_id));
        self.rating_key = match rating_key {
            Some(k) => Some(owned(k)),
            None => None,
        };
        self.duration_ms = duration_ms;
        self.last_persisted_position_ms = None;
        self.last_persist_ms = now_ms;
        self.last_timeline_ms = now_ms;
        self.last_state = PlaybackState::Playing;
        self.scrobbled = false;
        self.active = true;
    }

    /// Handle a position update at `now_ms`: scrobble once past ninety
    /// percent, save progress at most every fifteen seconds, and report to the
    /// timeline at most every ten seconds for an item with a rating key.
    pub fn process_position(&mut self, position_ms: u64, now_ms: u64) -> (events: Vec<WatchStateEvent>)
        ensures
            events_view(events@) == position_events(old(self)@, position_ms, now_ms),
            final(self)@ == after_position(old(self)@, position_ms, now_ms),
    {
        let ghost m = self@;
        let mut events: Vec<WatchStateEvent> = Vec::new();
        if !self.active {
            return events;
        }
        let media_id = match &self.media_id {
            Some(id) => id.clone(),
            None => return events,
        };
        let mut scrobbled_now = false;
        if !self.scrobbled && reaches_threshold(position_ms, self.duration_ms) {
            scrobbled_now = true;
            events.push(
                WatchStateEvent::Scrobble {
                    media_id: media_id.clone(),
                    rating_key: key_or_empty_string(&self.rating_key),
                },
            );
        }
        let ghost e1 = events@;
        let mut persisted = false;
        if elapsed_ms(now_ms, self.last_persist_ms) >= PERSIST_INTERVAL_MS {
            persisted = true;
            events.push(
                WatchStateEvent::PersistProgress {
                    media_id: media_id.clone(),
                    position_ms,
                    duration_ms: self.duration_ms,
                },
            );
        }
        let ghost e2 = events@;
        let mut reported = false;
        if self.rating_key.is_some() && elapsed_ms(now_ms, self.last_timeline_ms)
            >= TIMELINE_INTERVAL_MS {
            reported = true;
            let state = owned(self.last_state.as_str());
            events.push(
                WatchStateEvent::ReportTimeline {
                    rating_key: key_or_empty_string(&self.rating_key),
                    state,
                    time_ms: position_ms,
                    duration_ms: self.duration_ms,
                },
            );
        }
        if scrobbled_now {
            self.scrobbled = true;
        }
        if persisted {
            self.last_persist_ms = now_ms;
            self.last_persisted_position_ms = Some(position_ms);
        }
        if reported {
            self.last_timeline_ms = now_ms;
        }
        proof {
            assert(events_view(events@) =~= position_events(m, position_ms, now_ms));
        }
        events
    }

    /// Handle a play/pause change: a pause saves progress at once and restarts
    /// the save timer; every change is reported to the timeline for an item
    /// with a rating key.
    pub fn process_state_change(&mut self, state: PlaybackState, position_ms: u64, now_ms: u64) -> (events: Vec<WatchStateEvent>)
        ensures
            events_view(events@) == state_events(old(self)@, state, position_ms),
            final(self)@ == after_state(old(self)@, state, position_ms, now_ms),
    {
        let ghost m = self@;
        let mut events: Vec<WatchStateEvent> = Vec::new();
        if !self.active {
            return events;
        }
        let media_id = match &self.media_id {
            Some(id) => id.clone(),
            None => return events,
        };
        self.last_state = state;
        if state == PlaybackState::Paused {
            self.last_persist_ms = now_ms;
            self.last_persisted_position_ms = Some(position_ms);
            events.push(
                WatchStateEvent::PersistProgress {
                    media_id: media_id.clone(),
                    position_ms,
                    duration_ms: self.duration_ms,
                },
            );
        }
        if self.rating_key.is_some() {
            self.last_timeline_ms = now_ms;
            let name = owned(state.as_str());
            events.push(
                WatchStateEvent::ReportTimeline {
                    rating_key: key_or_empty_string(&self.rating_key),
                    state: name,
                    time_ms: position_ms,
                    duration_ms: self.duration_ms,
                },
            );
        }
        proof {
            assert(events_view(events@) =~= state_events(m, state, position_ms));
        }
        events
    }

    /// Stop tracking: a final save, a last scrobble check, and a `stopped`
    /// timeline report for an item with a rating key.
    pub fn stop(&mut self, position_ms: u64) -> (events: Vec<WatchStateEvent>)
        ensures
            events_view(events@) == stop_events(old(self)@, position_ms),
            final(self)@ == after_stop(old(self)@, position_ms),
            !final(self)@.active,
    {
        proof {
            use_type_invariant(&*self);
        }
        let ghost m = self@;
        let mut events: Vec<WatchStateEvent> = Vec::new();
        if !self.active {
            return events;
        }
        let media_id = match &self.media_id {
            Some(id) => id.clone(),
            None => return events,
        };
        self.active = false;
        events.push(
            WatchStateEvent::PersistProgress {
                media_id: media_id.clone(),
                position_ms,
                duration_ms: self.duration_ms,
            },
        );
        if !self.scrobbled && reaches_threshold(position_ms, self.duration_ms) {
            self.scrobbled = true;
            events.push(
                WatchStateEvent::Scrobble {
                    media_id: media_id.clone(),
                    rating_key: key_or_empty_string(&self.rating_key),
                },
            );
        }
        if self.rating_key.is_some() {
            events.push(
                WatchStateEvent::ReportTimeline {
                    rating_key: key_or_empty_string(&self.rating_key),
                    state: owned("stopped"),
                    time_ms: position_ms,
                    duration_ms: self.duration_ms,
                },
            );
        }
        proof {
            assert(events_view(events@) =~= stop_events(m, position_ms));
        }
        events
    }

    /// Whether an item is being tracked.
    pub fn is_active(&self) -> (r: bool)
        ensures
            r == self@.active,
    {
        self.active
    }

    /// Whether the current session has scrobbled.
    pub fn scrobbled(&self) -> (r: bool)
        ensures
            r == self@.scrobbled,
    {
        self.scrobbled
    }

    /// The tracked item's id, if any.
    pub fn media_id(&self) -> (r: Option<&str>)
        ensures
            match r {
                Some(s) => self@.media_id == Some(s@),
                None => self@.media_id is None,
            },
    {
        match &self.media_id {
            Some(s) => Some(s.as_str()),
            None => None,
        }
    }
}

/// Whether `position` is at least ninety percent of a positive `duration`.
fn reaches_threshold(position: u64, duration: u64) -> (r: bool)
    ensures
        r == past_threshold(position, duration),
{
    duration > 0 && (position as u128) * 10 >= (duration as u128) * 9
}

/// Milliseconds from `since` to `now`, zero when `now` is not later.
fn elapsed_ms(now: u64, since: u64) -> (r: u64)
    ensures
        r == elapsed(now, since),
{
    if now >= since {
        now - since
    } else {
        0
    }
}

/// An owned copy of the rating key, or the empty string.
fn key_or_empty_string(k: &Option<String>) -> (r: String)
    ensures
        r@ == key_or_empty(opt_view(*k)),
{
    match k {
        Some(s) => s.clone(),
        None => String::new(),
    }
}

} // verus!
