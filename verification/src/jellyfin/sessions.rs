//! Play-session bookkeeping for progress reporting to a Jellyfin server.
//!
//! Per item the source remembers the `PlaySessionId` it opened with a START
//! report, and the `PlaySessionId` of an active transcode decision. A progress
//! report for an item without an open session opens one first (reusing the
//! transcode session when there is one, so keepalive, progress and stop all
//! name the encoder's session); a `stopped` report closes both. The owner
//! performs the HTTP calls the plan names and reports back when a START was
//! accepted.

use vstd::prelude::*;
use crate::text::{nat_digits, owned, push_nat, str_eq};
use crate::jellyfin::models::Ticks;

verus! {

/// A list of `(item id, session id)` entries with strings as character
/// sequences.
pub open spec fn pairs_view(s: Seq<(String, String)>) -> Seq<(Seq<char>, Seq<char>)> {
    s.map_values(|p: (String, String)| (p.0@, p.1@))
}

/// The session recorded for `k`: the value of the last entry with that key.
pub open spec fn lookup(s: Seq<(Seq<char>, Seq<char>)>, k: Seq<char>) -> Option<Seq<char>>
    decreases s.len(),
{
    if s.len() == 0 {
        None
    } else if s.last().0 == k {
        Some(s.last().1)
    } else {
        lookup(s.drop_last(), k)
    }
}

/// The entries whose key is not `k`, in order.
pub open spec fn without_key(s: Seq<(Seq<char>, Seq<char>)>, k: Seq<char>) -> Seq<(Seq<char>, Seq<char>)>
    decreases s.len(),
{
    if s.len() == 0 {
        s
    } else {
        let r = without_key(s.drop_last(), k);
        if s.last().0 == k {
            r
        } else {
            r.push(s.last())
        }
    }
}

/// The entries whose value is not `v`, in order.
pub open spec fn without_value(s: Seq<(Seq<char>, Seq<char>)>, v: Seq<char>) -> Seq<(Seq<char>, Seq<char>)>
    decreases s.len(),
{
    if s.len() == 0 {
        s
    } else {
        let r = without_value(s.drop_last(), v);
        if s.last().1 == v {
            r
        } else {
            r.push(s.last())
        }
    }
}

/// `s` with `k` mapped to `v` (any earlier entry for `k` dropped).
pub open spec fn with_entry(s: Seq<(Seq<char>, Seq<char>)>, k: Seq<char>, v: Seq<char>) -> Seq<(Seq<char>, Seq<char>)> {
    without_key(s, k).push((k, v))
}

/// Dropping a key forgets exactly that key.
pub proof fn lemma_lookup_without_key(s: Seq<(Seq<char>, Seq<char>)>, k: Seq<char>, q: Seq<char>)
    ensures
        lookup(without_key(s, k), q) == (if q == k {
            None
        } else {
            lookup(s, q)
        }),
    decreases s.len(),
{
    if s.len() > 0 {
        lemma_lookup_without_key(s.drop_last(), k, q);
        let r = without_key(s.drop_last(), k);
        if s.last().0 != k {
            assert(r.push(s.last()).drop_last() =~= r);
        }
    }
}

/// Mapping a key gives back the new value for it and leaves the others.
pub proof fn lemma_lookup_with_entry(s: Seq<(Seq<char>, Seq<char>)>, k: Seq<char>, v: Seq<char>, q: Seq<char>)
    ensures
        lookup(with_entry(s, k, v), q) == (if q == k {
            Some(v)
        } else {
            lookup(s, q)
        }),
{
    let r = without_key(s, k);
    assert(r.push((k, v)).drop_last() =~= r);
    lemma_lookup_without_key(s, k, q);
}

/// Dropping a value leaves no key mapped to it, and keys mapped elsewhere
/// keep their last entry not mapped to it.
pub proof fn lemma_lookup_without_value(s: Seq<(Seq<char>, Seq<char>)>, v: Seq<char>, q: Seq<char>)
    ensures
        lookup(without_value(s, v), q) != Some(v),
        lookup(s, q) is None ==> lookup(without_value(s, v), q) is None,
    decreases s.len(),
{
    if s.len() > 0 {
        lemma_lookup_without_value(s.drop_last(), v, q);
        let r = without_value(s.drop_last(), v);
        if s.last().1 != v {
            assert(r.push(s.last()).drop_last() =~= r);
        }
    }
}

/// The two session tables.
pub struct SessionsModel {
    pub play: Seq<(Seq<char>, Seq<char>)>,
    pub transcode: Seq<(Seq<char>, Seq<char>)>,
}

/// What a progress report asks the owner to send.
#[derive(Debug, Clone, PartialEq)]
pub enum ReportPlan {
    /// Report `stopped` for the session, if one was open; both of the item's
    /// sessions are already forgotten.
    Stopped { session_id: Option<String>, position_ticks: i64 },
    /// Report progress on the open session.
    Progress { session_id: String, position_ticks: i64, paused: bool, play_method: String },
    /// Open the session with a START report, then report progress on it; call
    /// [`PlaySessions::confirm_started`] once the server accepted the START.
    Start { session_id: String, position_ticks: i64, paused: bool, play_method: String },
}

/// A plan with its strings as character sequences.
pub enum PlanModel {
    Stopped { session_id: Option<Seq<char>>, position_ticks: i64 },
    Progress { session_id: Seq<char>, position_ticks: i64, paused: bool, play_method: Seq<char> },
    Start { session_id: Seq<char>, position_ticks: i64, paused: bool, play_method: Seq<char> },
}

impl View for ReportPlan {
    type V = PlanModel;

    open spec fn view(&self) -> PlanModel {
        match self {
            ReportPlan::Stopped { session_id, position_ticks } => PlanModel::Stopped {
                session_id: match session_id {
                    Some(s) => Some(s@),
                    None => None,
                },
                position_ticks: *position_ticks,
            },
            ReportPlan::Progress { session_id, position_ticks, paused, play_method } => {
                PlanModel::Progress {
                    session_id: session_id@,
                    position_ticks: *position_ticks,
                    paused: *paused,
                    play_method: play_method@,
                }
            },
            ReportPlan::Start { session_id, position_ticks, paused, play_method } => {
                PlanModel::Start {
                    session_id: session_id@,
                    position_ticks: *position_ticks,
                    paused: *paused,
                    play_method: play_method@,
                }
            },
        }
    }
}

/// `Transcode` while a transcode decision is active for the item, else
/// `DirectPlay`.
pub open spec fn method_for(m: SessionsModel, item: Seq<char>) -> Seq<char> {
    if lookup(m.transcode, item) is Some {
        "Transcode"@
    } else {
        "DirectPlay"@
    }
}

/// A fresh session id for an item: `{item}-{counter}`.
pub open spec fn minted_session(item: Seq<char>, counter: u64) -> Seq<char> {
    item + "-"@ + nat_digits(counter as nat)
}

/// The plan for a report in `state` at `ticks`.
pub open spec fn plan_of(m: SessionsModel, item: Seq<char>, state: Seq<char>, ticks: i64, counter: u64) -> PlanModel {
    if state == "stopped"@ {
        PlanModel::Stopped { session_id: lookup(m.play, item), position_ticks: ticks }
    } else {
        match lookup(m.play, item) {
            Some(sid) => PlanModel::Progress {
                session_id: sid,
                position_ticks: ticks,
                paused: state == "paused"@,
                play_method: method_for(m, item),
            },
            None => PlanModel::Start {
                session_id: match lookup(m.transcode, item) {
                    Some(t) => t,
                    None => minted_session(item, counter),
                },
                position_ticks: ticks,
                paused: state == "paused"@,
                play_method: method_for(m, item),
            },
        }
    }
}

/// The tables after planning a report: a `stopped` report forgets both of
/// the item's sessions.
pub open spec fn after_plan(m: SessionsModel, item: Seq<char>, state: Seq<char>) -> SessionsModel {
    if state == "stopped"@ {
        SessionsModel { play: without_key(m.play, item), transcode: without_key(m.transcode, item) }
    } else {
        m
    }
}

/// The tables after a playback decision: a transcode-like decision with a
/// session records it for the item, anything else forgets the item's
/// transcode session.
pub open spec fn after_decision(m: SessionsModel, item: Seq<char>, session: Option<Seq<char>>, transcode_like: bool) -> SessionsModel {
    SessionsModel {
        play: m.play,
        transcode: match session {
            Some(p) if transcode_like => with_entry(m.transcode, item, p),
            _ => without_key(m.transcode, item),
        },
    }
}

/// Per-item play and transcode session ids.
pub struct PlaySessions {
    play: Vec<(String, String)>,
    transcode: Vec<(String, String)>,
}

impl View for PlaySessions {
    type V = SessionsModel;

    closed spec fn view(&self) -> SessionsModel {
        SessionsModel { play: pairs_view(self.play@), transcode: pairs_view(self.transcode@) }
    }
}

/// The session recorded for `k` in `v`.
fn find(v: &Vec<(String, String)>, k: &str) -> (r: Option<String>)
    ensures
        match r {
            Some(s) => lookup(pairs_view(v@), k@) == Some(s@),
            None => lookup(pairs_view(v@), k@) is None,
        },
{
    let ghost pv = pairs_view(v@);
    let mut found: Option<usize> = None;
    let mut i: usize = 0;
    while i < v.len()
        invariant
            i <= v.len(),
            pv == pairs_view(v@),
            match found {
                Some(j) => j < i && lookup(pv.take(i as int), k@) == Some(pv[j as int].1),
                None => lookup(pv.take(i as int), k@) is None,
            },
        decreases v.len() - i,
    {
        proof {
            assert(pv.take(i as int + 1).drop_last() =~= pv.take(i as int));
        }
        if str_eq(v[i].0.as_str(), k) {
            found = Some(i);
        }
        i = i + 1;
    }
    assert(pv.take(v.len() as int) =~= pv);
    match found {
        Some(j) => Some(v[j].1.clone()),
        None => None,
    }
}

/// `v` without the entries for key `k`.
fn drop_key(v: &mut Vec<(String, String)>, k: &str)
    ensures
        pairs_view(final(v)@) == without_key(pairs_view(old(v)@), k@),
{
    let ghost pv = pairs_view(v@);
    let mut out: Vec<(String, String)> = Vec::new();
    let mut i: usize = 0;
    while i < v.len()
        invariant
            i <= v.len(),
            pv == pairs_view(v@),
            pairs_view(out@) == without_key(pv.take(i as int), k@),
        decreases v.len() - i,
    {
        proof {
            assert(pv.take(i as int + 1).drop_last() =~= pv.take(i as int));
        }
        if !str_eq(v[i].0.as_str(), k) {
            let e = (v[i].0.clone(), v[i].1.clone());
            out.push(e);
            proof {
                assert(pairs_view(out@) =~= without_key(pv.take(i as int), k@).push(pv[i as int]));
            }
        }
        i = i + 1;
    }
    assert(pv.take(v.len() as int) =~= pv);
    *v = out;
}

/// `v` without the entries whose value is `val`.
fn drop_value(v: &mut Vec<(String, String)>, val: &str)
    ensures
        pairs_view(final(v)@) == without_value(pairs_view(old(v)@), val@),
{
    let ghost pv = pairs_view(v@);
    let mut out: Vec<(String, String)> = Vec::new();
    let mut i: usize = 0;
    while i < v.len()
        invariant
            i <= v.len(),
            pv == pairs_view(v@),
            pairs_view(out@) == without_value(pv.take(i as int), val@),
        decreases v.len() - i,
    {
        proof {
            assert(pv.take(i as int + 1).drop_last() =~= pv.take(i as int));
        }
        if !str_eq(v[i].1.as_str(), val) {
            let e = (v[i].0.clone(), v[i].1.clone());
            out.push(e);
            proof {
                assert(pairs_view(out@) =~= without_value(pv.take(i as int), val@).push(pv[i as int]));
            }
        }
        i = i + 1;
    }
    assert(pv.take(v.len() as int) =~= pv);
    *v = out;
}

/// `v` with `k` mapped to `val`.
fn put(v: &mut Vec<(String, String)>, k: &str, val: &str)
    ensures
        pairs_view(final(v)@) == with_entry(pairs_view(old(v)@), k@, val@),
{
    drop_key(v, k);
    let ghost before = v@;
    v.push((owned(k), owned(val)));
    assert(pairs_view(v@) =~= pairs_view(before).push((k@, val@)));
}

impl PlaySessions {
    /// No sessions.
    pub fn new() -> (r: Self)
        ensures
            r@.play.len() == 0,
            r@.transcode.len() == 0,
    {
        let r = PlaySessions { play: Vec::new(), transcode: Vec::new() };
        assert(pairs_view(r.play@) =~= Seq::empty());
        assert(pairs_view(r.transcode@) =~= Seq::empty());
        r
    }

    /// The open play session of an item.
    pub fn play_session(&self, item: &str) -> (r: Option<String>)
        ensures
            match r {
                Some(s) => lookup(self@.play, item@) == Some(s@),
                None => lookup(self@.play, item@) is None,
            },
    {
        find(&self.play, item)
    }

    /// The active transcode session of an item.
    pub fn transcode_session(&self, item: &str) -> (r: Option<String>)
        ensures
            match r {
                Some(s) => lookup(self@.transcode, item@) == Some(s@),
                None => lookup(self@.transcode, item@) is None,
            },
    {
        find(&self.transcode, item)
    }

    /// The `PlayMethod` to report for an item.
    pub fn play_method_for(&self, item: &str) -> (r: &'static str)
        ensures
            r@ == method_for(self@, item@),
    {
        match find(&self.transcode, item) {
            Some(_) => "Transcode",
            None => "DirectPlay",
        }
    }

    /// Record the outcome of a playback decision for an item: a
    /// transcode-like decision with a session remembers the session; a
    /// direct-play one forgets any earlier transcode session of the item.
    pub fn record_decision(&mut self, item: &str, session: &Option<String>, transcode_like: bool)
        ensures
            final(self)@ == after_decision(
                old(self)@,
                item@,
                match session {
                    Some(s) => Some(s@),
                    None => None,
                },
                transcode_like,
            ),
    {
        match session {
            Some(p) => {
                if transcode_like {
                    put(&mut self.transcode, item, p.as_str());
                } else {
                    drop_key(&mut self.transcode, item);
                }
            },
            None => drop_key(&mut self.transcode, item),
        }
    }

    /// Forget every item's transcode session named `session` (the encoder
    /// was stopped).
    pub fn end_transcode(&mut self, session: &str)
        ensures
            final(self)@.play == old(self)@.play,
            final(self)@.transcode == without_value(old(self)@.transcode, session@),
    {
        drop_value(&mut self.transcode, session);
    }

    /// Plan a progress report for `item` in `state` (`playing`, `paused` or
    /// `stopped`) at `time_ms`; `counter` numbers a freshly minted session.
    pub fn plan_report(&mut self, item: &str, state: &str, time_ms: i64, counter: u64) -> (r: ReportPlan)
        requires
            i64::MIN <= time_ms * 10_000 <= i64::MAX,
        ensures
            r@ == plan_of(old(self)@, item@, state@, (time_ms * 10_000) as i64, counter),
            final(self)@ == after_plan(old(self)@, item@, state@),
    {
        let ticks = Ticks::from_ms(time_ms).0;
        let method = owned(self.play_method_for(item));
        if str_eq(state, "stopped") {
            let session_id = find(&self.play, item);
            drop_key(&mut self.play, item);
            drop_key(&mut self.transcode, item);
            return ReportPlan::Stopped { session_id, position_ticks: ticks };
        }
        let paused = str_eq(state, "paused");
        match find(&self.play, item) {
            Some(sid) => ReportPlan::Progress {
                session_id: sid,
                position_ticks: ticks,
                paused,
                play_method: method,
            },
            None => {
                let session_id = match find(&self.transcode, item) {
                    Some(t) => t,
                    None => {
                        let mut s = owned(item);
                        s.append("-");
                        push_nat(&mut s, counter);
                        s
                    },
                };
                ReportPlan::Start { session_id, position_ticks: ticks, paused, play_method: method }
            },
        }
    }

    /// The server accepted the START for `item` on `session_id`: later
    /// reports use that session.
    pub fn confirm_started(&mut self, item: &str, session_id: &str)
        ensures
            final(self)@.play == with_entry(old(self)@.play, item@, session_id@),
            final(self)@.transcode == old(self)@.transcode,
    {
        put(&mut self.play, item, session_id);
    }
}

/// A `stopped` report closes the item's play session and forgets its
/// transcode session, leaving other items' sessions as they were.
pub proof fn lemma_stopped_closes_sessions(m: SessionsModel, item: Seq<char>, other: Seq<char>)
    requires
        other != item,
    ensures
        lookup(after_plan(m, item, "stopped"@).play, item) is None,
        lookup(after_plan(m, item, "stopped"@).transcode, item) is None,
        lookup(after_plan(m, item, "stopped"@).play, other) == lookup(m.play, other),
        lookup(after_plan(m, item, "stopped"@).transcode, other) == lookup(m.transcode, other),
{
    lemma_lookup_without_key(m.play, item, item);
    lemma_lookup_without_key(m.transcode, item, item);
    lemma_lookup_without_key(m.play, item, other);
    lemma_lookup_without_key(m.transcode, item, other);
}

/// After a transcode-like decision with session `p`, the first report on an
/// item without an open play session opens that very session, reported as a
/// transcode.
pub proof fn lemma_transcode_session_reused(
    m: SessionsModel,
    item: Seq<char>,
    p: Seq<char>,
    state: Seq<char>,
    ticks: i64,
    counter: u64,
)
    requires
        lookup(m.play, item) is None,
        state != "stopped"@,
    ensures
        plan_of(after_decision(m, item, Some(p), true), item, state, ticks, counter) == (PlanModel::Start {
            session_id: p,
            position_ticks: ticks,
            paused: state == "paused"@,
            play_method: "Transcode"@,
        }),
{
    lemma_lookup_with_entry(m.transcode, item, p, item);
}

/// Once a START is confirmed, every later non-stopped report on the item
/// goes to the same session.
pub proof fn lemma_started_session_sticks(
    m: SessionsModel,
    item: Seq<char>,
    sid: Seq<char>,
    state: Seq<char>,
    ticks: i64,
    counter: u64,
)
    requires
        state != "stopped"@,
    ensures
        ({
            let m1 = SessionsModel { play: with_entry(m.play, item, sid), transcode: m.transcode };
            &&& plan_of(m1, item, state, ticks, counter) matches PlanModel::Progress {
                session_id,
                ..
            } && session_id == sid
            &&& after_plan(m1, item, state) == m1
        }),
{
    lemma_lookup_with_entry(m.play, item, sid, item);
}

/// Stopping an encoder leaves no item reported as transcoding on it; an item
/// without a transcode session stays reported as direct play.
pub proof fn lemma_end_transcode_clears(m: SessionsModel, session: Seq<char>, item: Seq<char>)
    ensures
        lookup(without_value(m.transcode, session), item) != Some(session),
        lookup(m.transcode, item) is None ==> method_for(
            SessionsModel { play: m.play, transcode: without_value(m.transcode, session) },
            item,
        ) == "DirectPlay"@,
{
    lemma_lookup_without_value(m.transcode, session, item);
}

} // verus!
