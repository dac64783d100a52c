//! The decisions of the source coordinator: what a connection attempt makes
//! of a source's status, which sources a sync round visits and what it
//! reports for each, the identities of the sources a provider stands for, and
//! the readiness table that start-up fills as connection probes come back.
//!
//! The owner performs the backend calls (initialise, list libraries, probe)
//! and hands their outcomes to these functions.

use vstd::prelude::*;
use crate::keyed::{lemma_value_at_index, lemma_value_at_some, value_at, KeyedList};
use crate::media::SourceType;
use crate::text::{concat2, owned};

verus! {

// --- Connection status -----------------------------------------------------------

/// Status of a media source connection.
#[derive(Debug, Clone, PartialEq, Eq)]
pub enum ConnectionStatus {
    Connected,
    Offline,
    NeedsAuth,
    Error(String),
}

/// The status a source gets after its backend was initialised: connected when
/// initialisation succeeded and the API client is ready, waiting for
/// authentication when it succeeded without a client, and the error otherwise.
pub fn connection_status_for(init: Result<(), String>, initialized: bool) -> (r: ConnectionStatus)
    ensures
        r == connection_status_for_spec(init, initialized),
{
    match init {
        Ok(_) => if initialized {
            ConnectionStatus::Connected
        } else {
            ConnectionStatus::NeedsAuth
        },
        Err(e) => ConnectionStatus::Error(e),
    }
}

/// Information about a source's current state.
#[derive(Debug, Clone, PartialEq, Eq)]
pub struct SourceStatus {
    pub source_id: String,
    pub source_name: String,
    pub source_type: SourceType,
    pub connection_status: ConnectionStatus,
    pub library_count: usize,
}

/// The status of a freshly registered source: how its backend's
/// initialisation went, no libraries counted yet.
pub fn registered_status(
    source_id: String,
    source_name: String,
    source_type: SourceType,
    init: Result<(), String>,
    initialized: bool,
) -> (r: SourceStatus)
    ensures
        r.source_id == source_id,
        r.source_name == source_name,
        r.source_type == source_type,
        r.connection_status == connection_status_for_spec(init, initialized),
        r.library_count == 0,
{
    SourceStatus {
        source_id,
        source_name,
        source_type,
        connection_status: connection_status_for(init, initialized),
        library_count: 0,
    }
}

/// The status a backend initialisation gives (see [`connection_status_for`]).
pub open spec fn connection_status_for_spec(init: Result<(), String>, initialized: bool) -> ConnectionStatus {
    match init {
        Ok(_) => if initialized {
            ConnectionStatus::Connected
        } else {
            ConnectionStatus::NeedsAuth
        },
        Err(e) => ConnectionStatus::Error(e),
    }
}

/// Whether a sync round visits a source with this status: only connected ones.
pub fn should_sync(status: &ConnectionStatus) -> (r: bool)
    ensures
        r == (*status is Connected),
{
    match status {
        ConnectionStatus::Connected => true,
        _ => false,
    }
}

// --- Sync results ----------------------------------------------------------------

/// What a sync of one source reports.
#[derive(Debug, Clone, PartialEq, Eq)]
pub struct SyncResult {
    pub source_id: String,
    pub success: bool,
    pub libraries_synced: usize,
    pub error: Option<String>,
}

/// The result of syncing a source whose library listing came back as
/// `libraries` (the number of libraries, or the listing error): every listed
/// library counts as synced.
pub fn sync_result_for(source_id: &str, libraries: Result<usize, String>) -> (r: SyncResult)
    ensures
        r.source_id@ == source_id@,
        match libraries {
            Ok(n) => r.success && r.libraries_synced == n && r.error is None,
            Err(e) => !r.success && r.libraries_synced == 0 && r.error is Some
                && r.error->Some_0@ == e@,
        },
{
    match libraries {
        Ok(n) => SyncResult { source_id: owned(source_id), success: true, libraries_synced: n, error: None },
        Err(e) => failed_sync(source_id, e),
    }
}

/// The result recorded for a source whose sync failed with `error`.
pub fn failed_sync(source_id: &str, error: String) -> (r: SyncResult)
    ensures
        r.source_id@ == source_id@,
        !r.success,
        r.libraries_synced == 0,
        r.error is Some && r.error->Some_0@ == error@,
{
    SyncResult { source_id: owned(source_id), success: false, libraries_synced: 0, error: Some(error) }
}

// --- Provider sources -----------------------------------------------------------

/// The id of the single source a Jellyfin or local-files provider stands for.
pub open spec fn provider_source_id_spec(provider_id: Seq<char>) -> Seq<char> {
    "source_"@ + provider_id
}

/// The display name of the source of a Jellyfin provider.
pub open spec fn jellyfin_source_name_spec(server_url: Seq<char>) -> Seq<char> {
    "Jellyfin - "@ + server_url
}

/// `source_<provider id>`.
pub fn provider_source_id(provider_id: &str) -> (r: String)
    ensures
        r@ == provider_source_id_spec(provider_id@),
{
    proof {
        reveal_strlit("source_");
    }
    concat2("source_", provider_id)
}

/// `Jellyfin - <server url>`.
pub fn jellyfin_source_name(server_url: &str) -> (r: String)
    ensures
        r@ == jellyfin_source_name_spec(server_url@),
{
    proof {
        reveal_strlit("Jellyfin - ");
    }
    concat2("Jellyfin - ", server_url)
}

/// The display name of the source of a local-files provider.
pub const LOCAL_SOURCE_NAME: &'static str = "Local Files";

/// The kinds of authentication provider, with what their sources depend on.
#[derive(Debug, Clone, PartialEq, Eq)]
pub enum ProviderKind {
    PlexAccount,
    JellyfinAuth { server_url: String },
    LocalFiles,
    NetworkCredentials,
}

/// A source that a provider stands for by itself, without discovery.
#[derive(Debug, Clone, PartialEq, Eq)]
pub struct FixedSource {
    pub id: String,
    pub name: String,
    pub source_type: SourceType,
}

/// The source a provider stands for by itself: a Jellyfin login gives one
/// Jellyfin source named after its server, local files give one local
/// source; a Plex account's sources are discovered, and network credentials
/// give none.
pub fn fixed_source(provider_id: &str, kind: &ProviderKind) -> (r: Option<FixedSource>)
    ensures
        match kind {
            ProviderKind::JellyfinAuth { server_url } => r is Some
                && r->Some_0.id@ == provider_source_id_spec(provider_id@)
                && r->Some_0.name@ == jellyfin_source_name_spec(server_url@)
                && r->Some_0.source_type == SourceType::Jellyfin,
            ProviderKind::LocalFiles => r is Some
                && r->Some_0.id@ == provider_source_id_spec(provider_id@)
                && r->Some_0.name@ == LOCAL_SOURCE_NAME@
                && r->Some_0.source_type == SourceType::Local,
            _ => r is None,
        },
{
    match kind {
        ProviderKind::JellyfinAuth { server_url } => Some(FixedSource {
            id: provider_source_id(provider_id),
            name: jellyfin_source_name(server_url.as_str()),
            source_type: SourceType::Jellyfin,
        }),
        ProviderKind::LocalFiles => Some(FixedSource {
            id: provider_source_id(provider_id),
            name: owned(LOCAL_SOURCE_NAME),
            source_type: SourceType::Local,
        }),
        _ => None,
    }
}

// --- Start-up discovery ------------------------------------------------------------

/// A source as the start-up discovery lists it, before any connection.
#[derive(Debug, Clone, PartialEq, Eq)]
pub struct SourceInfo {
    pub id: String,
    pub name: String,
    pub source_type: String,
    pub libraries: Vec<String>,
    pub is_enabled: bool,
    pub connection_status: String,
}

/// The connection status shown for a source read from the cache.
pub const CACHED_STATUS: &'static str = "Cached";

/// A cached source as discovery lists it: libraries not yet known, status
/// `Cached`. `type_label` is the source type as the owner prints it.
pub fn cached_source_info(id: &str, name: &str, type_label: &str, is_enabled: bool) -> (r: SourceInfo)
    ensures
        r.id@ == id@,
        r.name@ == name@,
        r.source_type@ == type_label@,
        r.libraries@.len() == 0,
        r.is_enabled == is_enabled,
        r.connection_status@ == CACHED_STATUS@,
{
    SourceInfo {
        id: owned(id),
        name: owned(name),
        source_type: owned(type_label),
        libraries: Vec::new(),
        is_enabled,
        connection_status: owned(CACHED_STATUS),
    }
}

/// Whether start-up counts playback as possible before any connection: when
/// credentials for some provider are stored.
pub fn playback_ready_from_credentials(provider_count: usize) -> (r: bool)
    ensures
        r == (provider_count > 0),
{
    provider_count > 0
}

// --- Start-up readiness ------------------------------------------------------------

/// How ready a source is after the start-up connection probe.
#[derive(Debug, Clone, Copy, PartialEq, Eq, Structural)]
pub enum SourceReadiness {
    /// Fully connected, with the number of libraries it listed.
    Connected { library_count: usize },
    /// Stored credentials are usable for playback, the API is not (yet).
    PlaybackReady,
    /// Neither browsing nor playback is possible.
    Unavailable,
}

/// Whether media of the source can be played.
pub open spec fn playable(r: SourceReadiness) -> bool {
    r is Connected || r is PlaybackReady
}

/// Whether the source is fully connected.
pub open spec fn fully_connected(r: SourceReadiness) -> bool {
    r is Connected
}

impl SourceReadiness {
    /// Whether media of the source can be played.
    pub fn is_playable(&self) -> (r: bool)
        ensures
            r == playable(*self),
    {
        match self {
            SourceReadiness::Unavailable => false,
            _ => true,
        }
    }

    /// Whether the source is fully connected.
    pub fn is_fully_connected(&self) -> (r: bool)
        ensures
            r == fully_connected(*self),
    {
        match self {
            SourceReadiness::Connected { .. } => true,
            _ => false,
        }
    }
}

/// What a start-up probe of one source found.
#[derive(Debug, Clone, Copy, PartialEq, Eq, Structural)]
pub enum ConnectionProbe {
    /// No backend could be made for the source.
    Failed,
    /// A backend was made; whether its API client is ready, whether it can
    /// play, and how many libraries it listed (`None` when listing failed or
    /// was not attempted).
    Reached { initialized: bool, playback_ready: bool, libraries: Option<usize> },
}

/// The readiness a probe outcome gives: a ready API client makes the source
/// connected (with the listed library count, zero when listing failed); a
/// backend that can only play, or a failed probe (the credentials are kept),
/// makes it playback-ready; otherwise it is unavailable.
pub open spec fn readiness_of_probe(p: ConnectionProbe) -> SourceReadiness {
    match p {
        ConnectionProbe::Failed => SourceReadiness::PlaybackReady,
        ConnectionProbe::Reached { initialized, playback_ready, libraries } => if initialized {
            SourceReadiness::Connected {
                library_count: match libraries {
                    Some(n) => n,
                    None => 0,
                },
            }
        } else if playback_ready {
            SourceReadiness::PlaybackReady
        } else {
            SourceReadiness::Unavailable
        },
    }
}

/// The readiness of a source given what its probe found.
pub fn readiness_for(probe: ConnectionProbe) -> (r: SourceReadiness)
    ensures
        r == readiness_of_probe(probe),
{
    match probe {
        ConnectionProbe::Failed => SourceReadiness::PlaybackReady,
        ConnectionProbe::Reached { initialized, playback_ready, libraries } => if initialized {
            let library_count: usize = match libraries {
                Some(n) => n,
                None => 0,
            };
            SourceReadiness::Connected { library_count }
        } else if playback_ready {
            SourceReadiness::PlaybackReady
        } else {
            SourceReadiness::Unavailable
        },
    }
}

/// Whether some source in the table can play.
pub open spec fn some_playable(s: Seq<(Seq<char>, SourceReadiness)>) -> bool {
    exists|i: int| 0 <= i < s.len() && playable(#[trigger] s[i].1)
}

/// Whether every source in the table is fully connected, and there is one.
pub open spec fn all_fully_connected(s: Seq<(Seq<char>, SourceReadiness)>) -> bool {
    s.len() > 0 && forall|i: int| 0 <= i < s.len() ==> fully_connected(#[trigger] s[i].1)
}

/// The readiness table that the start-up connection round fills: one entry
/// per source (a later report for a source replaces the earlier one), and
/// whether any report so far was playable.
pub struct ConnectionRound {
    table: KeyedList<SourceReadiness>,
    any_playable: bool,
}

/// The model of a connection round: its `(source id, readiness)` entries,
/// and whether any report was playable.
pub struct RoundModel {
    pub entries: Seq<(Seq<char>, SourceReadiness)>,
    pub any_playable: bool,
}

impl View for ConnectionRound {
    type V = RoundModel;

    closed spec fn view(&self) -> RoundModel {
        RoundModel { entries: self.table@, any_playable: self.any_playable }
    }
}

impl ConnectionRound {
    #[verifier::type_invariant]
    spec fn round_invariant(self) -> bool {
        some_playable(self.table@) ==> self.any_playable
    }

    /// An empty round.
    pub fn new() -> (r: Self)
        ensures
            r@.entries == Seq::<(Seq<char>, SourceReadiness)>::empty(),
            !r@.any_playable,
    {
        ConnectionRound { table: KeyedList::new(), any_playable: false }
    }

    /// Records the readiness of `source_id`: afterwards the table gives
    /// exactly that readiness for the source and is unchanged for every
    /// other source.
    pub fn record(&mut self, source_id: &str, readiness: SourceReadiness)
        ensures
            forall|q: Seq<char>| #[trigger]
                value_at(final(self)@.entries, q) == if q == source_id@ {
                    Some(readiness)
                } else {
                    value_at(old(self)@.entries, q)
                },
            final(self)@.any_playable == (old(self)@.any_playable || playable(readiness)),
            final(self)@.entries.len() == old(self)@.entries.len() + if value_at(
                old(self)@.entries,
                source_id@,
            ) is Some {
                0int
            } else {
                1int
            },
    {
        proof {
            use_type_invariant(&*self);
        }
        let ghost before = self.table@;
        let any = self.any_playable || readiness.is_playable();
        self.any_playable = any;
        let mut table = KeyedList::new();
        std::mem::swap(&mut table, &mut self.table);
        table.set(source_id, readiness);
        proof {
            let after = table@;
            if some_playable(after) {
                let k = choose|k: int| 0 <= k < after.len() && playable(#[trigger] after[k].1);
                lemma_value_at_index(after, k);
                let q = after[k].0;
                if q != source_id@ {
                    assert(value_at(before, q) == Some(after[k].1));
                    lemma_value_at_some(before, q);
                    let j = choose|j: int|
                        0 <= j < before.len() && before[j].0 == q && before[j].1 == value_at(before, q)->Some_0;
                    assert(playable(before[j].1));
                }
            }
        }
        self.table = table;
    }

    /// Whether any source reported so far can play.
    pub fn any_connected(&self) -> (r: bool)
        ensures
            r == self@.any_playable,
    {
        self.any_playable
    }

    /// Whether the table is non-empty and every source in it is fully
    /// connected. Such a round always has a playable source.
    pub fn all_connected(&self) -> (r: bool)
        ensures
            r == all_fully_connected(self@.entries),
            r ==> self@.any_playable,
    {
        proof {
            use_type_invariant(self);
        }
        let n = self.table.len();
        if n == 0 {
            return false;
        }
        let mut i: usize = 0;
        while i < n
            invariant
                i <= n,
                n == self.table@.len(),
                forall|k: int| 0 <= k < i ==> fully_connected(#[trigger] self.table@[k].1),
            decreases n - i,
        {
            if !self.table.value(i).is_fully_connected() {
                return false;
            }
            i = i + 1;
        }
        proof {
            assert(playable(self.table@[0].1));
        }
        true
    }

    /// The number of sources in the table.
    pub fn len(&self) -> (r: usize)
        ensures
            r == self@.entries.len(),
    {
        self.table.len()
    }

    /// The readiness recorded for `source_id`, if any.
    pub fn readiness(&self, source_id: &str) -> (r: Option<SourceReadiness>)
        ensures
            r == value_at(self@.entries, source_id@),
    {
        match self.table.get(source_id) {
            Some(v) => Some(*v),
            None => None,
        }
    }
}

} // verus!
