//! Decisions of the background workers: the search worker's result cache,
//! the sync worker's run bookkeeping, and the connection worker's monitoring
//! flags and change detection.
//!
//! The owner runs the database queries, syncs and connection probes these
//! ask for, and hands back what came of them.

use vstd::prelude::*;
use crate::keyed::{value_at, KeyedList};
use crate::media::{same_item, same_items, MediaItem};
use crate::text::owned;

verus! {

// --- Search ----------------------------------------------------------------------

/// Requests to the search worker.
#[derive(Debug, Clone, PartialEq)]
pub enum SearchWorkerInput {
    /// Search for `query`, in one library or in all, returning at most `limit` results.
    Search { query: String, library_id: Option<String>, limit: Option<usize> },
    /// Warm the caches of a library.
    BuildIndex(String),
    /// Forget all cached results.
    ClearCache,
}

/// What the search worker reports.
#[derive(Debug, Clone, PartialEq)]
pub enum SearchWorkerOutput {
    /// Results of a search; `total_count` counts all matches, also those past the limit.
    SearchResults { query: String, results: Vec<MediaItem>, total_count: usize },
    SearchFailed { query: String, error: String },
    IndexBuilt(String),
    CacheCleared,
}

/// An optional string slice as an optional character sequence.
pub open spec fn opt_str_view(o: Option<&str>) -> Option<Seq<char>> {
    match o {
        Some(s) => Some(s@),
        None => None,
    }
}

/// The cache key of a search: `{query}__{library id}`, or `{query}__all`.
pub open spec fn search_cache_key_spec(query: Seq<char>, library_id: Option<Seq<char>>) -> Seq<char> {
    query + "__"@ + match library_id {
        Some(l) => l,
        None => "all"@,
    }
}

/// How many of `total` matches a search with `limit` returns.
pub open spec fn shown_len(total: nat, limit: Option<usize>) -> nat {
    match limit {
        Some(n) => if n < total {
            n as nat
        } else {
            total
        },
        None => total,
    }
}

/// The number of items loaded from a library to warm its caches.
pub const INDEX_WARM_ITEMS: u64 = 100;

/// The cache key of a search.
pub fn search_cache_key(query: &str, library_id: Option<&str>) -> (r: String)
    ensures
        r@ == search_cache_key_spec(query@, opt_str_view(library_id)),
{
    proof {
        reveal_strlit("__");
        reveal_strlit("all");
    }
    let mut s = owned(query);
    s.append("__");
    match library_id {
        Some(l) => s.append(l),
        None => s.append("all"),
    }
    s
}

/// The first `n` items of `v`, copied.
fn copy_prefix(v: &Vec<MediaItem>, n: usize) -> (r: Vec<MediaItem>)
    requires
        n <= v.len(),
    ensures
        same_items(r@, v@.take(n as int)),
{
    let mut out: Vec<MediaItem> = Vec::new();
    let mut i: usize = 0;
    while i < n
        invariant
            i <= n <= v.len(),
            out@.len() == i,
            forall|k: int| 0 <= k < i ==> same_item(#[trigger] out@[k], v@[k]),
        decreases n - i,
    {
        out.push(v[i].duplicate());
        i = i + 1;
    }
    out
}

/// The number of results a search shows.
fn shown(total: usize, limit: Option<usize>) -> (r: usize)
    ensures
        r == shown_len(total as nat, limit),
{
    match limit {
        Some(n) => if n < total {
            n
        } else {
            total
        },
        None => total,
    }
}

/// What a search asks for next.
#[derive(Debug, Clone, PartialEq)]
pub enum SearchStep {
    /// The search is answered from the cache.
    Answer(SearchWorkerOutput),
    /// Nothing is cached under the key: run the query, then hand the result
    /// to [`SearchWorker::searched`] with this key.
    QueryDatabase { cache_key: String },
}

/// The search worker's cache of full result lists by search key.
pub struct SearchWorker {
    search_cache: KeyedList<Vec<MediaItem>>,
}

impl View for SearchWorker {
    type V = Seq<(Seq<char>, Vec<MediaItem>)>;

    closed spec fn view(&self) -> Seq<(Seq<char>, Vec<MediaItem>)> {
        self.search_cache@
    }
}

impl SearchWorker {
    /// A worker with nothing cached.
    pub fn new() -> (r: Self)
        ensures
            r@ == Seq::<(Seq<char>, Vec<MediaItem>)>::empty(),
    {
        SearchWorker { search_cache: KeyedList::new() }
    }

    /// Answers a search from the cache when its key is cached (the first
    /// `limit` results, with the full count), else asks for the query.
    pub fn search(&self, query: &str, library_id: Option<&str>, limit: Option<usize>) -> (r: SearchStep)
        ensures
            ({
                let key = search_cache_key_spec(query@, opt_str_view(library_id));
                match value_at(self@, key) {
                    Some(items) => r matches SearchStep::Answer(
                        SearchWorkerOutput::SearchResults { query: q, results, total_count },
                    ) && q@ == query@ && total_count == items@.len() && same_items(
                        results@,
                        items@.take(shown_len(items@.len(), limit) as int),
                    ),
                    None => r matches SearchStep::QueryDatabase { cache_key } && cache_key@ == key,
                }
            }),
    {
        let key = search_cache_key(query, library_id);
        match self.search_cache.get(key.as_str()) {
            Some(cached) => {
                let n = shown(cached.len(), limit);
                let results = copy_prefix(cached, n);
                SearchStep::Answer(
                    SearchWorkerOutput::SearchResults {
                        query: owned(query),
                        results,
                        total_count: cached.len(),
                    },
                )
            },
            None => SearchStep::QueryDatabase { cache_key: key },
        }
    }

    /// Takes the outcome of a query run for `cache_key`: the full results are
    /// cached under the key and the first `limit` of them reported with the
    /// full count; a failed query is reported and caches nothing.
    pub fn searched(
        &mut self,
        query: String,
        cache_key: &str,
        result: Result<Vec<MediaItem>, String>,
        limit: Option<usize>,
    ) -> (r: SearchWorkerOutput)
        ensures
            match result {
                Ok(items) => {
                    &&& forall|q: Seq<char>| #[trigger]
                        value_at(final(self)@, q) == if q == cache_key@ {
                            Some(items)
                        } else {
                            value_at(old(self)@, q)
                        }
                    &&& r matches SearchWorkerOutput::SearchResults { query: q, results, total_count }
                        && q@ == query@ && total_count == items@.len() && same_items(
                        results@,
                        items@.take(shown_len(items@.len(), limit) as int),
                    )
                },
                Err(e) => {
                    &&& final(self)@ == old(self)@
                    &&& r matches SearchWorkerOutput::SearchFailed { query: q, error } && q@ == query@
                        && error@ == e@
                },
            },
    {
        match result {
            Ok(items) => {
                let total_count = items.len();
                let n = shown(total_count, limit);
                let results = copy_prefix(&items, n);
                self.search_cache.set(cache_key, items);
                SearchWorkerOutput::SearchResults { query, results, total_count }
            },
            Err(e) => SearchWorkerOutput::SearchFailed { query, error: e },
        }
    }

    /// Forgets every cached result.
    pub fn clear_cache(&mut self) -> (r: SearchWorkerOutput)
        ensures
            final(self)@ == Seq::<(Seq<char>, Vec<MediaItem>)>::empty(),
            r is CacheCleared,
    {
        self.search_cache.clear();
        SearchWorkerOutput::CacheCleared
    }
}

/// What the search worker asks the owner to do with a request.
#[derive(Debug, Clone, PartialEq)]
pub enum SearchWorkerAction {
    /// Run the search (on a copy of the worker: `search`, then the query, then `searched`).
    Search { query: String, library_id: Option<String>, limit: Option<usize> },
    /// Load up to [`INDEX_WARM_ITEMS`] items of the library, then report with [`index_outcome`].
    BuildIndex(String),
    /// Report this at once.
    Report(SearchWorkerOutput),
}

impl SearchWorker {
    /// Handles a request: searches and index builds are handed to the owner
    /// to run; clearing the cache happens at once.
    pub fn update(&mut self, msg: SearchWorkerInput) -> (r: SearchWorkerAction)
        ensures
            match msg {
                SearchWorkerInput::Search { query, library_id, limit } => final(self)@ == old(self)@
                    && r == (SearchWorkerAction::Search { query, library_id, limit }),
                SearchWorkerInput::BuildIndex(l) => final(self)@ == old(self)@ && r == (
                SearchWorkerAction::BuildIndex(l)),
                SearchWorkerInput::ClearCache => final(self)@ == Seq::<(Seq<char>, Vec<MediaItem>)>::empty()
                    && r == SearchWorkerAction::Report(SearchWorkerOutput::CacheCleared),
            },
    {
        match msg {
            SearchWorkerInput::Search { query, library_id, limit } => SearchWorkerAction::Search {
                query,
                library_id,
                limit,
            },
            SearchWorkerInput::BuildIndex(l) => SearchWorkerAction::BuildIndex(l),
            SearchWorkerInput::ClearCache => SearchWorkerAction::Report(self.clear_cache()),
        }
    }
}

/// What warming a library's caches reports: the library when its items
/// loaded, nothing when loading failed.
pub fn index_outcome(library_id: String, loaded: Result<usize, String>) -> (r: Option<SearchWorkerOutput>)
    ensures
        loaded is Ok ==> (r matches Some(SearchWorkerOutput::IndexBuilt(l)) && l@ == library_id@),
        loaded is Err ==> r is None,
{
    match loaded {
        Ok(_) => Some(SearchWorkerOutput::IndexBuilt(library_id)),
        Err(_) => None,
    }
}

// --- Sync --------------------------------------------------------------------------

/// Requests to the sync worker.
#[derive(Debug, Clone, PartialEq)]
pub enum SyncWorkerInput {
    StartSync { source_id: String },
    CancelSync,
    GetProgress,
}

/// What the sync worker reports; `P` is the progress record of the sync service.
#[derive(Debug, Clone, PartialEq)]
pub enum SyncWorkerOutput<P> {
    SyncStarted(String),
    Progress(String, P),
    /// Libraries and items synced.
    SyncCompleted(String, usize, usize),
    SyncFailed(String, String),
    SyncCancelled(String),
}

/// What the sync worker asks the owner to do.
#[derive(Debug, Clone, PartialEq)]
pub enum SyncWorkerAction {
    /// Run a sync of the source (on a copy of the worker: begin, sync, finish).
    RunSync(String),
    /// Look up the progress of the running sync.
    FetchProgress(String),
    Nothing,
}

/// The sync worker's state: the source being synced, and whether a
/// cancellation was asked for.
pub struct SyncWorker {
    current_sync: Option<String>,
    cancel_requested: bool,
}

/// The sync worker's state with the source id as a character sequence.
pub struct SyncWorkerModel {
    pub current_sync: Option<Seq<char>>,
    pub cancel_requested: bool,
}

impl View for SyncWorker {
    type V = SyncWorkerModel;

    closed spec fn view(&self) -> SyncWorkerModel {
        SyncWorkerModel {
            current_sync: match self.current_sync {
                Some(s) => Some(s@),
                None => None,
            },
            cancel_requested: self.cancel_requested,
        }
    }
}

/// The state after a sync of `id` began.
pub open spec fn began(id: Seq<char>) -> SyncWorkerModel {
    SyncWorkerModel { current_sync: Some(id), cancel_requested: false }
}

/// The state after a cancellation was asked for.
pub open spec fn cancelled(m: SyncWorkerModel) -> SyncWorkerModel {
    SyncWorkerModel {
        current_sync: m.current_sync,
        cancel_requested: m.cancel_requested || m.current_sync is Some,
    }
}

/// Whether a finished sync is reported as cancelled, completed or failed:
/// an error fails it; a success is cancelled when a cancellation was asked for.
pub open spec fn finish_reports_cancelled(m: SyncWorkerModel, ok: bool) -> bool {
    ok && m.cancel_requested
}

impl SyncWorker {
    /// A worker with no sync running.
    pub fn new() -> (r: Self)
        ensures
            r@.current_sync is None,
            !r@.cancel_requested,
    {
        SyncWorker { current_sync: None, cancel_requested: false }
    }

    /// Handles a request: a start is refused while a sync runs, else the
    /// owner runs one; a cancellation is noted when a sync runs; a progress
    /// request asks for the running sync's progress.
    pub fn update(&mut self, msg: SyncWorkerInput) -> (r: SyncWorkerAction)
        ensures
            match msg {
                SyncWorkerInput::StartSync { source_id } => final(self)@ == old(self)@ && if old(
                    self,
                )@.current_sync is Some {
                    r is Nothing
                } else {
                    r matches SyncWorkerAction::RunSync(id) && id@ == source_id@
                },
                SyncWorkerInput::CancelSync => final(self)@ == cancelled(old(self)@) && r is Nothing,
                SyncWorkerInput::GetProgress => final(self)@ == old(self)@ && match old(
                    self,
                )@.current_sync {
                    Some(id) => r matches SyncWorkerAction::FetchProgress(x) && x@ == id,
                    None => r is Nothing,
                },
            },
    {
        match msg {
            SyncWorkerInput::StartSync { source_id } => {
                if self.current_sync.is_some() {
                    SyncWorkerAction::Nothing
                } else {
                    SyncWorkerAction::RunSync(source_id)
                }
            },
            SyncWorkerInput::CancelSync => {
                if self.current_sync.is_some() {
                    self.cancel_requested = true;
                }
                SyncWorkerAction::Nothing
            },
            SyncWorkerInput::GetProgress => match &self.current_sync {
                Some(id) => SyncWorkerAction::FetchProgress(id.clone()),
                None => SyncWorkerAction::Nothing,
            },
        }
    }

    /// A sync of `source_id` begins: it becomes the running sync with no
    /// cancellation asked for, and its start is reported.
    pub fn begin_sync<P>(&mut self, source_id: &str) -> (r: SyncWorkerOutput<P>)
        ensures
            final(self)@ == began(source_id@),
            r matches SyncWorkerOutput::SyncStarted(id) && id@ == source_id@,
    {
        self.current_sync = Some(owned(source_id));
        self.cancel_requested = false;
        SyncWorkerOutput::SyncStarted(owned(source_id))
    }

    /// The sync of `source_id` ended with `result` (libraries and items
    /// synced, or the error): no sync runs any more, and the end is reported.
    pub fn finish_sync<P>(&mut self, source_id: &str, result: Result<(usize, usize), String>) -> (r:
        SyncWorkerOutput<P>)
        ensures
            final(self)@.current_sync is None,
            final(self)@.cancel_requested == old(self)@.cancel_requested,
            match result {
                Ok((libraries, items)) => if finish_reports_cancelled(old(self)@, true) {
                    r matches SyncWorkerOutput::SyncCancelled(id) && id@ == source_id@
                } else {
                    r matches SyncWorkerOutput::SyncCompleted(id, l, n) && id@ == source_id@
                        && l == libraries && n == items
                },
                Err(e) => r matches SyncWorkerOutput::SyncFailed(id, m) && id@ == source_id@ && m@
                    == e@,
            },
    {
        let out = match result {
            Ok((libraries, items)) => if self.cancel_requested {
                SyncWorkerOutput::SyncCancelled(owned(source_id))
            } else {
                SyncWorkerOutput::SyncCompleted(owned(source_id), libraries, items)
            },
            Err(e) => SyncWorkerOutput::SyncFailed(owned(source_id), e),
        };
        self.current_sync = None;
        out
    }

    /// What a progress lookup reports: the progress of the running sync, or
    /// nothing when no sync runs or the lookup failed.
    pub fn progress_output<P>(&self, lookup: Result<P, String>) -> (r: Option<SyncWorkerOutput<P>>)
        ensures
            match (self@.current_sync, lookup) {
                (Some(id), Ok(p)) => r matches Some(SyncWorkerOutput::Progress(x, q)) && x@ == id && q
                    == p,
                _ => r is None,
            },
    {
        match (&self.current_sync, lookup) {
            (Some(id), Ok(p)) => Some(SyncWorkerOutput::Progress(id.clone(), p)),
            _ => None,
        }
    }
}

/// A cancellation asked for while a sync runs turns that sync's success into
/// a cancellation, and a new sync starts with no cancellation pending.
pub proof fn lemma_cancel_during_sync(id: Seq<char>, other: Seq<char>)
    ensures
        finish_reports_cancelled(cancelled(began(id)), true),
        !finish_reports_cancelled(began(other), true),
        !finish_reports_cancelled(cancelled(began(id)), false),
{
}

// --- Images --------------------------------------------------------------------------

/// Requests to the image worker; paths are file-system paths as text.
#[derive(Debug, Clone, PartialEq)]
pub enum ImageWorkerInput {
    /// Load an image from `url`, caching it at `cache_path` or under the URL's digest.
    LoadImage { id: String, url: String, cache_path: Option<String> },
    /// Make a thumbnail of `source_path` no larger than `width` by `height`.
    GenerateThumbnail { id: String, source_path: String, width: u32, height: u32 },
    ClearCache,
}

/// What the image worker asks the owner to do with a request.
#[derive(Debug, Clone, PartialEq)]
pub enum ImageWorkerAction {
    /// Load the image (from the cache file, else by download), then report
    /// with [`download_output`].
    Load { id: String, url: String, cache_path: Option<String> },
    /// Make the thumbnail, then report with [`thumbnail_output`].
    Thumbnail { id: String, source_path: String, width: u32, height: u32 },
    /// Empty the cache directory and report this.
    Report(ImageWorkerOutput),
}

/// What the image worker reports; paths are file-system paths as text.
#[derive(Debug, Clone, PartialEq)]
pub enum ImageWorkerOutput {
    ImageLoaded { id: String, data: Vec<u8>, path: Option<String> },
    ThumbnailGenerated { id: String, path: String },
    LoadFailed { id: String, error: String },
    CacheCleared,
}

/// The image worker's record of requested loads: image id to URL.
pub struct ImageWorker {
    pending_loads: KeyedList<String>,
}

impl View for ImageWorker {
    type V = Seq<(Seq<char>, String)>;

    closed spec fn view(&self) -> Seq<(Seq<char>, String)> {
        self.pending_loads@
    }
}

impl ImageWorker {
    /// A worker with no loads pending.
    pub fn new() -> (r: Self)
        ensures
            r@ == Seq::<(Seq<char>, String)>::empty(),
    {
        ImageWorker { pending_loads: KeyedList::new() }
    }

    /// Handles a request: a load is noted as pending and handed to the owner,
    /// a thumbnail is handed to the owner, and clearing forgets every pending
    /// load at once.
    pub fn update(&mut self, msg: ImageWorkerInput) -> (r: ImageWorkerAction)
        ensures
            match msg {
                ImageWorkerInput::LoadImage { id, url, cache_path } => {
                    &&& forall|q: Seq<char>| #[trigger]
                        value_at(final(self)@, q) == if q == id@ {
                            Some(url)
                        } else {
                            value_at(old(self)@, q)
                        }
                    &&& r matches ImageWorkerAction::Load { id: i, url: u, cache_path: c } && i@ == id@
                        && u@ == url@ && c == cache_path
                },
                ImageWorkerInput::GenerateThumbnail { id, source_path, width, height } => final(self)@
                    == old(self)@ && r == (ImageWorkerAction::Thumbnail { id, source_path, width, height }),
                ImageWorkerInput::ClearCache => final(self)@ == Seq::<(Seq<char>, String)>::empty()
                    && r == ImageWorkerAction::Report(ImageWorkerOutput::CacheCleared),
            },
    {
        match msg {
            ImageWorkerInput::LoadImage { id, url, cache_path } => {
                let u = url.clone();
                self.load_requested(id.as_str(), url);
                ImageWorkerAction::Load { id, url: u, cache_path }
            },
            ImageWorkerInput::GenerateThumbnail { id, source_path, width, height } => ImageWorkerAction::Thumbnail {
                id,
                source_path,
                width,
                height,
            },
            ImageWorkerInput::ClearCache => ImageWorkerAction::Report(self.clear_cache()),
        }
    }

    /// Notes that the image `id` is being loaded from `url`.
    pub fn load_requested(&mut self, id: &str, url: String)
        ensures
            forall|q: Seq<char>| #[trigger]
                value_at(final(self)@, q) == if q == id@ {
                    Some(url)
                } else {
                    value_at(old(self)@, q)
                },
    {
        self.pending_loads.set(id, url);
    }

    /// The URL the image `id` was requested from, if a load is pending.
    pub fn pending_url(&self, id: &str) -> (r: Option<&String>)
        ensures
            match r {
                Some(u) => value_at(self@, id@) == Some(*u),
                None => value_at(self@, id@) is None,
            },
    {
        self.pending_loads.get(id)
    }

    /// Forgets every pending load (the owner empties the cache directory).
    pub fn clear_cache(&mut self) -> (r: ImageWorkerOutput)
        ensures
            final(self)@ == Seq::<(Seq<char>, String)>::empty(),
            r is CacheCleared,
    {
        self.pending_loads.clear();
        ImageWorkerOutput::CacheCleared
    }
}

/// The report of a download of image `id` meant for `path`: the bytes, or
/// the download error.
pub fn download_output(id: String, fetched: Result<Vec<u8>, String>, path: String) -> (r: ImageWorkerOutput)
    ensures
        match fetched {
            Ok(data) => r matches ImageWorkerOutput::ImageLoaded { id: i, data: d, path: p } && i@ == id@
                && d@ == data@ && p is Some && p->Some_0@ == path@,
            Err(e) => r matches ImageWorkerOutput::LoadFailed { id: i, error } && i@ == id@ && error@
                == e@,
        },
{
    match fetched {
        Ok(data) => ImageWorkerOutput::ImageLoaded { id, data, path: Some(path) },
        Err(e) => ImageWorkerOutput::LoadFailed { id, error: e },
    }
}

/// The report of making a thumbnail at `path`: the path, or why opening the
/// source or saving the thumbnail failed.
pub fn thumbnail_output(id: String, made: Result<(), String>, path: String) -> (r: ImageWorkerOutput)
    ensures
        match made {
            Ok(_) => r matches ImageWorkerOutput::ThumbnailGenerated { id: i, path: p } && i@ == id@ && p@
                == path@,
            Err(e) => r matches ImageWorkerOutput::LoadFailed { id: i, error } && i@ == id@ && error@
                == e@,
        },
{
    match made {
        Ok(_) => ImageWorkerOutput::ThumbnailGenerated { id, path },
        Err(e) => ImageWorkerOutput::LoadFailed { id, error: e },
    }
}

// --- Connections ---------------------------------------------------------------------

/// What the connection worker reports.
#[derive(Debug, Clone, PartialEq)]
pub enum ConnectionWorkerOutput {
    /// The result of a one-off connection test.
    ConnectionStatus { source_id: String, is_connected: bool, error: Option<String> },
    /// A monitored source went on- or offline.
    ConnectionChanged { source_id: String, is_connected: bool },
    ReauthResult { source_id: String, success: bool, error: Option<String> },
}

/// The report of a one-off connection test: its answer, or not connected
/// with the error.
pub fn connection_test_output(source_id: String, result: Result<bool, String>) -> (r: ConnectionWorkerOutput)
    ensures
        r matches ConnectionWorkerOutput::ConnectionStatus { source_id: s, is_connected, error }
            && s@ == source_id@ && match result {
            Ok(b) => is_connected == b && error is None,
            Err(e) => !is_connected && error is Some && error->Some_0@ == e@,
        },
{
    match result {
        Ok(b) => ConnectionWorkerOutput::ConnectionStatus { source_id, is_connected: b, error: None },
        Err(e) => ConnectionWorkerOutput::ConnectionStatus {
            source_id,
            is_connected: false,
            error: Some(e),
        },
    }
}

/// The report of a re-authentication.
pub fn reauth_output(source_id: String, result: Result<(), String>) -> (r: ConnectionWorkerOutput)
    ensures
        r matches ConnectionWorkerOutput::ReauthResult { source_id: s, success, error }
            && s@ == source_id@ && match result {
            Ok(_) => success && error is None,
            Err(e) => !success && error is Some && error->Some_0@ == e@,
        },
{
    match result {
        Ok(_) => ConnectionWorkerOutput::ReauthResult { source_id, success: true, error: None },
        Err(e) => ConnectionWorkerOutput::ReauthResult { source_id, success: false, error: Some(e) },
    }
}

/// Requests to the connection worker (the owner keeps the backend handles
/// and credentials that go with them).
#[derive(Debug, Clone, PartialEq)]
pub enum ConnectionWorkerInput {
    TestConnection { source_id: String },
    StartMonitoring { source_id: String, interval_ms: u64 },
    StopMonitoring(String),
    Reauth { source_id: String },
}

/// What the connection worker asks the owner to do.
#[derive(Debug, Clone, PartialEq)]
pub enum ConnectionWorkerAction {
    /// Test the connection once and report with [`connection_test_output`].
    Test(String),
    /// Run a monitoring loop (on a copy of the worker, which marks the source
    /// monitored and probes every `interval_ms` while it stays so).
    Monitor { source_id: String, interval_ms: u64 },
    /// Re-authenticate and report with [`reauth_output`].
    Reauth(String),
    Nothing,
}

/// The connection worker's monitoring flags by source.
pub struct ConnectionWorker {
    monitoring: KeyedList<bool>,
}

impl View for ConnectionWorker {
    type V = Seq<(Seq<char>, bool)>;

    closed spec fn view(&self) -> Seq<(Seq<char>, bool)> {
        self.monitoring@
    }
}

impl ConnectionWorker {
    /// A worker that monitors nothing.
    pub fn new() -> (r: Self)
        ensures
            r@ == Seq::<(Seq<char>, bool)>::empty(),
    {
        ConnectionWorker { monitoring: KeyedList::new() }
    }

    /// Handles a request: tests, monitoring loops and re-authentication are
    /// handed to the owner; a stop clears the source's monitoring flag.
    pub fn update(&mut self, msg: ConnectionWorkerInput) -> (r: ConnectionWorkerAction)
        ensures
            match msg {
                ConnectionWorkerInput::TestConnection { source_id } => final(self)@ == old(self)@
                    && r == ConnectionWorkerAction::Test(source_id),
                ConnectionWorkerInput::StartMonitoring { source_id, interval_ms } => final(self)@
                    == old(self)@ && r == (ConnectionWorkerAction::Monitor { source_id, interval_ms }),
                ConnectionWorkerInput::StopMonitoring(source_id) => {
                    &&& r is Nothing
                    &&& forall|q: Seq<char>| #[trigger]
                        value_at(final(self)@, q) == if q == source_id@ {
                            Some(false)
                        } else {
                            value_at(old(self)@, q)
                        }
                },
                ConnectionWorkerInput::Reauth { source_id } => final(self)@ == old(self)@ && r
                    == ConnectionWorkerAction::Reauth(source_id),
            },
    {
        match msg {
            ConnectionWorkerInput::TestConnection { source_id } => ConnectionWorkerAction::Test(source_id),
            ConnectionWorkerInput::StartMonitoring { source_id, interval_ms } => ConnectionWorkerAction::Monitor {
                source_id,
                interval_ms,
            },
            ConnectionWorkerInput::StopMonitoring(source_id) => {
                self.set_monitoring(source_id.as_str(), false);
                ConnectionWorkerAction::Nothing
            },
            ConnectionWorkerInput::Reauth { source_id } => ConnectionWorkerAction::Reauth(source_id),
        }
    }

    /// Marks a source as monitored (monitoring starts) or not (a stop was asked for).
    pub fn set_monitoring(&mut self, source_id: &str, on: bool)
        ensures
            forall|q: Seq<char>| #[trigger]
                value_at(final(self)@, q) == if q == source_id@ {
                    Some(on)
                } else {
                    value_at(old(self)@, q)
                },
    {
        self.monitoring.set(source_id, on);
    }

    /// Whether the monitoring loop of a source goes on: only while its flag is set.
    pub fn is_monitoring(&self, source_id: &str) -> (r: bool)
        ensures
            r == (value_at(self@, source_id@) == Some(true)),
    {
        match self.monitoring.get(source_id) {
            Some(b) => *b,
            None => false,
        }
    }
}

/// The last status a monitoring loop reported for its source.
pub struct ConnectionMonitor {
    pub last_status: bool,
}

impl ConnectionMonitor {
    /// A loop that has reported nothing, which counts as offline.
    pub fn new() -> (r: Self)
        ensures
            !r.last_status,
    {
        ConnectionMonitor { last_status: false }
    }

    /// Takes one probe (its answer, or an error, which counts as offline) and
    /// reports a change exactly when the status differs from the last one.
    pub fn observe(&mut self, source_id: &str, probe: Result<bool, String>) -> (r: Option<ConnectionWorkerOutput>)
        ensures
            ({
                let now = match probe {
                    Ok(b) => b,
                    Err(_) => false,
                };
                &&& final(self).last_status == now
                &&& if now != old(self).last_status {
                    r matches Some(ConnectionWorkerOutput::ConnectionChanged { source_id: s, is_connected })
                        && s@ == source_id@ && is_connected == now
                } else {
                    r is None
                }
            }),
    {
        let now = match probe {
            Ok(b) => b,
            Err(_) => false,
        };
        if now != self.last_status {
            self.last_status = now;
            Some(ConnectionWorkerOutput::ConnectionChanged { source_id: owned(source_id), is_connected: now })
        } else {
            None
        }
    }
}

/// Whether a monitoring loop goes on after loading the source's credentials:
/// only when some were found.
pub fn credentials_found<C>(loaded: &Result<Option<C>, String>) -> (r: bool)
    ensures
        r == (loaded matches Ok(Some(_))),
{
    match loaded {
        Ok(Some(_)) => true,
        _ => false,
    }
}

} // verus!
