//! The bookkeeping of a full sync of one backend: the cache keys it writes,
//! which listed items are new (and so get their artwork fetched), and the
//! tally of synced entries and failures that decides how the sync ends.
//!
//! Fetching from the backend, writing the cache and publishing events are
//! done by the application shell, which reports each outcome here.

use vstd::prelude::*;
use crate::text::{join_strings, joined, owned, strings_contain, strs_view};

verus! {

/// The kind of a synced item.
#[derive(Debug, Clone, Copy, PartialEq, Eq, Structural)]
pub enum SyncItemKind {
    Movie,
    Show,
    Episode,
    MusicAlbum,
    MusicTrack,
    Photo,
}

/// The label of a kind in cache keys.
pub open spec fn kind_label(k: SyncItemKind) -> Seq<char> {
    match k {
        SyncItemKind::Movie => "movie"@,
        SyncItemKind::Show => "show"@,
        SyncItemKind::Episode => "episode"@,
        SyncItemKind::MusicAlbum => "album"@,
        SyncItemKind::MusicTrack => "track"@,
        SyncItemKind::Photo => "photo"@,
    }
}

impl SyncItemKind {
    /// The label of the kind in cache keys.
    pub fn label(&self) -> (r: &'static str)
        ensures
            r@ == kind_label(*self),
    {
        match self {
            SyncItemKind::Movie => "movie",
            SyncItemKind::Show => "show",
            SyncItemKind::Episode => "episode",
            SyncItemKind::MusicAlbum => "album",
            SyncItemKind::MusicTrack => "track",
            SyncItemKind::Photo => "photo",
        }
    }
}

/// A listed item as the sync reads it: its id and kind.
#[derive(Debug, Clone, PartialEq)]
pub struct SyncedItem {
    pub id: String,
    pub kind: SyncItemKind,
}

/// `{backend}:home_sections`.
pub open spec fn home_sections_key_spec(backend: Seq<char>) -> Seq<char> {
    backend + ":home_sections"@
}

/// `{backend}:libraries`.
pub open spec fn libraries_key_spec(backend: Seq<char>) -> Seq<char> {
    backend + ":libraries"@
}

/// `{backend}:library:{library}:items`.
pub open spec fn library_items_key_spec(backend: Seq<char>, library: Seq<char>) -> Seq<char> {
    backend + ":library:"@ + library + ":items"@
}

/// `{backend}:{library}:{kind}:{id}`.
pub open spec fn item_key_spec(backend: Seq<char>, library: Seq<char>, kind: SyncItemKind, id: Seq<char>) -> Seq<char> {
    backend + ":"@ + library + ":"@ + kind_label(kind) + ":"@ + id
}

/// The cache key of a backend's home sections.
pub fn home_sections_key(backend: &str) -> (r: String)
    ensures
        r@ == home_sections_key_spec(backend@),
{
    let mut s = owned(backend);
    s.append(":home_sections");
    s
}

/// The cache key of a backend's library list.
pub fn libraries_key(backend: &str) -> (r: String)
    ensures
        r@ == libraries_key_spec(backend@),
{
    let mut s = owned(backend);
    s.append(":libraries");
    s
}

/// The cache key of a library's item list.
pub fn library_items_key(backend: &str, library: &str) -> (r: String)
    ensures
        r@ == library_items_key_spec(backend@, library@),
{
    let mut s = owned(backend);
    s.append(":library:");
    s.append(library);
    s.append(":items");
    s
}

/// The cache key of one item.
pub fn item_key(backend: &str, library: &str, kind: SyncItemKind, id: &str) -> (r: String)
    ensures
        r@ == item_key_spec(backend@, library@, kind, id@),
{
    let mut s = owned(backend);
    s.append(":");
    s.append(library);
    s.append(":");
    s.append(kind.label());
    s.append(":");
    s.append(id);
    s
}

/// What syncing one library's listing writes: the cache key of every listed
/// item, in order, and the positions of the items not cached before.
#[derive(Debug, Clone, PartialEq)]
pub struct LibraryItemsPlan {
    pub cache_keys: Vec<String>,
    pub new_items: Vec<usize>,
}

/// The positions, in order, of the items of `items` whose id is not in
/// `existing`.
pub open spec fn new_positions(items: Seq<SyncedItem>, existing: Set<Seq<char>>) -> Seq<usize>
    decreases items.len(),
{
    if items.len() == 0 {
        Seq::empty()
    } else {
        let rest = new_positions(items.drop_last(), existing);
        if existing.contains(items.last().id@) {
            rest
        } else {
            rest.push((items.len() - 1) as usize)
        }
    }
}

/// Plan the caching of a library's listing against the ids cached before.
pub fn plan_library_items(backend: &str, library: &str, items: &[SyncedItem], existing_ids: &Vec<String>) -> (r: LibraryItemsPlan)
    ensures
        r.cache_keys@.len() == items@.len(),
        forall|i: int|
            0 <= i < items@.len() ==> #[trigger] r.cache_keys@[i]@ == item_key_spec(
                backend@,
                library@,
                items@[i].kind,
                items@[i].id@,
            ),
        r.new_items@ == new_positions(items@, strs_view(existing_ids@).to_set()),
{
    let ghost existing = strs_view(existing_ids@).to_set();
    let mut keys: Vec<String> = Vec::new();
    let mut fresh: Vec<usize> = Vec::new();
    let mut i: usize = 0;
    while i < items.len()
        invariant
            i <= items@.len(),
            existing == strs_view(existing_ids@).to_set(),
            keys@.len() == i,
            forall|j: int|
                0 <= j < i ==> #[trigger] keys@[j]@ == item_key_spec(
                    backend@,
                    library@,
                    items@[j].kind,
                    items@[j].id@,
                ),
            fresh@ == new_positions(items@.take(i as int), existing),
        decreases items.len() - i,
    {
        let it = &items[i];
        proof {
            assert(items@.take(i as int + 1).drop_last() =~= items@.take(i as int));
        }
        keys.push(item_key(backend, library, it.kind, it.id.as_str()));
        if !strings_contain(existing_ids, &it.id) {
            fresh.push(i);
        }
        i = i + 1;
    }
    assert(items@.take(items.len() as int) =~= items@);
    LibraryItemsPlan { cache_keys: keys, new_items: fresh }
}

/// A step of a sync that failed, with the error's text.
#[derive(Debug, Clone, PartialEq)]
pub enum SyncFailure {
    CacheHomeSections(String),
    CacheLibrary { id: String, error: String },
    CacheLibraryList(String),
    SyncLibrary { title: String, error: String },
    FetchLibraries(String),
}

/// The message a failure is recorded with.
pub open spec fn failure_text(f: SyncFailure) -> Seq<char> {
    match f {
        SyncFailure::CacheHomeSections(e) => "Failed to cache home sections: "@ + e@,
        SyncFailure::CacheLibrary { id, error } => "Failed to cache library "@ + id@ + ": "@ + error@,
        SyncFailure::CacheLibraryList(e) => "Failed to cache library list: "@ + e@,
        SyncFailure::SyncLibrary { title, error } => "Failed to sync library "@ + title@ + ": "@
            + error@,
        SyncFailure::FetchLibraries(e) => "Failed to fetch libraries: "@ + e@,
    }
}

impl SyncFailure {
    /// The message the failure is recorded with.
    pub fn message(&self) -> (r: String)
        ensures
            r@ == failure_text(*self),
    {
        match self {
            SyncFailure::CacheHomeSections(e) => {
                let mut s = owned("Failed to cache home sections: ");
                s.append(e.as_str());
                s
            },
            SyncFailure::CacheLibrary { id, error } => {
                let mut s = owned("Failed to cache library ");
                s.append(id.as_str());
                s.append(": ");
                s.append(error.as_str());
                s
            },
            SyncFailure::CacheLibraryList(e) => {
                let mut s = owned("Failed to cache library list: ");
                s.append(e.as_str());
                s
            },
            SyncFailure::SyncLibrary { title, error } => {
                let mut s = owned("Failed to sync library ");
                s.append(title.as_str());
                s.append(": ");
                s.append(error.as_str());
                s
            },
            SyncFailure::FetchLibraries(e) => {
                let mut s = owned("Failed to fetch libraries: ");
                s.append(e.as_str());
                s
            },
        }
    }
}

/// The message when the backend being synced has no source record.
pub fn missing_source_message(backend: &str) -> (r: String)
    ensures
        r@ == "Source "@ + backend@
            + " does not exist in database - sources must be created during authentication, not during sync"@,
{
    let mut s = owned("Source ");
    s.append(backend);
    s.append(" does not exist in database - sources must be created during authentication, not during sync");
    s
}

/// The status line while a library syncs.
pub fn syncing_library_label(title: &str) -> (r: String)
    ensures
        r@ == "Syncing library: "@ + title@,
{
    let mut s = owned("Syncing library: ");
    s.append(title);
    s
}

/// How a sync ended.
#[derive(Debug, Clone, PartialEq)]
pub enum SyncOutcome {
    Completed { items_synced: usize },
    Failed { error: String },
}

/// The running count of a sync.
pub struct SyncTally {
    items_synced: usize,
    errors: Vec<String>,
}

/// The tally as `(entries synced, failure messages)`.
pub struct TallyModel {
    pub items_synced: nat,
    pub errors: Seq<Seq<char>>,
}

impl View for SyncTally {
    type V = TallyModel;

    closed spec fn view(&self) -> TallyModel {
        TallyModel { items_synced: self.items_synced as nat, errors: strs_view(self.errors@) }
    }
}

impl SyncTally {
    /// Nothing synced, nothing failed.
    pub fn new() -> (r: Self)
        ensures
            r@.items_synced == 0,
            r@.errors.len() == 0,
    {
        let r = SyncTally { items_synced: 0, errors: Vec::new() };
        assert(strs_view(r.errors@) =~= Seq::empty());
        r
    }

    /// Count `n` more synced entries (a home section list, a stored library,
    /// a synced library).
    pub fn add_synced(&mut self, n: usize)
        requires
            old(self)@.items_synced + n <= usize::MAX,
        ensures
            final(self)@.items_synced == old(self)@.items_synced + n,
            final(self)@.errors == old(self)@.errors,
    {
        self.items_synced = self.items_synced + n;
    }

    /// Record a failed step.
    pub fn record(&mut self, failure: &SyncFailure)
        ensures
            final(self)@.items_synced == old(self)@.items_synced,
            final(self)@.errors == old(self)@.errors.push(failure_text(*failure)),
    {
        let m = failure.message();
        self.errors.push(m);
        assert(strs_view(self.errors@) =~= old(self)@.errors.push(failure_text(*failure)));
    }

    /// Entries synced so far.
    pub fn items_synced(&self) -> (r: usize)
        ensures
            r == self@.items_synced,
    {
        self.items_synced
    }

    /// The recorded failure messages, in order.
    pub fn errors(&self) -> (r: &Vec<String>)
        ensures
            strs_view(r@) == self@.errors,
    {
        &self.errors
    }

    /// How the sync ends: completed with the count when nothing failed, else
    /// failed with the messages joined by `, `.
    pub fn outcome(&self) -> (r: SyncOutcome)
        ensures
            self@.errors.len() == 0 ==> r == (SyncOutcome::Completed { items_synced: self@.items_synced as usize }),
            self@.errors.len() > 0 ==> (r matches SyncOutcome::Failed { error } && error@ == joined(
                self@.errors,
                ", "@,
            )),
    {
        if self.errors.len() == 0 {
            SyncOutcome::Completed { items_synced: self.items_synced }
        } else {
            SyncOutcome::Failed { error: join_strings(&self.errors, ", ") }
        }
    }
}

// --- The steps of a backend sync ----------------------------------------------------

/// What one step of a backend sync came to, as the owner reports it. The
/// steps come in this order: home sections, the library listing, each
/// library stored, the library list stored, each library's items synced.
#[derive(Debug, PartialEq)]
pub enum SyncEvent {
    /// `count` home sections were fetched, and storing them gave `stored`.
    HomeSectionsStored { count: usize, stored: Result<(), String> },
    /// The backend gave no home sections; not a failure, nothing counted.
    HomeSectionsUnavailable,
    /// Listing the libraries failed.
    LibrariesFetchFailed(String),
    /// Storing the library `id` gave `stored`.
    LibraryStored { id: String, stored: Result<(), String> },
    /// Storing the list of libraries gave `stored`.
    LibraryListStored(Result<(), String>),
    /// Syncing the items of the library `title` gave `synced`.
    LibrarySynced { title: String, synced: Result<(), String> },
}

/// How many entries a step adds to the count: the home sections when they
/// were stored, one for a stored library, one for a synced library.
pub open spec fn event_count(e: SyncEvent) -> nat {
    match e {
        SyncEvent::HomeSectionsStored { count, stored } => if stored is Ok {
            count as nat
        } else {
            0
        },
        SyncEvent::LibraryStored { id: _, stored } => if stored is Ok {
            1
        } else {
            0
        },
        SyncEvent::LibrarySynced { title: _, synced } => if synced is Ok {
            1
        } else {
            0
        },
        _ => 0,
    }
}

/// The failure message a step records, if it failed.
pub open spec fn event_failure(e: SyncEvent) -> Option<Seq<char>> {
    match e {
        SyncEvent::HomeSectionsStored { count: _, stored } => match stored {
            Err(m) => Some("Failed to cache home sections: "@ + m@),
            Ok(_) => None,
        },
        SyncEvent::HomeSectionsUnavailable => None,
        SyncEvent::LibrariesFetchFailed(m) => Some("Failed to fetch libraries: "@ + m@),
        SyncEvent::LibraryStored { id, stored } => match stored {
            Err(m) => Some("Failed to cache library "@ + id@ + ": "@ + m@),
            Ok(_) => None,
        },
        SyncEvent::LibraryListStored(stored) => match stored {
            Err(m) => Some("Failed to cache library list: "@ + m@),
            Ok(_) => None,
        },
        SyncEvent::LibrarySynced { title, synced } => match synced {
            Err(m) => Some("Failed to sync library "@ + title@ + ": "@ + m@),
            Ok(_) => None,
        },
    }
}

/// The tally after one step.
pub open spec fn tally_step(t: TallyModel, e: SyncEvent) -> TallyModel {
    TallyModel {
        items_synced: t.items_synced + event_count(e),
        errors: match event_failure(e) {
            Some(m) => t.errors.push(m),
            None => t.errors,
        },
    }
}

/// The tally after a run of steps.
pub open spec fn tally_run(t: TallyModel, es: Seq<SyncEvent>) -> TallyModel
    decreases es.len(),
{
    if es.len() == 0 {
        t
    } else {
        tally_step(tally_run(t, es.drop_last()), es.last())
    }
}

/// The entries a run of steps counts.
pub open spec fn run_count(es: Seq<SyncEvent>) -> nat
    decreases es.len(),
{
    if es.len() == 0 {
        0
    } else {
        run_count(es.drop_last()) + event_count(es.last())
    }
}

/// The failure messages of a run of steps, in order.
pub open spec fn run_failures(es: Seq<SyncEvent>) -> Seq<Seq<char>>
    decreases es.len(),
{
    if es.len() == 0 {
        Seq::empty()
    } else {
        match event_failure(es.last()) {
            Some(m) => run_failures(es.drop_last()).push(m),
            None => run_failures(es.drop_last()),
        }
    }
}

/// Whether a sync of a backend starts: only when its source is recorded;
/// otherwise it ends at once with the missing-source message.
pub fn begin_backend_sync(backend: &str, source_exists: bool) -> (r: Result<SyncTally, String>)
    ensures
        source_exists ==> (r matches Ok(t) && t@.items_synced == 0 && t@.errors.len() == 0),
        !source_exists ==> (r matches Err(m) && m@ == "Source "@ + backend@
            + " does not exist in database - sources must be created during authentication, not during sync"@),
{
    if source_exists {
        Ok(SyncTally::new())
    } else {
        Err(missing_source_message(backend))
    }
}

impl SyncTally {
    /// Takes the outcome of one step: successes add to the count, a failure
    /// adds its message, and the sync goes on either way.
    pub fn apply(&mut self, e: SyncEvent)
        requires
            old(self)@.items_synced + event_count(e) <= usize::MAX,
        ensures
            final(self)@ == tally_step(old(self)@, e),
    {
        match e {
            SyncEvent::HomeSectionsStored { count, stored } => match stored {
                Ok(_) => self.add_synced(count),
                Err(m) => self.record(&SyncFailure::CacheHomeSections(m)),
            },
            SyncEvent::HomeSectionsUnavailable => {},
            SyncEvent::LibrariesFetchFailed(m) => self.record(&SyncFailure::FetchLibraries(m)),
            SyncEvent::LibraryStored { id, stored } => match stored {
                Ok(_) => self.add_synced(1),
                Err(m) => self.record(&SyncFailure::CacheLibrary { id, error: m }),
            },
            SyncEvent::LibraryListStored(stored) => match stored {
                Ok(_) => {},
                Err(m) => self.record(&SyncFailure::CacheLibraryList(m)),
            },
            SyncEvent::LibrarySynced { title, synced } => match synced {
                Ok(_) => self.add_synced(1),
                Err(m) => self.record(&SyncFailure::SyncLibrary { title, error: m }),
            },
        }
    }
}

/// Over any run of steps from a fresh tally, the count is exactly what the
/// successful steps add, the errors are the failed steps' messages in the
/// order they came, and the sync completes exactly when no step failed.
pub proof fn lemma_sync_run(es: Seq<SyncEvent>)
    ensures
        tally_run(TallyModel { items_synced: 0, errors: Seq::empty() }, es) == (TallyModel {
            items_synced: run_count(es),
            errors: run_failures(es),
        }),
        (run_failures(es).len() == 0) <==> (forall|i: int| 0 <= i < es.len() ==> #[trigger] event_failure(es[i]) is None),
    decreases es.len(),
{
    if es.len() > 0 {
        let es1 = es.drop_last();
        lemma_sync_run(es1);
        assert forall|i: int| 0 <= i < es1.len() implies #[trigger] es1[i] == es[i] by {}
        if event_failure(es.last()) is None {
            if forall|i: int| 0 <= i < es1.len() ==> #[trigger] event_failure(es1[i]) is None {
                assert forall|i: int| 0 <= i < es.len() implies #[trigger] event_failure(es[i]) is None by {
                    if i < es1.len() {
                        assert(es1[i] == es[i]);
                    }
                }
            } else {
                let k = choose|k: int| 0 <= k < es1.len() && !(#[trigger] event_failure(es1[k]) is None);
                assert(es1[k] == es[k]);
            }
        } else {
            let n = es.len() - 1;
            assert(es[n] == es.last());
        }
    }
}

/// A listed item that was cached before is never new, and every new
/// position names an item that was not.
pub proof fn lemma_new_positions_exact(items: Seq<SyncedItem>, existing: Set<Seq<char>>, k: int)
    requires
        items.len() <= usize::MAX,
        0 <= k < new_positions(items, existing).len(),
    ensures
        0 <= new_positions(items, existing)[k] < items.len(),
        !existing.contains(items[new_positions(items, existing)[k] as int].id@),
    decreases items.len(),
{
    let rest = new_positions(items.drop_last(), existing);
    if existing.contains(items.last().id@) || k < rest.len() {
        lemma_new_positions_exact(items.drop_last(), existing, k);
        let j = rest[k] as int;
        assert(items.drop_last()[j] == items[j]);
    } else {
        assert(new_positions(items, existing)[k] == (items.len() - 1) as usize);
    }
}

} // verus!
