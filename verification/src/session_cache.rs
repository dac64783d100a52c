//! In-memory, session-scoped content cache for already-fetched library and Home
//! content.
//!
//! Library entries are bounded by entry count and evicted least-recently-used
//! first; the Home slot is held apart and is never evicted by library churn.
//! Entries store the raw fetched items; watch state is patched in place.
//!
//! Keys:
//! - library entry: `{source_type}:{source_id}:{section_key}`;
//! - Home slot: a source-set key, the lexically sorted `{source_type}:{source_id}`
//!   registry keys joined by `|`, so adding or removing a source misses.
//!
//! The entries live in one vector in recency order (least recently used
//! first), which keeps the key set and the recency order the same by
//! construction.

use vstd::prelude::*;
use crate::media::{composite_key, same_item, source_type_name, MediaHub, MediaItem, SourceType};
use crate::text::{
    join_strings, joined, lemma_sorted_exists, owned, sort_strings, sorted_of, starts_with, str_eq,
    strs_view, usz,
};

verus! {

/// Default number of library entries retained before eviction.
pub const DEFAULT_LIBRARY_CAPACITY: usize = 12;

// --- Invalidation policy ------------------------------------------------------

/// A change to the connected-source set (or library visibility) that the cache
/// must react to.
#[derive(Debug, Clone, Copy, PartialEq, Eq, Structural)]
pub enum SourceSetEvent {
    /// A source was added: only Home (which spans the whole set) goes stale.
    SourceAdded,
    /// A source was removed: that source's library entries and Home go stale.
    SourceRemoved,
    /// The browsed source changed: nothing goes stale.
    BrowsedSwitched,
    /// A library's visibility toggled: Home is filtered by it, so it goes stale.
    VisibilityChanged,
}

/// What `apply_invalidation` drops for a given event.
#[derive(Debug, Clone, Copy, PartialEq, Eq, Structural)]
pub struct CacheInvalidation {
    /// Drop the Home slot.
    pub home: bool,
    /// Drop the affected source's library entries (by key prefix).
    pub source_libraries: bool,
    /// Advance the source-set epoch so an in-flight refetch built against the
    /// old set is dropped on return.
    pub bump_source_set_epoch: bool,
}

impl Default for CacheInvalidation {
    fn default() -> (r: Self)
        ensures
            r == (CacheInvalidation { home: false, source_libraries: false, bump_source_set_epoch: false }),
    {
        CacheInvalidation { home: false, source_libraries: false, bump_source_set_epoch: false }
    }
}

/// The invalidation policy: adding a source drops Home only, removing one drops
/// Home and that source's libraries, switching the browsed source drops
/// nothing, and a visibility change drops Home without an epoch bump.
pub open spec fn invalidation_policy(event: SourceSetEvent) -> CacheInvalidation {
    match event {
        SourceSetEvent::SourceAdded => CacheInvalidation {
            home: true,
            source_libraries: false,
            bump_source_set_epoch: true,
        },
        SourceSetEvent::SourceRemoved => CacheInvalidation {
            home: true,
            source_libraries: true,
            bump_source_set_epoch: true,
        },
        SourceSetEvent::BrowsedSwitched => CacheInvalidation {
            home: false,
            source_libraries: false,
            bump_source_set_epoch: false,
        },
        SourceSetEvent::VisibilityChanged => CacheInvalidation {
            home: true,
            source_libraries: false,
            bump_source_set_epoch: false,
        },
    }
}

/// What each event costs the cache, over all events: only a removed source
/// loses its library entries; the source-set epoch moves exactly when the
/// set of sources changes (a source added or removed); Home goes stale on
/// every event but a switch of the browsed source, which drops nothing.
pub proof fn lemma_invalidation_meaning(event: SourceSetEvent)
    ensures
        invalidation_policy(event).source_libraries <==> event == SourceSetEvent::SourceRemoved,
        invalidation_policy(event).bump_source_set_epoch <==> (event == SourceSetEvent::SourceAdded
            || event == SourceSetEvent::SourceRemoved),
        invalidation_policy(event).home <==> event != SourceSetEvent::BrowsedSwitched,
{
}

/// What the cache must drop for a source-set event.
pub fn invalidation_for(event: SourceSetEvent) -> (r: CacheInvalidation)
    ensures
        r == invalidation_policy(event),
{
    match event {
        SourceSetEvent::SourceAdded => CacheInvalidation {
            home: true,
            source_libraries: false,
            bump_source_set_epoch: true,
        },
        SourceSetEvent::SourceRemoved => CacheInvalidation {
            home: true,
            source_libraries: true,
            bump_source_set_epoch: true,
        },
        SourceSetEvent::BrowsedSwitched => CacheInvalidation::default(),
        SourceSetEvent::VisibilityChanged => CacheInvalidation {
            home: true,
            source_libraries: false,
            bump_source_set_epoch: false,
        },
    }
}

// --- Item diff ----------------------------------------------------------------------

/// The difference between a cached item list and a refetched one.
#[derive(Debug, Clone, PartialEq)]
pub struct ItemDiff {
    /// Ids present only in the new list.
    pub added: Vec<String>,
    /// Ids present only in the old list.
    pub removed: Vec<String>,
    /// Ids in both whose item changed (watch state or any other field).
    pub changed: Vec<String>,
    /// The shared items appear in a different relative order.
    pub reordered: bool,
}

impl ItemDiff {
    /// True when old and new are equivalent: nothing to apply.
    pub fn is_empty(&self) -> (r: bool)
        ensures
            r == (self.added@.len() == 0 && self.removed@.len() == 0 && self.changed@.len() == 0
                && !self.reordered),
    {
        self.added.len() == 0 && self.removed.len() == 0 && self.changed.len() == 0
            && !self.reordered
    }
}

/// The ids of items, in order.
pub open spec fn ids_of(s: Seq<MediaItem>) -> Seq<Seq<char>> {
    s.map_values(|it: MediaItem| it.id@)
}

/// The last item of `s` with id `id` (a later item with the same id shadows
/// an earlier one, as when the list is keyed by id).
pub open spec fn last_with_id(s: Seq<MediaItem>, id: Seq<char>) -> Option<MediaItem>
    decreases s.len(),
{
    if s.len() == 0 {
        None
    } else if s.last().id@ == id {
        Some(s.last())
    } else {
        last_with_id(s.drop_last(), id)
    }
}

/// Ids of `new`'s items, in `new`'s order, that no item of `old` has.
pub open spec fn added_ids(old: Seq<MediaItem>, new: Seq<MediaItem>) -> Seq<Seq<char>>
    decreases new.len(),
{
    if new.len() == 0 {
        Seq::empty()
    } else if last_with_id(old, new.last().id@) is None {
        added_ids(old, new.drop_last()).push(new.last().id@)
    } else {
        added_ids(old, new.drop_last())
    }
}

/// Ids of `new`'s items, in `new`'s order, whose item under the same id in
/// `old` differs in some field.
pub open spec fn changed_ids(old: Seq<MediaItem>, new: Seq<MediaItem>) -> Seq<Seq<char>>
    decreases new.len(),
{
    if new.len() == 0 {
        Seq::empty()
    } else if last_with_id(old, new.last().id@) matches Some(o) && !same_item(o, new.last()) {
        changed_ids(old, new.drop_last()).push(new.last().id@)
    } else {
        changed_ids(old, new.drop_last())
    }
}

/// Ids of `old`'s items, in `old`'s order, that no item of `new` has.
pub open spec fn removed_ids(old: Seq<MediaItem>, new: Seq<MediaItem>) -> Seq<Seq<char>> {
    added_ids(new, old)
}

/// Whether the id orders differ while no id was added or removed.
pub open spec fn reordered_ids(old: Seq<MediaItem>, new: Seq<MediaItem>) -> bool {
    added_ids(old, new).len() == 0 && removed_ids(old, new).len() == 0 && ids_of(old) != ids_of(new)
}

/// The position of the last item with id `id`.
fn last_index_with_id(s: &[MediaItem], id: &str) -> (r: Option<usize>)
    ensures
        match r {
            Some(i) => i < s@.len() && last_with_id(s@, id@) == Some(s@[usz(i)]),
            None => last_with_id(s@, id@) is None,
        },
{
    let mut i: usize = s.len();
    assert(s@.subrange(0, s@.len() as int) =~= s@);
    while i > 0
        invariant
            i <= s@.len(),
            last_with_id(s@, id@) == last_with_id(s@.subrange(0, usz(i)), id@),
        decreases i,
    {
        let ghost pre = s@.subrange(0, usz(i));
        assert(pre.drop_last() =~= s@.subrange(0, i - 1));
        if str_eq(s[i - 1].id.as_str(), id) {
            return Some(i - 1);
        }
        i = i - 1;
    }
    None
}

/// Diff two item lists by id. `changed` compares every field, so a
/// watch-state-only change registers; `reordered` is set when no id was added
/// or removed but the id order differs.
pub fn diff_items(old: &[MediaItem], new: &[MediaItem]) -> (r: ItemDiff)
    ensures
        strs_view(r.added@) == added_ids(old@, new@),
        strs_view(r.removed@) == removed_ids(old@, new@),
        strs_view(r.changed@) == changed_ids(old@, new@),
        r.reordered == reordered_ids(old@, new@),
{
    let mut added: Vec<String> = Vec::new();
    let mut changed: Vec<String> = Vec::new();
    let mut i: usize = 0;
    while i < new.len()
        invariant
            i <= new@.len(),
            strs_view(added@) == added_ids(old@, new@.subrange(0, usz(i))),
            strs_view(changed@) == changed_ids(old@, new@.subrange(0, usz(i))),
        decreases new.len() - i,
    {
        let ghost pre = new@.subrange(0, usz(i));
        let ghost nxt = new@.subrange(0, i + 1);
        assert(nxt.drop_last() =~= pre);
        assert(nxt.last() == new@[usz(i)]);
        match last_index_with_id(old, new[i].id.as_str()) {
            None => {
                added.push(new[i].id.clone());
                assert(strs_view(added@) =~= added_ids(old@, pre).push(new@[usz(i)].id@));
            },
            Some(j) => {
                if !old[j].same_as(&new[i]) {
                    changed.push(new[i].id.clone());
                    assert(strs_view(changed@) =~= changed_ids(old@, pre).push(new@[usz(i)].id@));
                }
            },
        }
        i = i + 1;
    }
    assert(new@.subrange(0, usz(i)) =~= new@);
    let mut removed: Vec<String> = Vec::new();
    i = 0;
    while i < old.len()
        invariant
            i <= old@.len(),
            strs_view(removed@) == added_ids(new@, old@.subrange(0, usz(i))),
        decreases old.len() - i,
    {
        let ghost pre = old@.subrange(0, usz(i));
        let ghost nxt = old@.subrange(0, i + 1);
        assert(nxt.drop_last() =~= pre);
        assert(nxt.last() == old@[usz(i)]);
        if last_index_with_id(new, old[i].id.as_str()).is_none() {
            removed.push(old[i].id.clone());
            assert(strs_view(removed@) =~= added_ids(new@, pre).push(old@[usz(i)].id@));
        }
        i = i + 1;
    }
    assert(old@.subrange(0, usz(i)) =~= old@);
    let mut reordered = false;
    if added.len() == 0 && removed.len() == 0 {
        reordered = !same_ids(old, new);
    }
    ItemDiff { added, removed, changed, reordered }
}

/// Whether two lists have the same ids in the same order.
fn same_ids(a: &[MediaItem], b: &[MediaItem]) -> (r: bool)
    ensures
        r == (ids_of(a@) == ids_of(b@)),
{
    if a.len() != b.len() {
        assert(ids_of(a@).len() != ids_of(b@).len());
        return false;
    }
    let mut i: usize = 0;
    while i < a.len()
        invariant
            a@.len() == b@.len(),
            i <= a@.len(),
            forall|k: int| 0 <= k < i ==> #[trigger] a@[k].id@ == b@[k].id@,
        decreases a.len() - i,
    {
        if !str_eq(a[i].id.as_str(), b[i].id.as_str()) {
            assert(ids_of(a@)[usz(i)] != ids_of(b@)[usz(i)]);
            return false;
        }
        i = i + 1;
    }
    assert(ids_of(a@) =~= ids_of(b@));
    true
}

/// No id occurs twice.
pub open spec fn unique_ids(s: Seq<MediaItem>) -> bool {
    forall|i: int, j: int| 0 <= i < j < s.len() ==> #[trigger] s[i].id@ != #[trigger] s[j].id@
}

/// In a list with unique ids, the item found under an item's id is that item.
proof fn lemma_last_with_id_unique(s: Seq<MediaItem>, k: int)
    requires
        unique_ids(s),
        0 <= k < s.len(),
    ensures
        last_with_id(s, s[k].id@) == Some(s[k]),
    decreases s.len(),
{
    if k < s.len() - 1 {
        let d = s.drop_last();
        assert(s[k].id@ != s[s.len() - 1].id@);
        assert(unique_ids(d)) by {
            assert forall|i: int, j: int| 0 <= i < j < d.len() implies #[trigger] d[i].id@
                != #[trigger] d[j].id@ by {
                assert(d[i] == s[i] && d[j] == s[j]);
            }
        }
        assert(d[k] == s[k]);
        lemma_last_with_id_unique(d, k);
    }
}

/// Every item of `new` is found in `old` when `new` is a prefix of `old`
/// with unique ids, so nothing is added or changed.
proof fn lemma_diff_prefix_self(s: Seq<MediaItem>, n: int)
    requires
        unique_ids(s),
        0 <= n <= s.len(),
    ensures
        added_ids(s, s.subrange(0, n)).len() == 0,
        changed_ids(s, s.subrange(0, n)).len() == 0,
    decreases n,
{
    if n > 0 {
        let p = s.subrange(0, n);
        assert(p.drop_last() =~= s.subrange(0, n - 1));
        assert(p.last() == s[n - 1]);
        lemma_last_with_id_unique(s, n - 1);
        lemma_diff_prefix_self(s, n - 1);
    }
}

/// Diffing a list with unique ids against itself finds nothing to apply.
pub proof fn lemma_diff_self_empty(s: Seq<MediaItem>)
    requires
        unique_ids(s),
    ensures
        added_ids(s, s).len() == 0,
        removed_ids(s, s).len() == 0,
        changed_ids(s, s).len() == 0,
        !reordered_ids(s, s),
{
    lemma_diff_prefix_self(s, s.len() as int);
    assert(s.subrange(0, s.len() as int) =~= s);
}

// --- Keys -----------------------------------------------------------------------

/// The registry key `{source_type}:{source_id}` of a source.
pub open spec fn registry_key(e: (SourceType, String)) -> Seq<char> {
    source_type_name(e.0) + ":"@ + e.1@
}

/// The registry keys of sources, in order.
pub open spec fn registry_keys(s: Seq<(SourceType, String)>) -> Seq<Seq<char>> {
    s.map_values(|e: (SourceType, String)| registry_key(e))
}

/// The Home key of a set of sources: their registry keys sorted and joined by `|`.
pub open spec fn source_set_key_of(s: Seq<(SourceType, String)>) -> Seq<char> {
    joined(sorted_of(registry_keys(s)), "|"@)
}

/// The order in which sources are listed does not change their Home key.
pub proof fn lemma_source_set_key_order_free(a: Seq<(SourceType, String)>, b: Seq<(SourceType, String)>)
    requires
        registry_keys(a).to_multiset() == registry_keys(b).to_multiset(),
    ensures
        source_set_key_of(a) == source_set_key_of(b),
{
    assert(sorted_of(registry_keys(a)) == sorted_of(registry_keys(b)));
}

/// Listing the same sources in another order gives the same Home key.
pub proof fn lemma_source_set_key_permutation(a: Seq<(SourceType, String)>, b: Seq<(SourceType, String)>)
    requires
        a.to_multiset() == b.to_multiset(),
    ensures
        source_set_key_of(a) == source_set_key_of(b),
{
    lemma_registry_keys_perm(a, b);
    lemma_source_set_key_order_free(a, b);
}

/// Reordering the sources reorders their registry keys.
proof fn lemma_registry_keys_perm(a: Seq<(SourceType, String)>, b: Seq<(SourceType, String)>)
    requires
        a.to_multiset() == b.to_multiset(),
    ensures
        registry_keys(a).to_multiset() == registry_keys(b).to_multiset(),
    decreases a.len(),
{
    broadcast use vstd::seq_lib::group_to_multiset_ensures;
    broadcast use vstd::multiset::group_multiset_axioms;

    assert(a.len() == a.to_multiset().len());
    assert(b.len() == b.to_multiset().len());
    if a.len() == 0 {
        assert(registry_keys(a) =~= registry_keys(b));
    } else {
        let x = a.last();
        let a1 = a.drop_last();
        assert(a =~= a1.push(x));
        assert(a.to_multiset() == a1.to_multiset().insert(x));
        assert(a.contains(x)) by {
            assert(a[a.len() - 1] == x);
        }
        assert(a.to_multiset().count(x) > 0);
        assert(b.contains(x));
        let j = choose|j: int| 0 <= j < b.len() && b[j] == x;
        let b1 = b.remove(j);
        assert(b1.to_multiset() == b.to_multiset().remove(x));
        assert(a1.to_multiset() =~= a.to_multiset().remove(x));
        lemma_registry_keys_perm(a1, b1);
        let ka = registry_keys(a);
        let kb = registry_keys(b);
        assert(ka =~= registry_keys(a1).push(registry_key(x)));
        assert(kb.remove(j) =~= registry_keys(b1));
        assert(kb[j] == registry_key(x));
        assert(kb.remove(j).to_multiset() == kb.to_multiset().remove(registry_key(x)));
        assert(kb.contains(registry_key(x)));
        assert(kb.to_multiset().count(registry_key(x)) > 0);
        assert(kb.to_multiset() =~= kb.to_multiset().remove(registry_key(x)).insert(registry_key(x)));
    }
}

/// Whether a text holds no `|`.
pub open spec fn bar_free(x: Seq<char>) -> bool {
    forall|i: int| 0 <= i < x.len() ==> x[i] != '|'
}

/// Whether every part is non-empty and holds no `|`.
pub open spec fn bar_free_parts(s: Seq<Seq<char>>) -> bool {
    forall|i: int| 0 <= i < s.len() ==> (#[trigger] s[i]).len() > 0 && bar_free(s[i])
}

proof fn lemma_joined_shape(s: Seq<Seq<char>>)
    requires
        bar_free_parts(s),
    ensures
        s.len() == 0 ==> joined(s, "|"@).len() == 0,
        s.len() == 1 ==> joined(s, "|"@) == s[0],
        s.len() >= 1 ==> joined(s, "|"@).len() > 0,
        s.len() <= 1 ==> bar_free(joined(s, "|"@)),
        s.len() >= 2 ==> !bar_free(joined(s, "|"@)),
{
    reveal_strlit("|");
    if s.len() >= 2 {
        let p = joined(s.drop_last(), "|"@);
        let j = joined(s, "|"@);
        assert(j == p + "|"@ + s.last());
        assert(j[p.len() as int] == '|');
    }
}

proof fn lemma_split_last_bar(p1: Seq<char>, l1: Seq<char>, p2: Seq<char>, l2: Seq<char>)
    requires
        p1 + "|"@ + l1 == p2 + "|"@ + l2,
        bar_free(l1),
        bar_free(l2),
    ensures
        p1 == p2,
        l1 == l2,
{
    reveal_strlit("|");
    let j = p1 + "|"@ + l1;
    let n = j.len();
    if l1.len() < l2.len() {
        let k = n - l1.len() - 1;
        assert(j[k] == '|');
        assert((p2 + "|"@ + l2)[k] == l2[k - p2.len() - 1]);
    } else if l2.len() < l1.len() {
        let k = n - l2.len() - 1;
        assert((p2 + "|"@ + l2)[k] == '|');
        assert(j[k] == l1[k - p1.len() - 1]);
    }
    assert(l1.len() == l2.len());
    assert(p1.len() == p2.len());
    assert forall|i: int| 0 <= i < l1.len() implies l1[i] == l2[i] by {
        assert(j[p1.len() + 1 + i] == l1[i]);
        assert((p2 + "|"@ + l2)[p2.len() + 1 + i] == l2[i]);
    }
    assert forall|i: int| 0 <= i < p1.len() implies p1[i] == p2[i] by {
        assert(j[i] == p1[i]);
        assert((p2 + "|"@ + l2)[i] == p2[i]);
    }
    assert(l1 =~= l2);
    assert(p1 =~= p2);
}

/// Joining non-empty parts that hold no `|` by `|` loses nothing: equal
/// joins come from equal parts.
pub proof fn lemma_joined_injective(a: Seq<Seq<char>>, b: Seq<Seq<char>>)
    requires
        bar_free_parts(a),
        bar_free_parts(b),
        joined(a, "|"@) == joined(b, "|"@),
    ensures
        a == b,
    decreases a.len(),
{
    lemma_joined_shape(a);
    lemma_joined_shape(b);
    if a.len() == 0 || b.len() == 0 {
        assert(a =~= b);
    } else if a.len() == 1 || b.len() == 1 {
        assert(a.len() == 1 && b.len() == 1);
        assert(a =~= b);
    } else {
        let a1 = a.drop_last();
        let b1 = b.drop_last();
        assert(bar_free_parts(a1)) by {
            assert forall|i: int| 0 <= i < a1.len() implies (#[trigger] a1[i]).len() > 0 && bar_free(a1[i]) by {
                assert(a1[i] == a[i]);
            }
        }
        assert(bar_free_parts(b1)) by {
            assert forall|i: int| 0 <= i < b1.len() implies (#[trigger] b1[i]).len() > 0 && bar_free(b1[i]) by {
                assert(b1[i] == b[i]);
            }
        }
        assert(bar_free(a[a.len() - 1]));
        assert(bar_free(b[b.len() - 1]));
        lemma_split_last_bar(joined(a1, "|"@), a.last(), joined(b1, "|"@), b.last());
        lemma_joined_injective(a1, b1);
        assert(a =~= a1.push(a.last()));
        assert(b =~= b1.push(b.last()));
    }
}

/// The parts of a sorted arrangement are parts of the original.
proof fn lemma_sorted_parts(s: Seq<Seq<char>>)
    requires
        bar_free_parts(s),
    ensures
        bar_free_parts(sorted_of(s)),
        sorted_of(s).to_multiset() == s.to_multiset(),
{
    broadcast use vstd::seq_lib::group_to_multiset_ensures;

    let t = sorted_of(s);
    lemma_sorted_exists(s);
    assert forall|i: int| 0 <= i < t.len() implies (#[trigger] t[i]).len() > 0 && bar_free(t[i]) by {
        assert(t.contains(t[i]));
        assert(t.to_multiset().count(t[i]) > 0);
        assert(s.contains(t[i]));
        let j = choose|j: int| 0 <= j < s.len() && s[j] == t[i];
        assert(s[j].len() > 0 && bar_free(s[j]));
    }
}

/// A registry key holds no `|` when its id holds none, and is never empty.
proof fn lemma_registry_key_parts(x: Seq<(SourceType, String)>)
    requires
        forall|i: int| 0 <= i < x.len() ==> bar_free((#[trigger] x[i]).1@),
    ensures
        bar_free_parts(registry_keys(x)),
{
    reveal_strlit("plex");
    reveal_strlit("jellyfin");
    reveal_strlit("local");
    reveal_strlit(":");
    let k = registry_keys(x);
    assert forall|i: int| 0 <= i < k.len() implies (#[trigger] k[i]).len() > 0 && bar_free(k[i]) by {
        let e = x[i];
        assert(k[i] == registry_key(e));
        let t = source_type_name(e.0);
        assert(bar_free(t));
        assert(bar_free(e.1@));
        assert forall|m: int| 0 <= m < k[i].len() implies k[i][m] != '|' by {
            if m < t.len() {
                assert(k[i][m] == t[m]);
            } else if m == t.len() {
                assert(k[i][m] == ':');
            } else {
                assert(k[i][m] == e.1@[m - t.len() - 1]);
            }
        }
    }
}

/// Different sets of sources give different Home keys, when no source id
/// holds the `|` separator: if the sources' registry keys differ (counted
/// with multiplicity), so do the keys. (With a `|` inside an id, one id
/// `a|plex:b` and the two ids `a` and `b` give the same key.)
pub proof fn lemma_source_set_key_distinct(a: Seq<(SourceType, String)>, b: Seq<(SourceType, String)>)
    requires
        forall|i: int| 0 <= i < a.len() ==> bar_free((#[trigger] a[i]).1@),
        forall|i: int| 0 <= i < b.len() ==> bar_free((#[trigger] b[i]).1@),
        registry_keys(a).to_multiset() != registry_keys(b).to_multiset(),
    ensures
        source_set_key_of(a) != source_set_key_of(b),
{
    lemma_registry_key_parts(a);
    lemma_registry_key_parts(b);
    lemma_sorted_parts(registry_keys(a));
    lemma_sorted_parts(registry_keys(b));
    if source_set_key_of(a) == source_set_key_of(b) {
        lemma_joined_injective(sorted_of(registry_keys(a)), sorted_of(registry_keys(b)));
    }
}

// --- Entries and their model ------------------------------------------------------

/// A cached library section: the raw fetched items plus the epoch the entry was
/// last written under.
#[derive(Debug, Clone, PartialEq)]
pub struct LibraryEntry {
    pub items: Vec<MediaItem>,
    pub epoch: u64,
}

/// A cached, assembled Home payload, with the source-set key it was built for.
#[derive(Debug, Clone, PartialEq)]
pub struct CachedHome {
    pub source_set_key: String,
    pub continue_watching: Vec<(MediaItem, String)>,
    pub recently_added: Vec<(String, Vec<MediaItem>)>,
    pub collections: Vec<MediaItem>,
    pub hubs: Vec<MediaHub>,
    pub epoch: u64,
}

/// One library entry as the contracts see it.
pub struct Slot {
    pub key: Seq<char>,
    pub items: Seq<MediaItem>,
    pub epoch: u64,
}

/// The model of a stored entry.
pub open spec fn slot_of(e: (String, LibraryEntry)) -> Slot {
    Slot { key: e.0@, items: e.1.items@, epoch: e.1.epoch }
}

/// The model of stored entries, in order.
pub open spec fn slots_of(v: Seq<(String, LibraryEntry)>) -> Seq<Slot> {
    v.map_values(|e: (String, LibraryEntry)| slot_of(e))
}

/// No key occurs twice.
pub open spec fn unique_keys(s: Seq<Slot>) -> bool {
    forall|i: int, j: int| 0 <= i < j < s.len() ==> #[trigger] s[i].key != #[trigger] s[j].key
}

/// Some entry has key `k`.
pub open spec fn has_key(s: Seq<Slot>, k: Seq<char>) -> bool {
    exists|i: int| 0 <= i < s.len() && #[trigger] s[i].key == k
}

/// The position of key `k`, or `-1`.
pub open spec fn key_index(s: Seq<Slot>, k: Seq<char>) -> int {
    if has_key(s, k) {
        choose|i: int| 0 <= i < s.len() && #[trigger] s[i].key == k
    } else {
        -1
    }
}

/// The entry with key `k`, if any.
pub open spec fn lookup(s: Seq<Slot>, k: Seq<char>) -> Option<Slot> {
    if has_key(s, k) {
        Some(s[key_index(s, k)])
    } else {
        None
    }
}

/// The last `n` entries (all of them when there are no more than `n`).
pub open spec fn keep_last(s: Seq<Slot>, n: nat) -> Seq<Slot> {
    if s.len() > n {
        s.subrange(s.len() - n, s.len() as int)
    } else {
        s
    }
}

/// `s` without the entry keyed `k`.
pub open spec fn without_key(s: Seq<Slot>, k: Seq<char>) -> Seq<Slot> {
    if has_key(s, k) {
        s.remove(key_index(s, k))
    } else {
        s
    }
}

/// Reading key `k` moves its entry to the most-recently-used end.
pub open spec fn after_touch(s: Seq<Slot>, k: Seq<char>) -> Seq<Slot> {
    if has_key(s, k) {
        without_key(s, k).push(s[key_index(s, k)])
    } else {
        s
    }
}

/// Writing `items` under `k` with epoch `e`: the entry replaces any older one
/// for `k`, becomes most recently used, and the least recently used entries
/// beyond `cap` are evicted.
pub open spec fn after_put(s: Seq<Slot>, k: Seq<char>, items: Seq<MediaItem>, e: u64, cap: nat) -> Seq<
    Slot,
> {
    keep_last(without_key(s, k).push(Slot { key: k, items, epoch: e }), cap)
}

/// `s` without the entries whose key starts with `p`, order kept.
pub open spec fn without_prefix(s: Seq<Slot>, p: Seq<char>) -> Seq<Slot>
    decreases s.len(),
{
    if s.len() == 0 {
        s
    } else if p.is_prefix_of(s.last().key) {
        without_prefix(s.drop_last(), p)
    } else {
        without_prefix(s.drop_last(), p).push(s.last())
    }
}

/// Every entry's epoch is below `bound`.
pub open spec fn epochs_below(s: Seq<Slot>, bound: u64) -> bool {
    forall|i: int| 0 <= i < s.len() ==> #[trigger] s[i].epoch < bound
}

// --- Watch-state patching -------------------------------------------------------

/// `it` with its watch fields overwritten when its id is `id`.
pub open spec fn patched_item(it: MediaItem, id: Seq<char>, watched: bool, position_ms: Option<i64>) -> MediaItem {
    if it.id@ == id {
        MediaItem { watched: watched, playback_position_ms: position_ms, ..it }
    } else {
        it
    }
}

/// Every item of `s` patched.
pub open spec fn patched_items(s: Seq<MediaItem>, id: Seq<char>, watched: bool, position_ms: Option<i64>) -> Seq<MediaItem> {
    s.map_values(|it: MediaItem| patched_item(it, id, watched, position_ms))
}

/// Some item of `s` has id `id`.
pub open spec fn items_mention(s: Seq<MediaItem>, id: Seq<char>) -> bool {
    exists|k: int| 0 <= k < s.len() && #[trigger] s[k].id@ == id
}

/// Every library entry with its items patched.
pub open spec fn patched_slots(s: Seq<Slot>, id: Seq<char>, watched: bool, position_ms: Option<i64>) -> Seq<Slot> {
    s.map_values(|sl: Slot| Slot { key: sl.key, items: patched_items(sl.items, id, watched, position_ms), epoch: sl.epoch })
}

/// Some library entry holds an item with id `id`.
pub open spec fn slots_mention(s: Seq<Slot>, id: Seq<char>) -> bool {
    exists|i: int| 0 <= i < s.len() && items_mention(#[trigger] s[i].items, id)
}

/// Continue-watching pairs with their items patched.
pub open spec fn pairs_patched(old: Seq<(MediaItem, String)>, new: Seq<(MediaItem, String)>, id: Seq<char>, watched: bool, position_ms: Option<i64>) -> bool {
    &&& new.len() == old.len()
    &&& forall|k: int| 0 <= k < old.len() ==> #[trigger] new[k] == (
        patched_item(old[k].0, id, watched, position_ms),
        old[k].1,
    )
}

/// Titled rows with their items patched.
pub open spec fn rows_patched(old: Seq<(String, Vec<MediaItem>)>, new: Seq<(String, Vec<MediaItem>)>, id: Seq<char>, watched: bool, position_ms: Option<i64>) -> bool {
    &&& new.len() == old.len()
    &&& forall|k: int| #![trigger new[k]] 0 <= k < old.len() ==> {
        &&& new[k].0 == old[k].0
        &&& new[k].1@ == patched_items(old[k].1@, id, watched, position_ms)
    }
}

/// Hubs with their items patched.
pub open spec fn hubs_patched(old: Seq<MediaHub>, new: Seq<MediaHub>, id: Seq<char>, watched: bool, position_ms: Option<i64>) -> bool {
    &&& new.len() == old.len()
    &&& forall|k: int| #![trigger new[k]] 0 <= k < old.len() ==> {
        &&& new[k].title == old[k].title
        &&& new[k].hub_identifier == old[k].hub_identifier
        &&& new[k].items@ == patched_items(old[k].items@, id, watched, position_ms)
    }
}

/// Some pair's item has id `id`.
pub open spec fn pairs_mention(s: Seq<(MediaItem, String)>, id: Seq<char>) -> bool {
    exists|k: int| 0 <= k < s.len() && #[trigger] s[k].0.id@ == id
}

/// Some row holds an item with id `id`.
pub open spec fn rows_mention(s: Seq<(String, Vec<MediaItem>)>, id: Seq<char>) -> bool {
    exists|k: int| 0 <= k < s.len() && items_mention(#[trigger] s[k].1@, id)
}

/// Some hub holds an item with id `id`.
pub open spec fn hubs_mention(s: Seq<MediaHub>, id: Seq<char>) -> bool {
    exists|k: int| 0 <= k < s.len() && items_mention(#[trigger] s[k].items@, id)
}

/// `new` is `old` with every item of every Home row patched.
pub open spec fn home_patched(old: CachedHome, new: CachedHome, id: Seq<char>, watched: bool, position_ms: Option<i64>) -> bool {
    &&& new.source_set_key == old.source_set_key
    &&& new.epoch == old.epoch
    &&& pairs_patched(old.continue_watching@, new.continue_watching@, id, watched, position_ms)
    &&& rows_patched(old.recently_added@, new.recently_added@, id, watched, position_ms)
    &&& new.collections@ == patched_items(old.collections@, id, watched, position_ms)
    &&& hubs_patched(old.hubs@, new.hubs@, id, watched, position_ms)
}

/// Some item of some Home row has id `id`.
pub open spec fn home_mentions(h: CachedHome, id: Seq<char>) -> bool {
    ||| pairs_mention(h.continue_watching@, id)
    ||| rows_mention(h.recently_added@, id)
    ||| items_mention(h.collections@, id)
    ||| hubs_mention(h.hubs@, id)
}

/// Overwrite `item`'s watch fields when its id matches; returns whether it did.
fn patch_item(item: &mut MediaItem, id: &str, watched: bool, position_ms: Option<i64>) -> (r: bool)
    ensures
        *final(item) == patched_item(*old(item), id@, watched, position_ms),
        r == (old(item).id@ == id@),
{
    if str_eq(item.id.as_str(), id) {
        item.watched = watched;
        item.playback_position_ms = position_ms;
        true
    } else {
        false
    }
}

/// Patch every item of a list; returns whether any matched.
fn patch_items(items: &mut Vec<MediaItem>, id: &str, watched: bool, position_ms: Option<i64>) -> (r: bool)
    ensures
        final(items)@ == patched_items(old(items)@, id@, watched, position_ms),
        r == items_mention(old(items)@, id@),
{
    let ghost orig = items@;
    let mut touched = false;
    let mut i: usize = 0;
    while i < items.len()
        invariant
            items@.len() == orig.len(),
            i <= orig.len(),
            forall|k: int| 0 <= k < i ==> #[trigger] items@[k] == patched_item(orig[k], id@, watched, position_ms),
            forall|k: int| i <= k < orig.len() ==> #[trigger] items@[k] == orig[k],
            touched == exists|k: int| 0 <= k < i && #[trigger] orig[k].id@ == id@,
        decreases orig.len() - i,
    {
        let hit = patch_item(&mut items[i], id, watched, position_ms);
        if hit {
            touched = true;
        }
        proof {
            if hit {
                assert(orig[usz(i)].id@ == id@);
            }
            if !touched {
                assert forall|k: int| 0 <= k < i + 1 implies #[trigger] orig[k].id@ != id@ by {
                    if k == i {
                        assert(!hit);
                    }
                }
            }
        }
        i = i + 1;
    }
    assert(items@ =~= patched_items(orig, id@, watched, position_ms));
    touched
}

/// With unique keys, the entry at `i` is the one `key_index` finds.
pub proof fn lemma_key_index(s: Seq<Slot>, k: Seq<char>, i: int)
    requires
        unique_keys(s),
        0 <= i < s.len(),
        s[i].key == k,
    ensures
        has_key(s, k),
        key_index(s, k) == i,
        lookup(s, k) == Some(s[i]),
{
    assert(has_key(s, k));
    let j = key_index(s, k);
    if j != i {
        if j < i {
            assert(s[j].key != s[i].key);
        } else {
            assert(s[i].key != s[j].key);
        }
    }
}

/// Removing one entry keeps the keys unique and drops exactly that key.
proof fn lemma_without_key(s: Seq<Slot>, k: Seq<char>, bound: u64)
    requires
        unique_keys(s),
        epochs_below(s, bound),
    ensures
        unique_keys(without_key(s, k)),
        epochs_below(without_key(s, k), bound),
        !has_key(without_key(s, k), k),
        without_key(s, k).len() == if has_key(s, k) { s.len() - 1 } else { s.len() as int },
        forall|x: Seq<char>| x != k ==> (has_key(without_key(s, k), x) <==> has_key(s, x)),
{
    let w = without_key(s, k);
    if has_key(s, k) {
        let i = key_index(s, k);
        assert(0 <= i < s.len() && s[i].key == k);
        assert forall|a: int, b: int| 0 <= a < b < w.len() implies #[trigger] w[a].key
            != #[trigger] w[b].key by {
            let a2 = if a < i { a } else { a + 1 };
            let b2 = if b < i { b } else { b + 1 };
            assert(w[a] == s[a2] && w[b] == s[b2]);
            assert(s[a2].key != s[b2].key);
        }
        assert forall|m: int| 0 <= m < w.len() implies #[trigger] w[m].epoch < bound by {
            let m2 = if m < i { m } else { m + 1 };
            assert(w[m] == s[m2]);
        }
        if has_key(w, k) {
            let m = choose|m: int| 0 <= m < w.len() && #[trigger] w[m].key == k;
            let m2 = if m < i { m } else { m + 1 };
            assert(w[m] == s[m2]);
            if m2 < i {
                assert(s[m2].key != s[i].key);
            } else {
                assert(s[i].key != s[m2].key);
            }
        }
        assert forall|x: Seq<char>| x != k implies (has_key(w, x) <==> has_key(s, x)) by {
            if has_key(s, x) {
                let n = choose|n: int| 0 <= n < s.len() && #[trigger] s[n].key == x;
                if n < i {
                    assert(w[n] == s[n]);
                } else {
                    assert(n != i);
                    assert(w[n - 1] == s[n]);
                }
            }
            if has_key(w, x) {
                let m = choose|m: int| 0 <= m < w.len() && #[trigger] w[m].key == x;
                let m2 = if m < i { m } else { m + 1 };
                assert(w[m] == s[m2]);
            }
        }
    }
}

/// Keeping a suffix keeps keys unique and epochs bounded.
proof fn lemma_keep_last(s: Seq<Slot>, n: nat, bound: u64)
    requires
        unique_keys(s),
        epochs_below(s, bound),
    ensures
        unique_keys(keep_last(s, n)),
        epochs_below(keep_last(s, n), bound),
        keep_last(s, n).len() <= n || keep_last(s, n) == s,
        keep_last(s, n).len() <= s.len(),
        s.len() > 0 && n >= 1 ==> keep_last(s, n).len() > 0 && keep_last(s, n).last() == s.last(),
{
    let t = keep_last(s, n);
    if s.len() > n {
        let off = s.len() - n;
        assert forall|a: int, b: int| 0 <= a < b < t.len() implies #[trigger] t[a].key
            != #[trigger] t[b].key by {
            assert(t[a] == s[a + off] && t[b] == s[b + off]);
        }
        assert forall|m: int| 0 <= m < t.len() implies #[trigger] t[m].epoch < bound by {
            assert(t[m] == s[m + off]);
        }
    }
}

/// After a put the keys stay unique, the count stays within `cap`, every
/// epoch stays below `bound`, and the written entry is found under its key.
pub proof fn lemma_put(s: Seq<Slot>, k: Seq<char>, items: Seq<MediaItem>, e: u64, cap: nat, bound: u64)
    requires
        unique_keys(s),
        s.len() <= cap,
        cap >= 1,
        epochs_below(s, bound),
        e < bound,
    ensures
        unique_keys(after_put(s, k, items, e, cap)),
        after_put(s, k, items, e, cap).len() <= cap,
        epochs_below(after_put(s, k, items, e, cap), bound),
        lookup(after_put(s, k, items, e, cap), k) == Some(Slot { key: k, items, epoch: e }),
{
    lemma_without_key(s, k, bound);
    let w = without_key(s, k);
    let new = Slot { key: k, items, epoch: e };
    let p = w.push(new);
    assert forall|a: int, b: int| 0 <= a < b < p.len() implies #[trigger] p[a].key
        != #[trigger] p[b].key by {
        if b == w.len() {
            assert(p[a] == w[a]);
            if w[a].key == k {
                assert(has_key(w, k));
            }
        } else {
            assert(p[a] == w[a] && p[b] == w[b]);
        }
    }
    assert forall|m: int| 0 <= m < p.len() implies #[trigger] p[m].epoch < bound by {
        if m < w.len() {
            assert(p[m] == w[m]);
        }
    }
    lemma_keep_last(p, cap, bound);
    let t = keep_last(p, cap);
    lemma_key_index(t, k, t.len() - 1);
}

/// Writing `items` under `k` with a fresh epoch `e`, as one law: the entry is
/// found under `k` with those items and that epoch; the count becomes the old
/// count plus one (none when `k` was present), cut to `cap`; every other key
/// still present was present before, with the same items and epoch; and `e`
/// exceeds every epoch stored before.
pub proof fn lemma_put_law(s: Seq<Slot>, k: Seq<char>, items: Seq<MediaItem>, e: u64, cap: nat, q: Seq<char>)
    requires
        unique_keys(s),
        s.len() <= cap,
        cap >= 1,
        epochs_below(s, e),
        e < u64::MAX,
    ensures
        lookup(after_put(s, k, items, e, cap), k) == Some(Slot { key: k, items, epoch: e }),
        after_put(s, k, items, e, cap).len() == (if s.len() + (if has_key(s, k) {
            0int
        } else {
            1int
        }) <= cap {
            s.len() + (if has_key(s, k) {
                0int
            } else {
                1int
            })
        } else {
            cap as int
        }),
        q != k && has_key(after_put(s, k, items, e, cap), q) ==> has_key(s, q) && lookup(
            after_put(s, k, items, e, cap),
            q,
        ) == lookup(s, q),
        forall|i: int| 0 <= i < s.len() ==> #[trigger] s[i].epoch < e,
{
    let bound = (e + 1) as u64;
    assert forall|m: int| 0 <= m < s.len() implies #[trigger] s[m].epoch < bound by {}
    lemma_put(s, k, items, e, cap, bound);
    lemma_without_key(s, k, bound);
    let w = without_key(s, k);
    let new = Slot { key: k, items, epoch: e };
    let p = w.push(new);
    let t = keep_last(p, cap);
    if q != k && has_key(t, q) {
        let a = choose|a: int| 0 <= a < t.len() && #[trigger] t[a].key == q;
        let off = if p.len() > cap {
            p.len() - cap
        } else {
            0int
        };
        assert(t[a] == p[a + off]);
        assert(a + off < w.len());
        assert(p[a + off] == w[a + off]);
        assert(has_key(w, q));
        let m = a + off;
        let m2 = if has_key(s, k) && m >= key_index(s, k) {
            m + 1
        } else {
            m
        };
        assert(w[m] == s[m2]);
        lemma_key_index(s, q, m2);
        lemma_key_index(t, q, a);
    }
}

/// The epoch counter after a call: a write (`put_library` or `set_home`)
/// takes the counter as its epoch and advances it by one; every other call
/// leaves it unchanged (as their contracts state).
pub open spec fn counter_after(counter: int, write: bool) -> int {
    if write {
        counter + 1
    } else {
        counter
    }
}

/// The epoch counter after the first `n` calls of a run, where `writes[i]`
/// says whether call `i` was a write; a write at `i` hands out
/// `counter_at(start, writes, i)`.
pub open spec fn counter_at(start: int, writes: Seq<bool>, n: int) -> int
    decreases n,
{
    if n <= 0 {
        start
    } else {
        counter_after(counter_at(start, writes, n - 1), writes[n - 1])
    }
}

proof fn lemma_counter_grows(start: int, writes: Seq<bool>, i: int, j: int)
    requires
        0 <= i <= j <= writes.len(),
    ensures
        counter_at(start, writes, i) <= counter_at(start, writes, j),
    decreases j - i,
{
    if i < j {
        lemma_counter_grows(start, writes, i, j - 1);
    }
}

/// Over any run of calls on a cache, every epoch a write hands out (to a
/// library entry or to Home) is greater than every epoch handed out by an
/// earlier write, whatever was written.
pub proof fn lemma_write_epochs_increase(start: int, writes: Seq<bool>, i: int, j: int)
    requires
        0 <= i < j < writes.len(),
        writes[i],
    ensures
        counter_at(start, writes, i) < counter_at(start, writes, j),
{
    lemma_counter_grows(start, writes, i + 1, j);
}

/// Moving an entry to the back keeps the entries and their keys.
pub proof fn lemma_touch(s: Seq<Slot>, k: Seq<char>, bound: u64)
    requires
        unique_keys(s),
        epochs_below(s, bound),
    ensures
        unique_keys(after_touch(s, k)),
        after_touch(s, k).len() == s.len(),
        epochs_below(after_touch(s, k), bound),
        lookup(after_touch(s, k), k) == lookup(s, k),
{
    if has_key(s, k) {
        lemma_without_key(s, k, bound);
        let w = without_key(s, k);
        let x = s[key_index(s, k)];
        let p = w.push(x);
        assert forall|a: int, b: int| 0 <= a < b < p.len() implies #[trigger] p[a].key
            != #[trigger] p[b].key by {
            if b == w.len() {
                assert(p[a] == w[a]);
                if w[a].key == k {
                    assert(has_key(w, k));
                }
            } else {
                assert(p[a] == w[a] && p[b] == w[b]);
            }
        }
        assert forall|m: int| 0 <= m < p.len() implies #[trigger] p[m].epoch < bound by {
            if m < w.len() {
                assert(p[m] == w[m]);
            }
        }
        lemma_key_index(p, k, p.len() - 1);
    }
}

/// Reading a key changes no key's lookup: only recency moves.
pub proof fn lemma_touch_lookups(s: Seq<Slot>, k: Seq<char>, q: Seq<char>)
    requires
        unique_keys(s),
    ensures
        lookup(after_touch(s, k), q) == lookup(s, q),
        has_key(after_touch(s, k), q) == has_key(s, q),
{
    if has_key(s, k) {
        let i = key_index(s, k);
        assert(0 <= i < s.len() && s[i].key == k);
        let w = without_key(s, k);
        let x = s[i];
        let p = w.push(x);
        assert(w == s.remove(i));
        assert(unique_keys(p)) by {
            assert forall|a: int, b: int| 0 <= a < b < p.len() implies #[trigger] p[a].key
                != #[trigger] p[b].key by {
                let a2 = if a < i { a } else { a + 1 };
                if b == w.len() {
                    assert(p[a] == s[a2] && p[b] == s[i]);
                    assert(a2 != i);
                    if a2 < i {
                        assert(s[a2].key != s[i].key);
                    } else {
                        assert(s[i].key != s[a2].key);
                    }
                } else {
                    let b2 = if b < i { b } else { b + 1 };
                    assert(p[a] == s[a2] && p[b] == s[b2]);
                    assert(s[a2].key != s[b2].key);
                }
            }
        }
        if q == k {
            lemma_key_index(s, k, i);
            lemma_key_index(p, k, p.len() - 1);
        } else if has_key(s, q) {
            let j = key_index(s, q);
            assert(0 <= j < s.len() && s[j].key == q);
            lemma_key_index(s, q, j);
            assert(j != i);
            let j2 = if j < i { j } else { j - 1 };
            assert(p[j2] == s[j]);
            lemma_key_index(p, q, j2);
        } else {
            if has_key(p, q) {
                let m = choose|m: int| 0 <= m < p.len() && #[trigger] p[m].key == q;
                if m == w.len() {
                    assert(p[m] == x);
                } else {
                    let m2 = if m < i { m } else { m + 1 };
                    assert(p[m] == s[m2]);
                    assert(s[m2].key == q);
                }
            }
        }
    }
}

/// Dropping the entries under a prefix keeps the rest, in order.
pub proof fn lemma_without_prefix(s: Seq<Slot>, p: Seq<char>, bound: u64)
    requires
        unique_keys(s),
        epochs_below(s, bound),
    ensures
        unique_keys(without_prefix(s, p)),
        without_prefix(s, p).len() <= s.len(),
        epochs_below(without_prefix(s, p), bound),
        forall|k: Seq<char>|
            has_key(without_prefix(s, p), k) <==> (has_key(s, k) && !p.is_prefix_of(k)),
    decreases s.len(),
{
    if s.len() > 0 {
        let d = s.drop_last();
        assert(unique_keys(d)) by {
            assert forall|a: int, b: int| 0 <= a < b < d.len() implies #[trigger] d[a].key
                != #[trigger] d[b].key by {
                assert(d[a] == s[a] && d[b] == s[b]);
            }
        }
        assert(epochs_below(d, bound)) by {
            assert forall|m: int| 0 <= m < d.len() implies #[trigger] d[m].epoch < bound by {
                assert(d[m] == s[m]);
            }
        }
        lemma_without_prefix(d, p, bound);
        let r = without_prefix(d, p);
        let last = s.last();
        assert forall|k: Seq<char>| has_key(d, k) || k == last.key <==> has_key(s, k) by {
            if has_key(s, k) {
                let n = choose|n: int| 0 <= n < s.len() && #[trigger] s[n].key == k;
                if n < d.len() {
                    assert(d[n] == s[n]);
                }
            }
            if has_key(d, k) {
                let n = choose|n: int| 0 <= n < d.len() && #[trigger] d[n].key == k;
                assert(s[n] == d[n]);
            }
            if k == last.key {
                assert(s[s.len() - 1].key == k);
            }
        }
        if !p.is_prefix_of(last.key) {
            let q = r.push(last);
            assert(!has_key(d, last.key)) by {
                if has_key(d, last.key) {
                    let n = choose|n: int| 0 <= n < d.len() && #[trigger] d[n].key == last.key;
                    assert(s[n] == d[n]);
                    assert(s[n].key != s[s.len() - 1].key);
                }
            }
            assert forall|a: int, b: int| 0 <= a < b < q.len() implies #[trigger] q[a].key
                != #[trigger] q[b].key by {
                if b == r.len() {
                    assert(q[a] == r[a]);
                    if r[a].key == last.key {
                        assert(has_key(r, last.key));
                    }
                } else {
                    assert(q[a] == r[a] && q[b] == r[b]);
                }
            }
            assert forall|m: int| 0 <= m < q.len() implies #[trigger] q[m].epoch < bound by {
                if m < r.len() {
                    assert(q[m] == r[m]);
                }
            }
            assert forall|k: Seq<char>| has_key(q, k) <==> (has_key(s, k) && !p.is_prefix_of(k)) by {
                if has_key(q, k) {
                    let n = choose|n: int| 0 <= n < q.len() && #[trigger] q[n].key == k;
                    if n < r.len() {
                        assert(q[n] == r[n]);
                        assert(has_key(r, k));
                    }
                }
                if has_key(r, k) {
                    let n = choose|n: int| 0 <= n < r.len() && #[trigger] r[n].key == k;
                    assert(q[n] == r[n]);
                }
                if k == last.key {
                    assert(q[q.len() - 1].key == k);
                }
            }
        }
    }
}

/// Patch the items of every library entry.
fn patch_entries(entries: &mut Vec<(String, LibraryEntry)>, id: &str, watched: bool, position_ms: Option<i64>) -> (r: bool)
    ensures
        slots_of(final(entries)@) == patched_slots(slots_of(old(entries)@), id@, watched, position_ms),
        r == slots_mention(slots_of(old(entries)@), id@),
{
    let ghost orig = entries@;
    let ghost s0 = slots_of(orig);
    let mut touched = false;
    let mut i: usize = 0;
    while i < entries.len()
        invariant
            entries@.len() == orig.len(),
            s0 == slots_of(orig),
            i <= orig.len(),
            forall|k: int| 0 <= k < i ==> #[trigger] slot_of(entries@[k]) == (Slot {
                key: s0[k].key,
                items: patched_items(s0[k].items, id@, watched, position_ms),
                epoch: s0[k].epoch,
            }),
            forall|k: int| i <= k < orig.len() ==> #[trigger] entries@[k] == orig[k],
            touched == exists|k: int| 0 <= k < i && items_mention(#[trigger] s0[k].items, id@),
        decreases orig.len() - i,
    {
        assert(s0[usz(i)] == slot_of(orig[usz(i)]));
        let ghost before = entries@;
        let hit = patch_items(&mut entries[i].1.items, id, watched, position_ms);
        proof {
            assert(entries@[usz(i)].0 == before[usz(i)].0);
            assert(entries@[usz(i)].1.epoch == before[usz(i)].1.epoch);
            assert forall|k: int| 0 <= k < entries@.len() && k != i implies #[trigger] entries@[k] == before[k] by {}
        }
        if hit {
            touched = true;
        }
        proof {
            if hit {
                assert(items_mention(s0[usz(i)].items, id@));
            }
            if !touched {
                assert forall|k: int| 0 <= k < i + 1 implies !items_mention(#[trigger] s0[k].items, id@) by {
                    if k == i {
                        assert(!hit);
                    }
                }
            }
        }
        i = i + 1;
    }
    assert(slots_of(entries@) =~= patched_slots(s0, id@, watched, position_ms));
    touched
}

/// Patch the item of every continue-watching pair.
fn patch_pairs(v: &mut Vec<(MediaItem, String)>, id: &str, watched: bool, position_ms: Option<i64>) -> (r: bool)
    ensures
        pairs_patched(old(v)@, final(v)@, id@, watched, position_ms),
        r == pairs_mention(old(v)@, id@),
{
    let ghost orig = v@;
    let mut touched = false;
    let mut i: usize = 0;
    while i < v.len()
        invariant
            v@.len() == orig.len(),
            i <= orig.len(),
            forall|k: int| 0 <= k < i ==> #[trigger] v@[k] == (
                patched_item(orig[k].0, id@, watched, position_ms),
                orig[k].1,
            ),
            forall|k: int| i <= k < orig.len() ==> #[trigger] v@[k] == orig[k],
            touched == exists|k: int| 0 <= k < i && #[trigger] orig[k].0.id@ == id@,
        decreases orig.len() - i,
    {
        let hit = patch_item(&mut v[i].0, id, watched, position_ms);
        if hit {
            touched = true;
        }
        proof {
            if hit {
                assert(orig[usz(i)].0.id@ == id@);
            }
            if !touched {
                assert forall|k: int| 0 <= k < i + 1 implies #[trigger] orig[k].0.id@ != id@ by {
                    if k == i {
                        assert(!hit);
                    }
                }
            }
        }
        i = i + 1;
    }
    touched
}

/// Patch the items of every titled row.
fn patch_rows(v: &mut Vec<(String, Vec<MediaItem>)>, id: &str, watched: bool, position_ms: Option<i64>) -> (r: bool)
    ensures
        rows_patched(old(v)@, final(v)@, id@, watched, position_ms),
        r == rows_mention(old(v)@, id@),
{
    let ghost orig = v@;
    let mut touched = false;
    let mut i: usize = 0;
    while i < v.len()
        invariant
            v@.len() == orig.len(),
            i <= orig.len(),
            forall|k: int| #![trigger v@[k]] 0 <= k < i ==> {
                &&& v@[k].0 == orig[k].0
                &&& v@[k].1@ == patched_items(orig[k].1@, id@, watched, position_ms)
            },
            forall|k: int| i <= k < orig.len() ==> #[trigger] v@[k] == orig[k],
            touched == exists|k: int| 0 <= k < i && items_mention(#[trigger] orig[k].1@, id@),
        decreases orig.len() - i,
    {
        let ghost before = v@;
        let hit = patch_items(&mut v[i].1, id, watched, position_ms);
        proof {
            assert(v@[usz(i)].0 == before[usz(i)].0);
            assert forall|k: int| 0 <= k < v@.len() && k != i implies #[trigger] v@[k] == before[k] by {}
        }
        if hit {
            touched = true;
        }
        proof {
            if hit {
                assert(items_mention(orig[usz(i)].1@, id@));
            }
            if !touched {
                assert forall|k: int| 0 <= k < i + 1 implies !items_mention(#[trigger] orig[k].1@, id@) by {
                    if k == i {
                        assert(!hit);
                    }
                }
            }
        }
        i = i + 1;
    }
    touched
}

/// Patch the items of every hub.
fn patch_hubs(v: &mut Vec<MediaHub>, id: &str, watched: bool, position_ms: Option<i64>) -> (r: bool)
    ensures
        hubs_patched(old(v)@, final(v)@, id@, watched, position_ms),
        r == hubs_mention(old(v)@, id@),
{
    let ghost orig = v@;
    let mut touched = false;
    let mut i: usize = 0;
    while i < v.len()
        invariant
            v@.len() == orig.len(),
            i <= orig.len(),
            forall|k: int| #![trigger v@[k]] 0 <= k < i ==> {
                &&& v@[k].title == orig[k].title
                &&& v@[k].hub_identifier == orig[k].hub_identifier
                &&& v@[k].items@ == patched_items(orig[k].items@, id@, watched, position_ms)
            },
            forall|k: int| i <= k < orig.len() ==> #[trigger] v@[k] == orig[k],
            touched == exists|k: int| 0 <= k < i && items_mention(#[trigger] orig[k].items@, id@),
        decreases orig.len() - i,
    {
        let ghost before = v@;
        let hit = patch_items(&mut v[i].items, id, watched, position_ms);
        proof {
            assert(v@[usz(i)].title == before[usz(i)].title);
            assert forall|k: int| 0 <= k < v@.len() && k != i implies #[trigger] v@[k] == before[k] by {}
        }
        if hit {
            touched = true;
        }
        proof {
            if hit {
                assert(items_mention(orig[usz(i)].items@, id@));
            }
            if !touched {
                assert forall|k: int| 0 <= k < i + 1 implies !items_mention(#[trigger] orig[k].items@, id@) by {
                    if k == i {
                        assert(!hit);
                    }
                }
            }
        }
        i = i + 1;
    }
    touched
}

/// Patch every row of the Home payload.
fn patch_home(h: &mut CachedHome, id: &str, watched: bool, position_ms: Option<i64>) -> (r: bool)
    ensures
        home_patched(*old(h), *final(h), id@, watched, position_ms),
        r == home_mentions(*old(h), id@),
{
    let t_cw = patch_pairs(&mut h.continue_watching, id, watched, position_ms);
    let t_ra = patch_rows(&mut h.recently_added, id, watched, position_ms);
    let t_col = patch_items(&mut h.collections, id, watched, position_ms);
    let t_hubs = patch_hubs(&mut h.hubs, id, watched, position_ms);
    t_cw || t_ra || t_col || t_hubs
}

/// Home stays untouched by library traffic: the slot with the Home payload and
/// every library write are separate.
pub struct SessionContentCache {
    entries: Vec<(String, LibraryEntry)>,
    capacity: usize,
    home: Option<CachedHome>,
    next_epoch: u64,
    source_set_epoch: u64,
}

impl Default for SessionContentCache {
    fn default() -> (r: Self)
        ensures
            r.wf(),
            r.slots() == Seq::<Slot>::empty(),
            r.cap() == DEFAULT_LIBRARY_CAPACITY,
            r.home_slot() is None,
            r.epoch_counter() == 1,
            r.set_epoch() == 1,
    {
        Self::with_capacity(DEFAULT_LIBRARY_CAPACITY)
    }
}

impl SessionContentCache {
    /// The library entries, least recently used first.
    pub closed spec fn slots(&self) -> Seq<Slot> {
        slots_of(self.entries@)
    }

    /// The most library entries kept.
    pub closed spec fn cap(&self) -> nat {
        self.capacity as nat
    }

    /// The Home payload, if any.
    pub closed spec fn home_slot(&self) -> Option<CachedHome> {
        self.home
    }

    /// The epoch the next write will take.
    pub closed spec fn epoch_counter(&self) -> u64 {
        self.next_epoch
    }

    /// The current source-set epoch.
    pub closed spec fn set_epoch(&self) -> u64 {
        self.source_set_epoch
    }

    /// Keys unique, count within capacity, capacity at least one, and every
    /// stored epoch below the next one handed out.
    pub closed spec fn wf(&self) -> bool {
        &&& unique_keys(self.slots())
        &&& self.slots().len() <= self.capacity
        &&& self.capacity >= 1
        &&& epochs_below(self.slots(), self.next_epoch)
        &&& self.next_epoch >= 1
    }

    /// What well-formedness gives callers: keys unique, the count within a
    /// capacity of at least one, and every stored epoch below the next one
    /// handed out.
    pub proof fn lemma_wf(&self)
        requires
            self.wf(),
        ensures
            unique_keys(self.slots()),
            self.slots().len() <= self.cap(),
            self.cap() >= 1,
            epochs_below(self.slots(), self.epoch_counter()),
            self.epoch_counter() >= 1,
    {
    }

    /// An empty cache with the default capacity.
    pub fn new() -> (r: Self)
        ensures
            r.wf(),
            r.slots() == Seq::<Slot>::empty(),
            r.cap() == DEFAULT_LIBRARY_CAPACITY,
            r.home_slot() is None,
            r.epoch_counter() == 1,
            r.set_epoch() == 1,
    {
        Self::with_capacity(DEFAULT_LIBRARY_CAPACITY)
    }

    /// An empty cache keeping at most `capacity` library entries (at least one).
    pub fn with_capacity(capacity: usize) -> (r: Self)
        ensures
            r.wf(),
            r.slots() == Seq::<Slot>::empty(),
            r.cap() == if capacity >= 1 { capacity as nat } else { 1 },
            r.home_slot() is None,
            r.epoch_counter() == 1,
            r.set_epoch() == 1,
    {
        let cap = if capacity >= 1 { capacity } else { 1 };
        let r = SessionContentCache {
            entries: Vec::new(),
            capacity: cap,
            home: None,
            next_epoch: 1,
            source_set_epoch: 1,
        };
        assert(r.slots() =~= Seq::<Slot>::empty());
        r
    }

    /// Composite library cache key `{source_type}:{source_id}:{section_key}`,
    /// keyed on section rather than media type.
    pub fn library_key(source_type: SourceType, source_id: &str, section_key: &str) -> (r: String)
        ensures
            r@ == composite_key(source_type_name(source_type), source_id@, section_key@),
    {
        let mut s = String::new();
        s.append(source_type.as_str());
        s.append(":");
        s.append(source_id);
        s.append(":");
        s.append(section_key);
        proof {
            reveal_strlit(":");
        }
        assert(s@ =~= composite_key(source_type_name(source_type), source_id@, section_key@));
        s
    }

    /// Stable key for a set of sources: their `{source_type}:{source_id}`
    /// registry keys sorted lexically and joined by `|`.
    pub fn source_set_key(sources: &[(SourceType, String)]) -> (r: String)
        ensures
            r@ == source_set_key_of(sources@),
    {
        let mut keys: Vec<String> = Vec::new();
        let mut i: usize = 0;
        while i < sources.len()
            invariant
                i <= sources@.len(),
                strs_view(keys@) == registry_keys(sources@.subrange(0, usz(i))),
            decreases sources.len() - i,
        {
            let mut k = String::new();
            k.append(sources[i].0.as_str());
            k.append(":");
            k.append(sources[i].1.as_str());
            proof {
                reveal_strlit(":");
            }
            assert(k@ =~= registry_key(sources@[usz(i)]));
            let ghost before = keys@;
            let ghost kv = k@;
            keys.push(k);
            assert(keys@ =~= before.push(keys@.last()));
            assert(strs_view(keys@) =~= strs_view(before).push(kv));
            assert(sources@.subrange(0, i + 1) =~= sources@.subrange(0, usz(i)).push(sources@[usz(i)]));
            assert(strs_view(keys@) =~= registry_keys(sources@.subrange(0, i + 1)));
            i = i + 1;
        }
        assert(sources@.subrange(0, usz(i)) =~= sources@);
        let sorted = sort_strings(keys);
        join_strings(&sorted, "|")
    }

    /// The position of the entry keyed `key`.
    fn find(&self, key: &str) -> (r: Option<usize>)
        requires
            self.wf(),
        ensures
            match r {
                Some(i) => i < self.slots().len() && has_key(self.slots(), key@) && key_index(
                    self.slots(),
                    key@,
                ) == i,
                None => !has_key(self.slots(), key@),
            },
    {
        let mut i: usize = 0;
        while i < self.entries.len()
            invariant
                i <= self.entries@.len(),
                self.wf(),
                forall|m: int| 0 <= m < i ==> #[trigger] self.slots()[m].key != key@,
            decreases self.entries.len() - i,
        {
            if str_eq(self.entries[i].0.as_str(), key) {
                proof {
                    assert(self.slots()[usz(i)] == slot_of(self.entries@[usz(i)]));
                    lemma_key_index(self.slots(), key@, usz(i));
                }
                return Some(i);
            }
            assert(self.slots()[usz(i)] == slot_of(self.entries@[usz(i)]));
            i = i + 1;
        }
        proof {
            if has_key(self.slots(), key@) {
                let n = choose|n: int|
                    0 <= n < self.slots().len() && #[trigger] self.slots()[n].key == key@;
                assert(self.slots()[n].key != key@);
            }
        }
        None
    }

    /// Whether an entry is cached under `key`.
    pub fn contains_library(&self, key: &str) -> (r: bool)
        requires
            self.wf(),
        ensures
            r == has_key(self.slots(), key@),
    {
        self.find(key).is_some()
    }

    /// The items cached under `key`, without affecting recency. An empty but
    /// successful fetch is a hit with no items.
    pub fn peek_library(&self, key: &str) -> (r: Option<&[MediaItem]>)
        requires
            self.wf(),
        ensures
            match lookup(self.slots(), key@) {
                Some(sl) => r is Some && r.unwrap()@ == sl.items,
                None => r is None,
            },
    {
        match self.find(key) {
            None => None,
            Some(i) => {
                assert(self.slots()[usz(i)] == slot_of(self.entries@[usz(i)]));
                Some(self.entries[i].1.items.as_slice())
            },
        }
    }

    /// The epoch of the entry cached under `key`, if present.
    pub fn library_epoch(&self, key: &str) -> (r: Option<u64>)
        requires
            self.wf(),
        ensures
            r == (match lookup(self.slots(), key@) {
                Some(sl) => Some(sl.epoch),
                None => None::<u64>,
            }),
    {
        match self.find(key) {
            None => None,
            Some(i) => {
                assert(self.slots()[usz(i)] == slot_of(self.entries@[usz(i)]));
                Some(self.entries[i].1.epoch)
            },
        }
    }

    /// Read the items cached under `key`, marking the entry most recently used.
    /// `None` on a miss; an empty but successful fetch is a hit with no items.
    pub fn get_library(&mut self, key: &str) -> (r: Option<&[MediaItem]>)
        requires
            old(self).wf(),
        ensures
            final(self).wf(),
            final(self).slots() == after_touch(old(self).slots(), key@),
            forall|q: Seq<char>| #[trigger] lookup(final(self).slots(), q) == lookup(old(self).slots(), q),
            final(self).cap() == old(self).cap(),
            final(self).home_slot() == old(self).home_slot(),
            final(self).epoch_counter() == old(self).epoch_counter(),
            final(self).set_epoch() == old(self).set_epoch(),
            match lookup(old(self).slots(), key@) {
                Some(sl) => r is Some && r.unwrap()@ == sl.items,
                None => r is None,
            },
    {
        let ghost s0 = self.slots();
        proof {
            assert forall|q: Seq<char>| #[trigger] lookup(after_touch(s0, key@), q) == lookup(s0, q) by {
                lemma_touch_lookups(s0, key@, q);
            }
        }
        match self.find(key) {
            None => None,
            Some(i) => {
                let e = self.entries.remove(i);
                proof {
                    assert(slots_of(self.entries@) =~= without_key(s0, key@));
                }
                self.entries.push(e);
                proof {
                    assert(slots_of(self.entries@) =~= after_touch(s0, key@));
                    lemma_touch(s0, key@, self.next_epoch);
                    lemma_key_index(s0, key@, usz(i));
                }
                let n = self.entries.len();
                assert(self.slots()[n - 1] == slot_of(self.entries@[n - 1]));
                Some(self.entries[n - 1].1.items.as_slice())
            },
        }
    }

    /// Insert or replace the entry under `key`. The entry takes a fresh epoch
    /// (even when the items are unchanged), becomes most recently used, and the
    /// least recently used entry is evicted when the count exceeds the
    /// capacity. Returns the new epoch.
    pub fn put_library(&mut self, key: &str, items: Vec<MediaItem>) -> (r: u64)
        requires
            old(self).wf(),
            old(self).epoch_counter() < u64::MAX,
        ensures
            final(self).wf(),
            r == old(self).epoch_counter(),
            final(self).epoch_counter() == r + 1,
            final(self).slots() == after_put(old(self).slots(), key@, items@, r, old(self).cap()),
            forall|i: int| 0 <= i < old(self).slots().len() ==> #[trigger] old(self).slots()[i].epoch < r,
            lookup(final(self).slots(), key@) == Some(Slot { key: key@, items: items@, epoch: r }),
            final(self).slots().len() == (if old(self).slots().len() + (if has_key(old(self).slots(), key@) {
                0int
            } else {
                1int
            }) <= old(self).cap() {
                old(self).slots().len() + (if has_key(old(self).slots(), key@) {
                    0int
                } else {
                    1int
                })
            } else {
                old(self).cap() as int
            }),
            forall|q: Seq<char>|
                q != key@ && #[trigger] has_key(final(self).slots(), q) ==> has_key(old(self).slots(), q)
                    && lookup(final(self).slots(), q) == lookup(old(self).slots(), q),
            final(self).cap() == old(self).cap(),
            final(self).home_slot() == old(self).home_slot(),
            final(self).set_epoch() == old(self).set_epoch(),
    {
        let ghost s0 = self.slots();
        let ghost items_view = items@;
        let epoch = self.next_epoch;
        self.next_epoch = self.next_epoch + 1;
        match self.find(key) {
            None => {},
            Some(i) => {
                let _ = self.entries.remove(i);
            },
        }
        assert(slots_of(self.entries@) =~= without_key(s0, key@));
        self.entries.push((owned(key), LibraryEntry { items, epoch }));
        let ghost pushed = without_key(s0, key@).push(Slot { key: key@, items: items_view, epoch });
        assert(slots_of(self.entries@) =~= pushed);
        proof {
            lemma_without_key(s0, key@, epoch);
        }
        if self.entries.len() > self.capacity {
            let _ = self.entries.remove(0);
            assert(slots_of(self.entries@) =~= keep_last(pushed, self.capacity as nat));
        }
        proof {
            lemma_put(s0, key@, items_view, epoch, self.capacity as nat, self.next_epoch);
            assert forall|q: Seq<char>|
                q != key@ && #[trigger] has_key(self.slots(), q) implies has_key(s0, q) && lookup(
                self.slots(),
                q,
            ) == lookup(s0, q) by {
                lemma_put_law(s0, key@, items_view, epoch, self.capacity as nat, q);
            }
            lemma_put_law(s0, key@, items_view, epoch, self.capacity as nat, key@);
        }
        epoch
    }

    /// Remove every library entry whose key begins with `prefix` (such as
    /// `{source_type}:{source_id}:`), keeping the others in recency order.
    pub fn invalidate_source(&mut self, prefix: &str)
        requires
            old(self).wf(),
        ensures
            final(self).wf(),
            final(self).slots() == without_prefix(old(self).slots(), prefix@),
            final(self).cap() == old(self).cap(),
            final(self).home_slot() == old(self).home_slot(),
            final(self).epoch_counter() == old(self).epoch_counter(),
            final(self).set_epoch() == old(self).set_epoch(),
    {
        let ghost s0 = self.slots();
        let mut rest: Vec<(String, LibraryEntry)> = Vec::new();
        std::mem::swap(&mut rest, &mut self.entries);
        let ghost orig = rest@;
        let ghost n = orig.len();
        let mut kept: Vec<(String, LibraryEntry)> = Vec::new();
        let ghost mut k: int = 0;
        assert(slots_of(orig.subrange(0, 0)) =~= Seq::<Slot>::empty());
        while rest.len() > 0
            invariant
                0 <= k <= n,
                n == orig.len(),
                rest@ == orig.subrange(k, n as int),
                slots_of(kept@) == without_prefix(slots_of(orig.subrange(0, k)), prefix@),
            decreases rest.len(),
        {
            let e = rest.remove(0);
            let ghost pre = slots_of(orig.subrange(0, k));
            let ghost nxt = slots_of(orig.subrange(0, k + 1));
            assert(nxt.drop_last() =~= pre);
            assert(nxt.last() == slot_of(e));
            if !starts_with(e.0.as_str(), prefix) {
                kept.push(e);
                assert(slots_of(kept@) =~= without_prefix(pre, prefix@).push(nxt.last()));
            }
            proof {
                k = k + 1;
            }
            assert(rest@ =~= orig.subrange(k, n as int));
        }
        assert(orig.subrange(0, k) =~= orig);
        self.entries = kept;
        proof {
            lemma_without_prefix(s0, prefix@, self.next_epoch);
        }
    }

    /// Number of cached library entries (the Home slot is not counted).
    pub fn library_len(&self) -> (r: usize)
        requires
            self.wf(),
        ensures
            r == self.slots().len(),
    {
        self.entries.len()
    }

    /// The most library entries kept.
    pub fn capacity(&self) -> (r: usize)
        ensures
            r == self.cap(),
    {
        self.capacity
    }

    // --- Home slot (exempt from eviction) ---

    /// Store the assembled Home payload; it takes a fresh epoch.
    pub fn set_home(&mut self, home: CachedHome)
        requires
            old(self).wf(),
            old(self).epoch_counter() < u64::MAX,
        ensures
            final(self).wf(),
            final(self).home_slot() == Some(
                CachedHome { epoch: old(self).epoch_counter(), ..home },
            ),
            final(self).epoch_counter() == old(self).epoch_counter() + 1,
            forall|i: int|
                0 <= i < old(self).slots().len() ==> #[trigger] old(self).slots()[i].epoch < old(
                    self,
                ).epoch_counter(),
            final(self).slots() == old(self).slots(),
            final(self).cap() == old(self).cap(),
            final(self).set_epoch() == old(self).set_epoch(),
    {
        let epoch = self.next_epoch;
        self.next_epoch = self.next_epoch + 1;
        let mut h = home;
        h.epoch = epoch;
        self.home = Some(h);
    }

    /// The cached Home payload, but only when it was built for
    /// `source_set_key`: a changed source set is a miss.
    pub fn get_home(&self, source_set_key: &str) -> (r: Option<&CachedHome>)
        ensures
            (r is Some) == (self.home_slot() is Some && self.home_slot().unwrap().source_set_key@
                == source_set_key@),
            r is Some ==> *r.unwrap() == self.home_slot().unwrap(),
    {
        match &self.home {
            Some(h) => {
                if str_eq(h.source_set_key.as_str(), source_set_key) {
                    Some(h)
                } else {
                    None
                }
            },
            None => None,
        }
    }

    /// The cached Home payload whatever its source set, for patching in place.
    pub fn home_mut(&mut self) -> (r: Option<&mut CachedHome>)
        requires
            old(self).wf(),
        ensures
            final(self).wf(),
            final(self).slots() == old(self).slots(),
            final(self).cap() == old(self).cap(),
            final(self).epoch_counter() == old(self).epoch_counter(),
            final(self).set_epoch() == old(self).set_epoch(),
            match old(self).home_slot() {
                None => r is None && final(self).home_slot() is None,
                Some(h) => r is Some && *r.unwrap() == h && final(self).home_slot() == Some(
                    *final(r.unwrap()),
                ),
            },
    {
        self.home.as_mut()
    }

    /// The epoch of the Home payload, if one is cached.
    pub fn home_epoch(&self) -> (r: Option<u64>)
        ensures
            r == (match self.home_slot() {
                Some(h) => Some(h.epoch),
                None => None::<u64>,
            }),
    {
        match &self.home {
            Some(h) => Some(h.epoch),
            None => None,
        }
    }

    /// Drop the Home payload.
    pub fn invalidate_home(&mut self)
        requires
            old(self).wf(),
        ensures
            final(self).wf(),
            final(self).home_slot() is None,
            final(self).slots() == old(self).slots(),
            final(self).cap() == old(self).cap(),
            final(self).epoch_counter() == old(self).epoch_counter(),
            final(self).set_epoch() == old(self).set_epoch(),
    {
        self.home = None;
    }

    // --- Source-set epoch (revalidation guard) ---

    /// The current source-set epoch.
    pub fn source_set_epoch(&self) -> (r: u64)
        ensures
            r == self.set_epoch(),
    {
        self.source_set_epoch
    }

    /// Advance the source-set epoch, so a refetch stamped with the old value is
    /// dropped on return.
    pub fn bump_source_set_epoch(&mut self)
        requires
            old(self).wf(),
            old(self).set_epoch() < u64::MAX,
        ensures
            final(self).wf(),
            final(self).set_epoch() == old(self).set_epoch() + 1,
            final(self).slots() == old(self).slots(),
            final(self).cap() == old(self).cap(),
            final(self).home_slot() == old(self).home_slot(),
            final(self).epoch_counter() == old(self).epoch_counter(),
    {
        self.source_set_epoch = self.source_set_epoch + 1;
    }

    /// Overwrite the watch state of item `id` in every cached library entry
    /// and in the Home payload, so a revisit right after playback shows fresh
    /// progress. Returns whether any cached item was touched.
    pub fn patch_watch_state(&mut self, id: &str, watched: bool, position_ms: Option<i64>) -> (r: bool)
        requires
            old(self).wf(),
        ensures
            final(self).wf(),
            final(self).slots() == patched_slots(old(self).slots(), id@, watched, position_ms),
            match old(self).home_slot() {
                None => final(self).home_slot() is None,
                Some(h) => final(self).home_slot() is Some && home_patched(
                    h,
                    final(self).home_slot().unwrap(),
                    id@,
                    watched,
                    position_ms,
                ),
            },
            r == (slots_mention(old(self).slots(), id@) || (old(self).home_slot() matches Some(h)
                && home_mentions(h, id@))),
            final(self).cap() == old(self).cap(),
            final(self).epoch_counter() == old(self).epoch_counter(),
            final(self).set_epoch() == old(self).set_epoch(),
    {
        let ghost s0 = self.slots();
        let t1 = patch_entries(&mut self.entries, id, watched, position_ms);
        proof {
            assert forall|a: int, b: int| 0 <= a < b < self.slots().len() implies #[trigger] self.slots()[a].key
                != #[trigger] self.slots()[b].key by {
                assert(s0[a].key != s0[b].key);
            }
            assert forall|m: int| 0 <= m < self.slots().len() implies #[trigger] self.slots()[m].epoch < self.next_epoch by {
                assert(s0[m].epoch < self.next_epoch);
            }
        }
        let t2 = match &mut self.home {
            Some(h) => patch_home(h, id, watched, position_ms),
            None => false,
        };
        t1 || t2
    }

    /// Apply a computed invalidation. `source_prefix` names the removed
    /// source's `{type}:{id}:` prefix when `inv.source_libraries` is set;
    /// without it no library entry is dropped.
    pub fn apply_invalidation(&mut self, inv: CacheInvalidation, source_prefix: Option<&str>)
        requires
            old(self).wf(),
            inv.bump_source_set_epoch ==> old(self).set_epoch() < u64::MAX,
        ensures
            final(self).wf(),
            final(self).slots() == (match source_prefix {
                Some(p) => if inv.source_libraries {
                    without_prefix(old(self).slots(), p@)
                } else {
                    old(self).slots()
                },
                None => old(self).slots(),
            }),
            final(self).home_slot() == if inv.home {
                None
            } else {
                old(self).home_slot()
            },
            final(self).set_epoch() == if inv.bump_source_set_epoch {
                old(self).set_epoch() + 1
            } else {
                old(self).set_epoch() as int
            },
            final(self).cap() == old(self).cap(),
            final(self).epoch_counter() == old(self).epoch_counter(),
    {
        if inv.source_libraries {
            match source_prefix {
                Some(prefix) => self.invalidate_source(prefix),
                None => {},
            }
        }
        if inv.home {
            self.invalidate_home();
        }
        if inv.bump_source_set_epoch {
            self.bump_source_set_epoch();
        }
    }
}

} // verus!
