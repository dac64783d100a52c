//! A small map from string keys to values, kept as a list of entries in which
//! no key occurs twice. The workers keep their caches and flags in it.

use vstd::prelude::*;
use crate::text::{owned, str_eq};

verus! {

/// The entries of a keyed list with keys as character sequences.
pub open spec fn keyed_view<V>(s: Seq<(String, V)>) -> Seq<(Seq<char>, V)> {
    s.map_values(|e: (String, V)| (e.0@, e.1))
}

/// Whether no key occurs twice.
pub open spec fn keys_distinct<V>(s: Seq<(Seq<char>, V)>) -> bool {
    forall|i: int, j: int| 0 <= i < j < s.len() ==> s[i].0 != s[j].0
}

/// A position whose key is `k`, when there is one.
pub open spec fn index_of<V>(s: Seq<(Seq<char>, V)>, k: Seq<char>) -> int {
    choose|i: int| 0 <= i < s.len() && s[i].0 == k
}

/// The value stored under `k`, if any.
pub open spec fn value_at<V>(s: Seq<(Seq<char>, V)>, k: Seq<char>) -> Option<V> {
    if exists|i: int| 0 <= i < s.len() && s[i].0 == k {
        Some(s[index_of(s, k)].1)
    } else {
        None
    }
}

/// In a list with distinct keys, the value at a position is the value of its key.
pub proof fn lemma_value_at_index<V>(s: Seq<(Seq<char>, V)>, i: int)
    requires
        keys_distinct(s),
        0 <= i < s.len(),
    ensures
        value_at(s, s[i].0) == Some(s[i].1),
{
    let k = s[i].0;
    let j = index_of(s, k);
    if j < i {
        assert(s[j].0 != s[i].0);
    } else if j > i {
        assert(s[i].0 != s[j].0);
    }
}

/// A value stored under `k` is the value of an entry with key `k`.
pub proof fn lemma_value_at_some<V>(s: Seq<(Seq<char>, V)>, k: Seq<char>)
    requires
        value_at(s, k) is Some,
    ensures
        exists|i: int| 0 <= i < s.len() && s[i].0 == k && s[i].1 == value_at(s, k)->Some_0,
{
    let i = index_of(s, k);
    assert(0 <= i < s.len() && s[i].0 == k);
}

/// A map from string keys to values.
pub struct KeyedList<V> {
    entries: Vec<(String, V)>,
}

impl<V> View for KeyedList<V> {
    type V = Seq<(Seq<char>, V)>;

    closed spec fn view(&self) -> Seq<(Seq<char>, V)> {
        keyed_view(self.entries@)
    }
}

impl<V> KeyedList<V> {
    #[verifier::type_invariant]
    spec fn distinct_invariant(self) -> bool {
        keys_distinct(keyed_view(self.entries@))
    }

    /// An empty map.
    pub fn new() -> (r: Self)
        ensures
            r@ == Seq::<(Seq<char>, V)>::empty(),
    {
        let r = KeyedList { entries: Vec::new() };
        assert(keyed_view(r.entries@) =~= Seq::<(Seq<char>, V)>::empty());
        r
    }

    /// The number of keys.
    pub fn len(&self) -> (r: usize)
        ensures
            r == self@.len(),
    {
        self.entries.len()
    }

    /// The value of the entry at position `i`.
    pub fn value(&self, i: usize) -> (r: &V)
        requires
            i < self@.len(),
        ensures
            *r == self@[i as int].1,
    {
        &self.entries[i].1
    }

    /// The position of `k`, if it is a key.
    fn position(&self, k: &str) -> (r: Option<usize>)
        ensures
            match r {
                Some(i) => i < self@.len() && self@[i as int].0 == k@,
                None => forall|i: int| 0 <= i < self@.len() ==> self@[i].0 != k@,
            },
    {
        let mut i: usize = 0;
        while i < self.entries.len()
            invariant
                i <= self.entries.len(),
                forall|j: int| 0 <= j < i ==> keyed_view(self.entries@)[j].0 != k@,
            decreases self.entries.len() - i,
        {
            if str_eq(self.entries[i].0.as_str(), k) {
                return Some(i);
            }
            i = i + 1;
        }
        None
    }

    /// The value stored under `k`.
    pub fn get(&self, k: &str) -> (r: Option<&V>)
        ensures
            match r {
                Some(v) => value_at(self@, k@) == Some(*v),
                None => value_at(self@, k@) is None,
            },
    {
        proof {
            use_type_invariant(self);
        }
        match self.position(k) {
            Some(i) => {
                proof {
                    lemma_value_at_index(self@, i as int);
                }
                Some(&self.entries[i].1)
            },
            None => None,
        }
    }

    /// Stores `v` under `k`, replacing what was stored there.
    pub fn set(&mut self, k: &str, v: V)
        ensures
            forall|q: Seq<char>| #[trigger]
                value_at(final(self)@, q) == if q == k@ {
                    Some(v)
                } else {
                    value_at(old(self)@, q)
                },
            value_at(old(self)@, k@) is Some ==> final(self)@.len() == old(self)@.len(),
            value_at(old(self)@, k@) is None ==> final(self)@.len() == old(self)@.len() + 1,
            keys_distinct(final(self)@),
    {
        proof {
            use_type_invariant(&*self);
        }
        let ghost before = self@;
        let pos = self.position(k);
        let mut entries: Vec<(String, V)> = Vec::new();
        std::mem::swap(&mut entries, &mut self.entries);
        proof {
            assert(keyed_view(entries@) == before);
        }
        match pos {
            Some(i) => {
                entries.set(i, (owned(k), v));
                proof {
                    assert(keyed_view(entries@) =~= before.update(i as int, (k@, v)));
                }
            },
            None => {
                entries.push((owned(k), v));
                proof {
                    assert(keyed_view(entries@) =~= before.push((k@, v)));
                }
            },
        }
        let ghost after = keyed_view(entries@);
        proof {
            assert forall|a: int, b: int| 0 <= a < b < after.len() implies after[a].0 != after[b].0 by {
                if pos is Some {
                    let i = pos->Some_0 as int;
                    if a != i && b != i {
                        assert(before[a].0 != before[b].0);
                    }
                } else if b < before.len() {
                    assert(before[a].0 != before[b].0);
                }
            }
            assert forall|q: Seq<char>| #[trigger]
                value_at(after, q) == if q == k@ {
                    Some(v)
                } else {
                    value_at(before, q)
                } by {
                let n = after.len() as int;
                let i = match pos {
                    Some(i) => i as int,
                    None => n - 1,
                };
                assert(after[i] == (k@, v));
                lemma_value_at_index(after, i);
                if q != k@ {
                    if exists|j: int| 0 <= j < before.len() && before[j].0 == q {
                        let j = choose|j: int| 0 <= j < before.len() && before[j].0 == q;
                        assert(after[j] == before[j]);
                        lemma_value_at_index(before, j);
                        lemma_value_at_index(after, j);
                    } else {
                        assert forall|j: int| !(0 <= j < after.len() && after[j].0 == q) by {
                            if 0 <= j < after.len() && j != i {
                                assert(after[j] == before[j]);
                            }
                        }
                    }
                }
            }
        }
        self.entries = entries;
    }

    /// Removes every entry.
    pub fn clear(&mut self)
        ensures
            final(self)@ == Seq::<(Seq<char>, V)>::empty(),
    {
        self.entries = Vec::new();
        assert(keyed_view(self.entries@) =~= Seq::<(Seq<char>, V)>::empty());
    }
}

} // verus!
