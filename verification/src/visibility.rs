//! Dropping the items of hidden libraries.

use vstd::prelude::*;
use crate::media::{composite_key, source_type_name, LibrarySection, MediaItem};
use crate::text::{strings_contain, strs_view};

verus! {

/// Whether an item stays visible: its library's key
/// `{source_type}:{source_id}:{section}` is not hidden. Items with no known
/// section are kept.
pub open spec fn item_visible(it: MediaItem, hidden: Set<Seq<char>>) -> bool {
    match it.library_section_id {
        Some(section) => !hidden.contains(
            composite_key(source_type_name(it.source_type), it.source_id@, section@),
        ),
        None => true,
    }
}

/// The visible items of `s`, in order.
pub open spec fn visible_items(s: Seq<MediaItem>, hidden: Set<Seq<char>>) -> Seq<MediaItem>
    decreases s.len(),
{
    if s.len() == 0 {
        s
    } else if item_visible(s.last(), hidden) {
        visible_items(s.drop_last(), hidden).push(s.last())
    } else {
        visible_items(s.drop_last(), hidden)
    }
}

/// With nothing hidden every item is visible.
pub proof fn lemma_nothing_hidden_keeps_all(s: Seq<MediaItem>)
    ensures
        visible_items(s, Set::empty()) == s,
    decreases s.len(),
{
    if s.len() > 0 {
        lemma_nothing_hidden_keeps_all(s.drop_last());
        assert(s.drop_last().push(s.last()) =~= s);
    }
}

/// What hiding keeps, over all item lists: every kept item comes from the
/// list and either has no known section or a section whose key
/// `{source_type}:{source_id}:{section}` is not hidden; and every item of the
/// list of that kind is kept.
pub proof fn lemma_visible_items_meaning(s: Seq<MediaItem>, hidden: Set<Seq<char>>)
    ensures
        forall|i: int|
            0 <= i < visible_items(s, hidden).len() ==> s.contains(#[trigger] visible_items(s, hidden)[i])
                && (visible_items(s, hidden)[i].library_section_id is None || !hidden.contains(
                composite_key(
                    source_type_name(visible_items(s, hidden)[i].source_type),
                    visible_items(s, hidden)[i].source_id@,
                    visible_items(s, hidden)[i].library_section_id->0@,
                ),
            )),
        forall|j: int|
            0 <= j < s.len() && (s[j].library_section_id is None || !hidden.contains(
                composite_key(
                    source_type_name(s[j].source_type),
                    s[j].source_id@,
                    s[j].library_section_id->0@,
                ),
            )) ==> visible_items(s, hidden).contains(#[trigger] s[j]),
    decreases s.len(),
{
    if s.len() > 0 {
        let t = s.drop_last();
        lemma_visible_items_meaning(t, hidden);
        let v = visible_items(s, hidden);
        let vt = visible_items(t, hidden);
        assert forall|i: int| 0 <= i < v.len() implies s.contains(#[trigger] v[i]) && (
        v[i].library_section_id is None || !hidden.contains(
            composite_key(source_type_name(v[i].source_type), v[i].source_id@, v[i].library_section_id->0@),
        )) by {
            if i < vt.len() {
                assert(v[i] == vt[i]);
                let k = choose|k: int| 0 <= k < t.len() && t[k] == vt[i];
                assert(s[k] == t[k]);
            } else {
                assert(v[i] == s.last());
                assert(s[s.len() - 1] == s.last());
            }
        }
        assert forall|j: int|
            0 <= j < s.len() && (s[j].library_section_id is None || !hidden.contains(
                composite_key(source_type_name(s[j].source_type), s[j].source_id@, s[j].library_section_id->0@),
            )) implies v.contains(#[trigger] s[j]) by {
            if j < t.len() {
                assert(t[j] == s[j]);
                assert(vt.contains(t[j]));
                let k = choose|k: int| 0 <= k < vt.len() && vt[k] == t[j];
                assert(item_visible(s.last(), hidden) ==> v[k] == vt[k]);
            } else {
                assert(v[v.len() - 1] == s.last());
            }
        }
    }
}

/// Drop the items whose library is hidden. `hidden` holds visibility keys as
/// `LibrarySection::visibility_key_for` builds them; items with no known
/// section are kept.
pub fn retain_visible_items(items: Vec<MediaItem>, hidden: &Vec<String>) -> (r: Vec<MediaItem>)
    ensures
        r@ == visible_items(items@, strs_view(hidden@).to_set()),
{
    let ghost hidden_set = strs_view(hidden@).to_set();
    if hidden.len() == 0 {
        proof {
            assert(strs_view(hidden@) =~= Seq::<Seq<char>>::empty());
            assert(hidden_set =~= Set::empty());
            lemma_nothing_hidden_keeps_all(items@);
        }
        return items;
    }
    let ghost orig = items@;
    let mut rest = items;
    let mut out: Vec<MediaItem> = Vec::new();
    let ghost mut k: int = 0;
    assert(orig.subrange(0, 0) =~= Seq::<MediaItem>::empty());
    while rest.len() > 0
        invariant
            0 <= k <= orig.len(),
            rest@ == orig.skip(k),
            out@ == visible_items(orig.subrange(0, k), hidden_set),
            hidden_set == strs_view(hidden@).to_set(),
        decreases rest.len(),
    {
        let it = rest.remove(0);
        let ghost pre = orig.subrange(0, k);
        let ghost nxt = orig.subrange(0, k + 1);
        assert(nxt.drop_last() =~= pre);
        assert(nxt.last() == it);
        let keep = match &it.library_section_id {
            Some(section) => {
                let key = LibrarySection::visibility_key_for(
                    it.source_type.as_str(),
                    it.source_id.as_str(),
                    section.as_str(),
                );
                !strings_contain(hidden, &key)
            },
            None => true,
        };
        if keep {
            out.push(it);
        }
        proof {
            k = k + 1;
        }
        assert(rest@ =~= orig.skip(k));
    }
    assert(orig.subrange(0, k) =~= orig);
    out
}

} // verus!
