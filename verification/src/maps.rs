//! Association-list maps with a mathematical `Map` view.
//!
//! The extraction stages build several small maps (page name to output file,
//! page name to redirect target, numeric id to page name, numeric id to
//! count). All are held as vectors of entries with pairwise-distinct keys and
//! are specified through [`assoc_view`], the `Map` they denote.
use vstd::prelude::*;

use crate::page_name::PageName;

verus! {

/// The map denoted by a sequence of key-value entries; a later entry for the
/// same key wins.
pub open spec fn assoc_view<K: View, V: View>(entries: Seq<(K, V)>) -> Map<K::V, V::V>
    decreases entries.len(),
{
    if entries.len() == 0 {
        Map::empty()
    } else {
        assoc_view(entries.drop_last()).insert(entries.last().0@, entries.last().1@)
    }
}

/// Pairwise-distinct keys.
pub open spec fn unique_keys<K: View, V>(entries: Seq<(K, V)>) -> bool {
    forall|i: int, j: int|
        0 <= i < j < entries.len() ==> (#[trigger] entries[i]).0@ != (#[trigger] entries[j]).0@
}

/// A key is in the view exactly when some entry carries it.
pub proof fn lemma_assoc_contains<K: View, V: View>(entries: Seq<(K, V)>, k: K::V)
    ensures
        assoc_view(entries).dom().contains(k) <==> exists|i: int|
            0 <= i < entries.len() && (#[trigger] entries[i]).0@ == k,
    decreases entries.len(),
{
    if entries.len() > 0 {
        lemma_assoc_contains(entries.drop_last(), k);
        let prev = entries.drop_last();
        if assoc_view(entries).dom().contains(k) {
            if entries.last().0@ != k {
                let i = choose|i: int| 0 <= i < prev.len() && (#[trigger] prev[i]).0@ == k;
                assert(entries[i].0@ == k);
            } else {
                assert(entries[entries.len() - 1].0@ == k);
            }
        }
        if exists|i: int| 0 <= i < entries.len() && (#[trigger] entries[i]).0@ == k {
            let i = choose|i: int| 0 <= i < entries.len() && (#[trigger] entries[i]).0@ == k;
            if i < entries.len() - 1 {
                assert(prev[i].0@ == k);
            }
        }
    }
}

/// With distinct keys, the view maps each entry's key to that entry's value.
pub proof fn lemma_assoc_get<K: View, V: View>(entries: Seq<(K, V)>, i: int)
    requires
        unique_keys(entries),
        0 <= i < entries.len(),
    ensures
        assoc_view(entries).dom().contains(entries[i].0@),
        assoc_view(entries)[entries[i].0@] == entries[i].1@,
    decreases entries.len(),
{
    let prev = entries.drop_last();
    if i == entries.len() - 1 {
    } else {
        lemma_assoc_get(prev, i);
        assert(entries.last().0@ != entries[i].0@);
    }
}

/// Appending one entry inserts it into the view.
pub proof fn lemma_assoc_push<K: View, V: View>(entries: Seq<(K, V)>, k: K, v: V)
    ensures
        assoc_view(entries.push((k, v))) == assoc_view(entries).insert(k@, v@),
{
    assert(entries.push((k, v)).drop_last() =~= entries);
}

/// Replacing the entry that carries key `k` updates the view at `k` alone.
pub proof fn lemma_assoc_update<K: View, V: View>(entries: Seq<(K, V)>, i: int, k: K, v: V)
    requires
        unique_keys(entries),
        0 <= i < entries.len(),
        entries[i].0@ == k@,
    ensures
        assoc_view(entries.update(i, (k, v))) =~= assoc_view(entries).insert(k@, v@),
        unique_keys(entries.update(i, (k, v))),
    decreases entries.len(),
{
    let upd = entries.update(i, (k, v));
    if i == entries.len() - 1 {
        assert(upd.drop_last() =~= entries.drop_last());
        assert(assoc_view(upd) == assoc_view(entries.drop_last()).insert(k@, v@));
        assert(assoc_view(entries.drop_last()).insert(entries.last().0@, entries.last().1@).insert(
            k@,
            v@,
        ) =~= assoc_view(entries.drop_last()).insert(k@, v@));
    } else {
        assert(upd.drop_last() =~= entries.drop_last().update(i, (k, v)));
        lemma_assoc_update(entries.drop_last(), i, k, v);
        assert(entries.last().0@ != k@);
        assert(assoc_view(upd) == assoc_view(entries.drop_last()).insert(k@, v@).insert(
            entries.last().0@,
            entries.last().1@,
        ));
        assert(assoc_view(entries.drop_last()).insert(k@, v@).insert(
            entries.last().0@,
            entries.last().1@,
        ) =~= assoc_view(entries).insert(k@, v@));
    }
}

/// Right-preferring union is commutative when the domains are disjoint.
pub proof fn lemma_union_disjoint_comm<K, V>(m1: Map<K, V>, m2: Map<K, V>)
    requires
        m1.dom().disjoint(m2.dom()),
    ensures
        m1.union_prefer_right(m2) =~= m2.union_prefer_right(m1),
{
}

/// Find an entry by key among entries keyed by page name.
pub fn page_find<V>(entries: &Vec<(PageName, V)>, k: &PageName) -> (r: Option<usize>)
    ensures
        match r {
            Some(i) => i < entries@.len() && entries@[i as int].0@ == k@,
            None => forall|i: int|
                0 <= i < entries@.len() ==> (#[trigger] entries@[i]).0@ != k@,
        },
{
    let n = entries.len();
    let mut i: usize = 0;
    while i < n
        invariant
            n == entries@.len(),
            i <= n,
            forall|j: int| 0 <= j < i ==> (#[trigger] entries@[j]).0@ != k@,
        decreases n - i,
    {
        if entries[i].0 == *k {
            return Some(i);
        }
        i += 1;
    }
    None
}

/// Find an entry by key among entries keyed by numeric id.
pub fn id_find<V>(entries: &Vec<(u64, V)>, k: u64) -> (r: Option<usize>)
    ensures
        match r {
            Some(i) => i < entries@.len() && entries@[i as int].0 == k,
            None => forall|i: int| 0 <= i < entries@.len() ==> (#[trigger] entries@[i]).0 != k,
        },
{
    let n = entries.len();
    let mut i: usize = 0;
    while i < n
        invariant
            n == entries@.len(),
            i <= n,
            forall|j: int| 0 <= j < i ==> (#[trigger] entries@[j]).0 != k,
        decreases n - i,
    {
        if entries[i].0 == k {
            return Some(i);
        }
        i += 1;
    }
    None
}

} // verus!
