//! Entries stored under text keys, kept in the order they were added; a
//! key stored again replaces its entry in place.

use vstd::prelude::*;

verus! {

/// The position of key `k` among `entries`, or -1.
pub open spec fn find_key<V>(entries: Seq<(Seq<char>, V)>, k: Seq<char>) -> int
    decreases entries.len(),
{
    if entries.len() == 0 {
        -1
    } else if entries.last().0 == k {
        entries.len() - 1
    } else {
        find_key(entries.drop_last(), k)
    }
}

/// Storing `v` under `k`: an existing entry is replaced in place, a new key
/// is added at the end.
pub open spec fn kv_insert<V>(entries: Seq<(Seq<char>, V)>, k: Seq<char>, v: V) -> Seq<(Seq<char>, V)> {
    let i = find_key(entries, k);
    if i >= 0 {
        entries.update(i, (k, v))
    } else {
        entries.push((k, v))
    }
}


/// Views of stored entries.
pub open spec fn entries_view<V: View>(e: Seq<(String, V)>) -> Seq<(Seq<char>, V::V)> {
    e.map_values(|p: (String, V)| (p.0@, p.1@))
}

/// The position of the entry stored under `key`, searching from the end.
pub fn find_entry<V: View>(entries: &Vec<(String, V)>, key: &String) -> (r: Option<usize>)
    ensures
        match r {
            Some(i) => i as int == find_key(entries_view(entries@), key@),
            None => find_key(entries_view(entries@), key@) == -1,
        },
{
    let ghost ev = entries_view(entries@);
    assert(ev.take(ev.len() as int) =~= ev);
    let mut i: usize = entries.len();
    while i > 0
        invariant
            i <= entries@.len(),
            ev == entries_view(entries@),
            find_key(ev, key@) == find_key(ev.take(i as int), key@),
        decreases i,
    {
        let ghost t = ev.take(i as int);
        assert(t.drop_last() =~= ev.take(i - 1));
        assert(t.last() == ev[i - 1]);
        if entries[i - 1].0 == *key {
            return Some(i - 1);
        }
        i = i - 1;
    }
    assert(ev.take(0) =~= Seq::<(Seq<char>, V::V)>::empty());
    None
}

pub proof fn lemma_find_key<V>(entries: Seq<(Seq<char>, V)>, k: Seq<char>)
    ensures
        -1 <= find_key(entries, k) < entries.len(),
        find_key(entries, k) >= 0 ==> entries[find_key(entries, k)].0 == k,
        find_key(entries, k) == -1 ==> forall|i: int| 0 <= i < entries.len() ==> (#[trigger] entries[i]).0 != k,
    decreases entries.len(),
{
    if entries.len() > 0 {
        lemma_find_key(entries.drop_last(), k);
        if entries.last().0 != k {
            assert forall|i: int| 0 <= i < entries.len() && find_key(entries, k) == -1 implies (#[trigger] entries[i]).0 != k by {
                if i < entries.len() - 1 {
                    assert(entries.drop_last()[i] == entries[i]);
                }
            }
        }
    }
}

/// Stores `value` under `key`, replacing an entry with the same key.
pub fn store_entry<V: View>(entries: &mut Vec<(String, V)>, key: String, value: V)
    ensures
        entries_view(final(entries)@) == kv_insert(entries_view(old(entries)@), key@, value@),
{
    proof {
        lemma_find_key(entries_view(entries@), key@);
    }
    match find_entry(entries, &key) {
        Some(i) => {
            let ghost kv = key@;
            let ghost vv = value@;
            entries.set(i, (key, value));
            assert(entries_view(entries@) =~= entries_view(old(entries)@).update(i as int, (kv, vv)));
        },
        None => {
            let ghost kv = key@;
            let ghost vv = value@;
            entries.push((key, value));
            assert(entries_view(entries@) =~= entries_view(old(entries)@).push((kv, vv)));
        },
    }
}

/// The stored entry of `entries` under `k`, if any.
pub open spec fn lookup<V>(entries: Seq<(Seq<char>, V)>, k: Seq<char>) -> Option<V> {
    let i = find_key(entries, k);
    if i >= 0 {
        Some(entries[i].1)
    } else {
        None
    }
}

} // verus!
