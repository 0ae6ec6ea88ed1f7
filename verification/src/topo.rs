//! Execution orders of a graph given by the source lists of its nodes, and
//! the counting facts behind in-degree based topological sorting.

use vstd::prelude::*;

verus! {

broadcast use {vstd::set::group_set_axioms, vstd::seq_lib::group_seq_properties};

/// `ord` lists every node exactly once and each node after all of its
/// sources; a node whose source list repeats an entry has no such place.
pub open spec fn is_exec_order(srcs: Seq<Seq<usize>>, ord: Seq<usize>) -> bool {
    &&& ord.len() == srcs.len()
    &&& ord.no_duplicates()
    &&& forall|k: int| 0 <= k < ord.len() ==> (#[trigger] ord[k]) < srcs.len()
    &&& forall|k: int| 0 <= k < ord.len() ==> placed_after_sources(srcs, ord, k)
}

/// The node at position `k` of `ord` has distinct sources, all earlier in `ord`.
pub open spec fn placed_after_sources(srcs: Seq<Seq<usize>>, ord: Seq<usize>, k: int) -> bool {
    &&& srcs[ord[k] as int].no_duplicates()
    &&& forall|m: int|
        0 <= m < srcs[ord[k] as int].len() ==> ord.take(k).contains(
            #[trigger] srcs[ord[k] as int][m],
        )
}

/// Some execution order of the graph exists.
pub open spec fn has_exec_order(srcs: Seq<Seq<usize>>) -> bool {
    exists|ord: Seq<usize>| is_exec_order(srcs, ord)
}

/// How many entries of `d` occur in `s`.
pub open spec fn hits(s: Seq<usize>, d: Seq<usize>) -> nat
    decreases d.len(),
{
    if d.len() == 0 {
        0
    } else {
        hits(s, d.drop_last()) + if s.contains(d.last()) {
            1nat
        } else {
            0nat
        }
    }
}

pub proof fn lemma_hits_push(s: Seq<usize>, d: Seq<usize>, x: usize)
    ensures
        hits(s, d.push(x)) == hits(s, d) + if s.contains(x) {
            1nat
        } else {
            0nat
        },
{
    assert(d.push(x).drop_last() =~= d);
}

/// For a list without repeats, the hits are the entries common to both.
proof fn lemma_hits_as_set(s: Seq<usize>, d: Seq<usize>)
    requires
        d.no_duplicates(),
    ensures
        hits(s, d) == d.to_set().intersect(s.to_set()).len(),
        d.to_set().intersect(s.to_set()).finite(),
    decreases d.len(),
{
    broadcast use vstd::seq_lib::seq_to_set_is_finite;

    if d.len() == 0 {
        assert(d.to_set().intersect(s.to_set()) =~= Set::<usize>::empty());
    } else {
        let p = d.drop_last();
        let x = d.last();
        assert(p.no_duplicates());
        lemma_hits_as_set(s, p);
        assert(d =~= p.push(x));
        assert(d.to_set() =~= p.to_set().insert(x));
        assert(!p.contains(x)) by {
            if p.contains(x) {
                let j = choose|j: int| 0 <= j < p.len() && p[j] == x;
                assert(d[j] == d[d.len() - 1]);
            }
        }
        let ip = p.to_set().intersect(s.to_set());
        if s.contains(x) {
            assert(d.to_set().intersect(s.to_set()) =~= ip.insert(x));
            assert(!ip.contains(x));
        } else {
            assert(d.to_set().intersect(s.to_set()) =~= ip);
        }
    }
}

/// Hits never exceed the length of `s`; reaching it means `s` has no repeats
/// and every entry of `s` occurs in `d`.
pub proof fn lemma_hits_bound(s: Seq<usize>, d: Seq<usize>)
    requires
        d.no_duplicates(),
    ensures
        hits(s, d) <= s.len(),
        hits(s, d) == s.len() ==> s.no_duplicates() && forall|m: int|
            0 <= m < s.len() ==> d.contains(#[trigger] s[m]),
{
    broadcast use vstd::seq_lib::seq_to_set_is_finite;

    lemma_hits_as_set(s, d);
    let i = d.to_set().intersect(s.to_set());
    vstd::set_lib::lemma_len_subset(i, s.to_set());
    s.lemma_cardinality_of_set();
    if hits(s, d) == s.len() {
        assert(s.to_set().len() == s.len());
        s.lemma_no_dup_set_cardinality();
        assert forall|m: int| 0 <= m < s.len() implies d.contains(#[trigger] s[m]) by {
            if !d.contains(s[m]) {
                assert(s.to_set().contains(s[m]));
                assert(i.subset_of(s.to_set().remove(s[m])));
                vstd::set_lib::lemma_len_subset(i, s.to_set().remove(s[m]));
            }
        }
    }
}

/// When every entry of a repeat-free `s` occurs in `d`, all of `s` is hit.
pub proof fn lemma_hits_full(s: Seq<usize>, d: Seq<usize>)
    requires
        d.no_duplicates(),
        s.no_duplicates(),
        forall|m: int| 0 <= m < s.len() ==> d.contains(#[trigger] s[m]),
    ensures
        hits(s, d) == s.len(),
{
    broadcast use vstd::seq_lib::seq_to_set_is_finite;

    lemma_hits_as_set(s, d);
    assert(d.to_set().intersect(s.to_set()) =~= s.to_set()) by {
        assert forall|x: usize| s.to_set().contains(x) implies d.to_set().contains(x) by {
            let m = choose|m: int| 0 <= m < s.len() && s[m] == x;
            assert(d.contains(s[m]));
        }
    }
    s.unique_seq_to_set();
}

/// A repeat-free list of fewer than `n` nodes misses some entry of any
/// repeat-free list of `n` nodes.
pub proof fn lemma_missing_entry(ord: Seq<usize>, d: Seq<usize>) -> (k: int)
    requires
        ord.no_duplicates(),
        d.no_duplicates(),
        d.len() < ord.len(),
    ensures
        0 <= k < ord.len(),
        !d.contains(ord[k]),
        forall|j: int| 0 <= j < k ==> d.contains(#[trigger] ord[j]),
{
    broadcast use vstd::seq_lib::seq_to_set_is_finite;

    if forall|j: int| 0 <= j < ord.len() ==> d.contains(#[trigger] ord[j]) {
        assert(ord.to_set().subset_of(d.to_set())) by {
            assert forall|x: usize| ord.to_set().contains(x) implies d.to_set().contains(x) by {
                let j = choose|j: int| 0 <= j < ord.len() && ord[j] == x;
                assert(d.contains(ord[j]));
            }
        }
        vstd::set_lib::lemma_len_subset(ord.to_set(), d.to_set());
        ord.unique_seq_to_set();
        d.unique_seq_to_set();
        assert(false);
    }
    first_missing_from(ord, d, 0)
}

proof fn first_missing_from(ord: Seq<usize>, d: Seq<usize>, i: int) -> (k: int)
    requires
        0 <= i <= ord.len(),
        forall|j: int| 0 <= j < i ==> d.contains(#[trigger] ord[j]),
        exists|j: int| i <= j < ord.len() && !d.contains(#[trigger] ord[j]),
    ensures
        i <= k < ord.len(),
        !d.contains(ord[k]),
        forall|j: int| 0 <= j < k ==> d.contains(#[trigger] ord[j]),
    decreases ord.len() - i,
{
    if !d.contains(ord[i]) {
        i
    } else {
        first_missing_from(ord, d, i + 1)
    }
}

/// The nodes among the first `k` whose source list is empty, ascending.
pub open spec fn sourceless(srcs: Seq<Seq<usize>>, k: int) -> Seq<usize>
    decreases k,
{
    if k <= 0 {
        Seq::empty()
    } else if srcs[k - 1].len() == 0 {
        sourceless(srcs, k - 1).push((k - 1) as usize)
    } else {
        sourceless(srcs, k - 1)
    }
}

/// The nodes among the first `k`, ascending, that become ready when `x` is
/// placed: their source list contains `x`, and with `placed` (which ends
/// in `x`) every entry of it has been counted.
pub open spec fn released(srcs: Seq<Seq<usize>>, placed: Seq<usize>, x: usize, k: int) -> Seq<usize>
    decreases k,
{
    if k <= 0 {
        Seq::empty()
    } else if srcs[k - 1].contains(x) && hits(srcs[k - 1], placed) == srcs[k - 1].len() {
        released(srcs, placed, x, k - 1).push((k - 1) as usize)
    } else {
        released(srcs, placed, x, k - 1)
    }
}

/// Kahn's algorithm with a first-in first-out queue, from the nodes placed
/// so far and the queue of ready ones, for at most `fuel` more placements:
/// take the front of the queue, place it, and append, in ascending order,
/// the nodes that it makes ready.
pub open spec fn kahn_from(srcs: Seq<Seq<usize>>, placed: Seq<usize>, queue: Seq<usize>, fuel: nat) -> Seq<usize>
    decreases fuel,
{
    if fuel == 0 || queue.len() == 0 {
        placed
    } else {
        let x = queue[0];
        let next = placed.push(x);
        kahn_from(
            srcs,
            next,
            queue.subrange(1, queue.len() as int) + released(srcs, next, x, srcs.len() as int),
            (fuel - 1) as nat,
        )
    }
}

/// The order in which Kahn's algorithm places the nodes: it starts with the
/// nodes without sources, ascending. A graph is sorted when every node has
/// been placed.
pub open spec fn kahn_order(srcs: Seq<Seq<usize>>) -> Seq<usize> {
    kahn_from(srcs, Seq::empty(), sourceless(srcs, srcs.len() as int), srcs.len())
}

} // verus!
