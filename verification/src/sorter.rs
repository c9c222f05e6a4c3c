//! The deletion-order sorter: entries ordered deepest first, so that whatever
//! lies inside a directory comes before the directory itself; and the
//! opposite order, in which a directory comes before what lies inside it.

use crate::entry::FileOps;
use crate::path::{depth, depth_of, is_strict_prefix, lemma_prefix_is_shallower};
use rayon::slice::ParallelSliceMut;
use std::cmp::Ordering;
use vstd::prelude::*;

verus! {

/// The paths of the entries, in order.
pub open spec fn paths_of<S: FileOps>(entries: Seq<&S>) -> Seq<Seq<char>> {
    Seq::new(entries.len(), |i: int| entries[i].path_view())
}

/// No path of the sequence is followed by a deeper one.
pub open spec fn deepest_first(paths: Seq<Seq<char>>) -> bool {
    forall|i: int, j: int|
        0 <= i < j < paths.len() ==> depth_of(#[trigger] paths[i]) >= depth_of(#[trigger] paths[j])
}

/// No path of the sequence is followed by a shallower one.
pub open spec fn shallowest_first(paths: Seq<Seq<char>>) -> bool {
    forall|i: int, j: int|
        0 <= i < j < paths.len() ==> depth_of(#[trigger] paths[i]) <= depth_of(#[trigger] paths[j])
}

/// How two entries stand in the deletion order: the deeper one is the lesser.
pub fn deeper_first<S: FileOps>(a: &S, b: &S) -> (o: Ordering)
    ensures
        o == Ordering::Less <==> depth_of(a.path_view()) > depth_of(b.path_view()),
        o == Ordering::Equal <==> depth_of(a.path_view()) == depth_of(b.path_view()),
        o == Ordering::Greater <==> depth_of(a.path_view()) < depth_of(b.path_view()),
{
    let da: usize = depth(a.path());
    let db: usize = depth(b.path());
    if db < da {
        Ordering::Less
    } else if db == da {
        Ordering::Equal
    } else {
        Ordering::Greater
    }
}

/// Calls rayon's `par_sort_unstable_by` on the vector, with `deeper_first` as
/// the comparison. The contract claims what rayon documents of a sort by a
/// total order: the vector holds the same entries as before, each as often,
/// and none is followed by one that the comparison puts before it. Which of
/// two entries of equal depth comes first is left open.
#[verifier::external_body]
fn par_sort_deepest_first<'a, S: FileOps + Sync>(entries: &mut Vec<&'a S>)
    ensures
        final(entries)@.to_multiset() == old(entries)@.to_multiset(),
        deepest_first(paths_of(final(entries)@)),
{
    entries.par_sort_unstable_by(|a, b| deeper_first(*a, *b));
}

/// Orders the entries by the number of components of their paths, deepest
/// first. The result holds the entries given, each as often as it was given;
/// entries of equal depth come in no particular order.
pub fn sort_files<'a, S: FileOps + Sync>(files_to_sort: Vec<&'a S>) -> (sorted: Vec<&'a S>)
    ensures
        sorted@.to_multiset() == files_to_sort@.to_multiset(),
        sorted@.len() == files_to_sort@.len(),
        deepest_first(paths_of(sorted@)),
{
    let mut sorted = files_to_sort;
    par_sort_deepest_first(&mut sorted);
    proof {
        sorted@.to_multiset_ensures();
        files_to_sort@.to_multiset_ensures();
    }
    sorted
}

/// A sequence read backwards holds what it holds read forwards, each entry as
/// often.
pub proof fn lemma_reverse_keeps_entries<A>(s: Seq<A>)
    ensures
        s.reverse().to_multiset() == s.to_multiset(),
    decreases s.len(),
{
    if s.len() == 0 {
        assert(s.reverse() =~= s);
    } else {
        let front = s.drop_last();
        let x = s.last();
        let one = Seq::<A>::empty().push(x);
        lemma_reverse_keeps_entries(front);
        assert(s.reverse() =~= one + front.reverse());
        assert(front.push(x) =~= s);
        assert(front + one =~= s);
        vstd::seq_lib::lemma_multiset_commutative(one, front.reverse());
        vstd::seq_lib::lemma_multiset_commutative(front, one);
        assert(s.reverse().to_multiset() =~= s.to_multiset());
    }
}

/// The entries in the opposite order.
pub fn reversed<'a, S>(entries: &Vec<&'a S>) -> (back: Vec<&'a S>)
    ensures
        back@ == entries@.reverse(),
{
    let n: usize = entries.len();
    let mut back: Vec<&'a S> = Vec::new();
    let mut i: usize = 0;
    while i < n
        invariant
            n == entries.len(),
            0 <= i <= n,
            back.len() == i,
            forall|k: int| 0 <= k < i ==> back[k] == entries[n - 1 - k],
        decreases n - i,
    {
        back.push(entries[n - 1 - i]);
        i = i + 1;
    }
    assert(back@ =~= entries@.reverse());
    back
}

/// Orders the entries by the number of components of their paths, shallowest
/// first: a directory comes before whatever lies inside it. The result holds
/// the entries given, each as often as it was given; entries of equal depth
/// come in no particular order.
pub fn sort_shallowest_first<'a, S: FileOps + Sync>(entries: Vec<&'a S>) -> (sorted: Vec<&'a S>)
    ensures
        sorted@.to_multiset() == entries@.to_multiset(),
        sorted@.len() == entries@.len(),
        shallowest_first(paths_of(sorted@)),
{
    let deepest = sort_files(entries);
    let sorted = reversed(&deepest);
    proof {
        lemma_reverse_keeps_entries(deepest@);
        let n = deepest@.len();
        let down = paths_of(deepest@);
        let up = paths_of(sorted@);
        assert forall|i: int, j: int| 0 <= i < j < up.len() implies depth_of(#[trigger] up[i]) <= depth_of(
            #[trigger] up[j],
        ) by {
            assert(up[i] == down[n - 1 - i]);
            assert(up[j] == down[n - 1 - j]);
            assert(depth_of(down[n - 1 - j]) >= depth_of(down[n - 1 - i]));
        }
    }
    sorted
}

/// In a sequence of paths ordered deepest first, a path that lies strictly
/// below another comes before it: where the path at `above` is a strict prefix
/// of the path at `below`, `below` is the smaller index.
pub proof fn lemma_descendants_come_first(paths: Seq<Seq<char>>, above: int, below: int)
    requires
        deepest_first(paths),
        0 <= above < paths.len(),
        0 <= below < paths.len(),
        is_strict_prefix(paths[above], paths[below]),
    ensures
        below < above,
{
    lemma_prefix_is_shallower(paths[above], paths[below]);
    if above < below {
        assert(depth_of(paths[above]) >= depth_of(paths[below]));
    }
}

/// In a sequence of paths ordered shallowest first, a path that lies strictly
/// above another comes before it.
pub proof fn lemma_ancestors_come_first(paths: Seq<Seq<char>>, above: int, below: int)
    requires
        shallowest_first(paths),
        0 <= above < paths.len(),
        0 <= below < paths.len(),
        is_strict_prefix(paths[above], paths[below]),
    ensures
        above < below,
{
    lemma_prefix_is_shallower(paths[above], paths[below]);
    if below < above {
        assert(depth_of(paths[below]) <= depth_of(paths[above]));
    }
}

} // verus!
