//! What a synchronisation has to do: which entries of the source are new to
//! the destination, which are in both and have to be compared, and which the
//! destination holds alone.

use crate::entry::{Dir, File, Symlink};
use crate::flags::Flag;
use crate::progress::progress_total;
use crate::snapshot::{dir_set, file_set, symlink_set, FileSets};
use crate::sorter::{deepest_first, paths_of, shallowest_first, sort_files, sort_shallowest_first};
use hashbrown::HashSet;
use vstd::prelude::*;

verus! {

/// The list holds each member of `wanted` once, and nothing else.
pub open spec fn lists_exactly<T: View>(list: Seq<&T>, wanted: Set<T::V>) -> bool {
    &&& forall|i: int| 0 <= i < list.len() ==> wanted.contains(#[trigger] list[i]@)
    &&& forall|v: T::V| wanted.contains(v) ==> exists|i: int| 0 <= i < list.len() && #[trigger] list[i]@ == v
    &&& forall|i: int, j: int| 0 <= i < j < list.len() ==> #[trigger] list[i]@ != #[trigger] list[j]@
}

/// A list that holds the same entries as another, each as often, lists exactly
/// what the other lists.
pub proof fn lemma_reordered_lists_the_same<T: View>(list: Seq<&T>, reordered: Seq<&T>, wanted: Set<T::V>)
    requires
        lists_exactly(list, wanted),
        reordered.to_multiset() == list.to_multiset(),
    ensures
        lists_exactly(reordered, wanted),
{
    list.to_multiset_ensures();
    reordered.to_multiset_ensures();
    assert(list.no_duplicates()) by {
        assert forall|i: int, j: int| 0 <= i < list.len() && 0 <= j < list.len() && i != j implies list[i]
            != list[j] by {
            if i < j {
                assert(list[i]@ != list[j]@);
            } else {
                assert(list[j]@ != list[i]@);
            }
        }
    }
    list.lemma_multiset_has_no_duplicates();
    reordered.lemma_multiset_has_no_duplicates_conv();
    assert forall|i: int| 0 <= i < reordered.len() implies wanted.contains(#[trigger] reordered[i]@) by {
        assert(reordered.contains(reordered[i]));
        assert(reordered.to_multiset().count(reordered[i]) > 0);
        assert(list.to_multiset().count(reordered[i]) > 0);
        assert(list.contains(reordered[i]));
        let k = choose|k: int| 0 <= k < list.len() && list[k] == reordered[i];
        assert(wanted.contains(list[k]@));
    }
    assert forall|v: T::V| wanted.contains(v) implies exists|i: int|
        0 <= i < reordered.len() && #[trigger] reordered[i]@ == v by {
        let k = choose|k: int| 0 <= k < list.len() && #[trigger] list[k]@ == v;
        assert(list.contains(list[k]));
        assert(list.to_multiset().count(list[k]) > 0);
        assert(reordered.to_multiset().count(list[k]) > 0);
        assert(reordered.contains(list[k]));
        let i = choose|i: int| 0 <= i < reordered.len() && reordered[i] == list[k];
        assert(reordered[i]@ == v);
    }
    assert forall|i: int, j: int| 0 <= i < j < reordered.len() implies #[trigger] reordered[i]@
        != #[trigger] reordered[j]@ by {
        assert(reordered[i] != reordered[j]);
        assert(reordered.contains(reordered[i]));
        assert(reordered.contains(reordered[j]));
        assert(reordered.to_multiset().count(reordered[i]) > 0);
        assert(reordered.to_multiset().count(reordered[j]) > 0);
        assert(list.to_multiset().count(reordered[i]) > 0);
        assert(list.to_multiset().count(reordered[j]) > 0);
        assert(list.contains(reordered[i]));
        assert(list.contains(reordered[j]));
        let k = choose|k: int| 0 <= k < list.len() && list[k] == reordered[i];
        let l = choose|l: int| 0 <= l < list.len() && list[l] == reordered[j];
        if k < l {
            assert(list[k]@ != list[l]@);
        } else {
            assert(list[l]@ != list[k]@);
        }
    }
}

/// Calls `hashbrown::HashSet::difference` and collects what it visits: each file of
/// `held` that `other` does not hold, once, in no particular order.
#[verifier::external_body]
fn files_only_in<'a>(held: &'a HashSet<File>, other: &'a HashSet<File>) -> (only: Vec<&'a File>)
    ensures
        lists_exactly(only@, file_set(*held).difference(file_set(*other))),
{
    held.difference(other).collect()
}

/// Calls `hashbrown::HashSet::difference` and collects what it visits: each directory of
/// `held` that `other` does not hold, once, in no particular order.
#[verifier::external_body]
fn dirs_only_in<'a>(held: &'a HashSet<Dir>, other: &'a HashSet<Dir>) -> (only: Vec<&'a Dir>)
    ensures
        lists_exactly(only@, dir_set(*held).difference(dir_set(*other))),
{
    held.difference(other).collect()
}

/// Calls `hashbrown::HashSet::difference` and collects what it visits: each link of
/// `held` that `other` does not hold, once, in no particular order.
#[verifier::external_body]
fn symlinks_only_in<'a>(held: &'a HashSet<Symlink>, other: &'a HashSet<Symlink>) -> (only: Vec<
    &'a Symlink,
>)
    ensures
        lists_exactly(only@, symlink_set(*held).difference(symlink_set(*other))),
{
    held.difference(other).collect()
}

/// Calls `hashbrown::HashSet::intersection` and collects what it visits: each file that
/// both sets hold, once, in no particular order.
#[verifier::external_body]
fn files_in_both<'a>(one: &'a HashSet<File>, other: &'a HashSet<File>) -> (both: Vec<&'a File>)
    ensures
        lists_exactly(both@, file_set(*one).intersect(file_set(*other))),
{
    one.intersection(other).collect()
}

/// The work of one synchronisation, as lists of entries.
pub struct SyncPlan<'a> {
    /// Directories to create in the destination, shallowest first.
    pub new_dirs: Vec<&'a Dir>,
    /// Files to copy to the destination.
    pub new_files: Vec<&'a File>,
    /// Links to create in the destination.
    pub new_symlinks: Vec<&'a Symlink>,
    /// Files to compare, and to copy where they differ.
    pub common_files: Vec<&'a File>,
    /// Files to remove from the destination.
    pub old_files: Vec<&'a File>,
    /// Links to remove from the destination.
    pub old_symlinks: Vec<&'a Symlink>,
    /// Directories to remove from the destination, deepest first.
    pub old_dirs: Vec<&'a Dir>,
}

/// What the destination holds alone and is to lose: nothing where `NO_DELETE`
/// is set.
pub open spec fn to_delete<V>(flags: Flag, destination: Set<V>, source: Set<V>) -> Set<V> {
    if flags.has(Flag::no_delete()) {
        Set::<V>::empty()
    } else {
        destination.difference(source)
    }
}

impl<'a> SyncPlan<'a> {
    /// The entries to copy, all kinds together.
    pub open spec fn copies(&self) -> nat {
        self.new_dirs@.len() + self.new_files@.len() + self.new_symlinks@.len()
    }

    /// The entries to delete, all kinds together.
    pub open spec fn deletions(&self) -> nat {
        self.old_dirs@.len() + self.old_files@.len() + self.old_symlinks@.len()
    }

    /// The units of progress that carrying out the plan takes: one for each
    /// entry copied or deleted, two for each file compared. `None` where the
    /// total does not fit the counter.
    pub fn total(&self) -> (total: Option<u64>)
        ensures
            total.is_some() <==> self.copies() + self.deletions() + 2 * self.common_files.len()
                <= u64::MAX,
            total.is_some() ==> total.unwrap() == self.copies() + self.deletions() + 2
                * self.common_files.len(),
    {
        let copies: u64 = match count(self.new_dirs.len(), self.new_files.len(), self.new_symlinks.len()) {
            Some(n) => n,
            None => { return None; },
        };
        let deletions: u64 = match count(
            self.old_dirs.len(),
            self.old_files.len(),
            self.old_symlinks.len(),
        ) {
            Some(n) => n,
            None => { return None; },
        };
        progress_total(copies, deletions, self.common_files.len() as u64)
    }
}

/// The sum of three lengths, where it fits.
fn count(a: usize, b: usize, c: usize) -> (sum: Option<u64>)
    ensures
        sum.is_some() <==> a + b + c <= u64::MAX,
        sum.is_some() ==> sum.unwrap() == a + b + c,
{
    match (a as u64).checked_add(b as u64) {
        Some(ab) => ab.checked_add(c as u64),
        None => None,
    }
}

/// Sets out the work of synchronising `destination` with `source`. What only
/// the source holds is copied. Files that both hold, with the same path and
/// size, are compared. What only the destination holds is deleted, unless
/// `NO_DELETE` is set. Each list holds its entries once. The directories to
/// create come shallowest first and those to delete deepest first; the other
/// lists come in no particular order.
pub fn plan_sync<'a>(source: &'a FileSets, destination: &'a FileSets, flags: Flag) -> (plan: SyncPlan<'a>)
    ensures
        lists_exactly(plan.new_dirs@, source@.dirs.difference(destination@.dirs)),
        lists_exactly(plan.new_files@, source@.files.difference(destination@.files)),
        lists_exactly(plan.new_symlinks@, source@.symlinks.difference(destination@.symlinks)),
        lists_exactly(plan.common_files@, source@.files.intersect(destination@.files)),
        lists_exactly(plan.old_dirs@, to_delete(flags, destination@.dirs, source@.dirs)),
        lists_exactly(plan.old_files@, to_delete(flags, destination@.files, source@.files)),
        lists_exactly(plan.old_symlinks@, to_delete(flags, destination@.symlinks, source@.symlinks)),
        shallowest_first(paths_of(plan.new_dirs@)),
        deepest_first(paths_of(plan.old_dirs@)),
{
    let missing = dirs_only_in(source.dirs(), destination.dirs());
    let ghost wanted = source@.dirs.difference(destination@.dirs);
    let ghost unordered = missing@;
    let new_dirs = sort_shallowest_first(missing);
    proof {
        lemma_reordered_lists_the_same(unordered, new_dirs@, wanted);
    }
    let new_files = files_only_in(source.files(), destination.files());
    let new_symlinks = symlinks_only_in(source.symlinks(), destination.symlinks());
    let common_files = files_in_both(source.files(), destination.files());
    if flags.contains(Flag::no_delete()) {
        assert(paths_of(Seq::<&Dir>::empty()).len() == 0);
        SyncPlan {
            new_dirs,
            new_files,
            new_symlinks,
            common_files,
            old_files: Vec::new(),
            old_symlinks: Vec::new(),
            old_dirs: Vec::new(),
        }
    } else {
        let found = dirs_only_in(destination.dirs(), source.dirs());
        let ghost unsorted = found@;
        let old_dirs = sort_files(found);
        proof {
            lemma_reordered_lists_the_same(
                unsorted,
                old_dirs@,
                destination@.dirs.difference(source@.dirs),
            );
        }
        SyncPlan {
            new_dirs,
            new_files,
            new_symlinks,
            common_files,
            old_files: files_only_in(destination.files(), source.files()),
            old_symlinks: symlinks_only_in(destination.symlinks(), source.symlinks()),
            old_dirs,
        }
    }
}

} // verus!
