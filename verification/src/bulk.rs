//! The bulk operations: copy, delete and compare-and-copy over a collection of
//! entries. Each one plans the filesystem actions, one entry at a time, and
//! advances the progress counter; the caller carries the actions out.

use crate::entry::{Action, ActionView, FileOps};
use crate::flags::Flag;
use crate::hash::{digest_of, digest_view, must_copy, needs_copy, usable, Digest, DigestView};
use crate::path::{join, join_spec};
use crate::progress::Progress;
use vstd::prelude::*;

verus! {

/// The actions of one bulk operation. Where `ordered` is set they are to be
/// carried out one after the other, in the order given; otherwise in any
/// order, and at the same time if the caller so wishes. An action that fails
/// does not keep the others from being tried.
#[derive(Debug, Clone, PartialEq, Eq)]
pub struct Batch {
    pub actions: Vec<Action>,
    pub ordered: bool,
}

/// The place of an entry under the base directory `base`.
pub open spec fn located<S: FileOps>(file: &S, base: Seq<char>) -> Seq<char> {
    join_spec(base, file.path_view())
}

/// The action that copies `file` from under `src` to under `dest`.
pub open spec fn copy_of<S: FileOps>(file: &S, src: Seq<char>, dest: Seq<char>) -> ActionView {
    file.transfer(located(file, src), located(file, dest))
}

/// The action that removes `file` from under `location`.
pub open spec fn removal_of<S: FileOps>(file: &S, location: Seq<char>) -> ActionView {
    file.removal(located(file, location))
}

/// What compare-and-copy does for one entry: the copy where the digests say
/// that one is due, else nothing.
pub open spec fn compared_copy_of<S: FileOps>(
    file: &S,
    src: Seq<char>,
    dest: Seq<char>,
    flags: Flag,
    source: Option<DigestView>,
    destination: Option<DigestView>,
) -> Option<ActionView> {
    if must_copy(flags, source, destination) {
        Some(copy_of(file, src, dest))
    } else {
        None
    }
}

/// The digests known of the `i`-th entry, source first: those at `i`, or
/// none where the list is too short.
pub open spec fn digests_at(digests: Seq<(Option<Digest>, Option<Digest>)>, i: int) -> (
    Option<DigestView>,
    Option<DigestView>,
) {
    if 0 <= i < digests.len() {
        (digest_view(&digests[i].0), digest_view(&digests[i].1))
    } else {
        (None, None)
    }
}

/// An action, if any, over sequences of characters.
pub open spec fn step_view(step: Option<Action>) -> Option<ActionView> {
    match step {
        Some(action) => Some(action@),
        None => None,
    }
}

/// The place of an entry under a base directory: where the caller reads,
/// writes or removes it.
pub fn locate<S: FileOps>(file: &S, base: &str) -> (place: String)
    ensures
        place@ == located(file, base@),
{
    join(base, file.path())
}

/// Plans the copy of one entry from under `src` to under `dest`.
pub fn copy_file<S: FileOps>(file_to_copy: &S, src: &str, dest: &str) -> (action: Action)
    ensures
        action@ == copy_of(file_to_copy, src@, dest@),
{
    let src_file = join(src, file_to_copy.path());
    let dest_file = join(dest, file_to_copy.path());
    file_to_copy.copy(src_file.as_str(), dest_file.as_str())
}

/// Plans the removal of one entry from under `location`.
pub fn delete_file<S: FileOps>(file_to_delete: &S, location: &str) -> (action: Action)
    ensures
        action@ == removal_of(file_to_delete, location@),
{
    let path = join(location, file_to_delete.path());
    file_to_delete.remove(path.as_str())
}

/// Plans the copy of every entry from under `src` to under `dest`: one action
/// for each entry, to be carried out in any order, and one unit of progress
/// for each.
pub fn copy_files<S: FileOps>(
    files_to_copy: &Vec<&S>,
    src: &str,
    dest: &str,
    progress: &mut Progress,
) -> (batch: Batch)
    requires
        old(progress).position + files_to_copy.len() <= u64::MAX,
    ensures
        !batch.ordered,
        batch.actions.len() == files_to_copy.len(),
        forall|i: int|
            0 <= i < files_to_copy.len() ==> (#[trigger] batch.actions[i])@ == copy_of(
                files_to_copy[i],
                src@,
                dest@,
            ),
        final(progress).position == old(progress).position + files_to_copy.len(),
        final(progress).length == old(progress).length,
{
    let mut actions: Vec<Action> = Vec::new();
    let mut i: usize = 0;
    while i < files_to_copy.len()
        invariant
            0 <= i <= files_to_copy.len(),
            actions.len() == i,
            forall|k: int| 0 <= k < i ==> (#[trigger] actions[k])@ == copy_of(files_to_copy[k], src@, dest@),
            progress.position == old(progress).position + i,
            progress.length == old(progress).length,
            old(progress).position + files_to_copy.len() <= u64::MAX,
        decreases files_to_copy.len() - i,
    {
        let file: &S = files_to_copy[i];
        actions.push(copy_file(file, src, dest));
        progress.inc(1);
        i = i + 1;
    }
    Batch { actions, ordered: false }
}

fn plan_removals<S: FileOps>(files_to_delete: &Vec<&S>, location: &str, progress: &mut Progress) -> (actions:
    Vec<Action>)
    requires
        old(progress).position + files_to_delete.len() <= u64::MAX,
    ensures
        actions.len() == files_to_delete.len(),
        forall|i: int|
            0 <= i < files_to_delete.len() ==> (#[trigger] actions[i])@ == removal_of(
                files_to_delete[i],
                location@,
            ),
        final(progress).position == old(progress).position + files_to_delete.len(),
        final(progress).length == old(progress).length,
{
    let mut actions: Vec<Action> = Vec::new();
    let mut i: usize = 0;
    while i < files_to_delete.len()
        invariant
            0 <= i <= files_to_delete.len(),
            actions.len() == i,
            forall|k: int|
                0 <= k < i ==> (#[trigger] actions[k])@ == removal_of(files_to_delete[k], location@),
            progress.position == old(progress).position + i,
            progress.length == old(progress).length,
            old(progress).position + files_to_delete.len() <= u64::MAX,
        decreases files_to_delete.len() - i,
    {
        let file: &S = files_to_delete[i];
        actions.push(delete_file(file, location));
        progress.inc(1);
        i = i + 1;
    }
    actions
}

/// Plans the removal of every entry from under `location`: one action for
/// each entry, to be carried out in any order, and one unit of progress for
/// each. Not for a directory together with what lies inside it: a directory
/// that is not empty yet cannot be removed.
pub fn delete_files<S: FileOps>(files_to_delete: &Vec<&S>, location: &str, progress: &mut Progress) -> (batch:
    Batch)
    requires
        old(progress).position + files_to_delete.len() <= u64::MAX,
    ensures
        !batch.ordered,
        batch.actions.len() == files_to_delete.len(),
        forall|i: int|
            0 <= i < files_to_delete.len() ==> (#[trigger] batch.actions[i])@ == removal_of(
                files_to_delete[i],
                location@,
            ),
        final(progress).position == old(progress).position + files_to_delete.len(),
        final(progress).length == old(progress).length,
{
    let actions = plan_removals(files_to_delete, location, progress);
    Batch { actions, ordered: false }
}

/// Plans the removal of every entry from under `location`, to be carried out
/// strictly in the order in which the entries are given: the `i`-th action
/// removes the `i`-th entry. One unit of progress for each entry.
pub fn delete_files_sequential<S: FileOps>(
    files_to_delete: &Vec<&S>,
    location: &str,
    progress: &mut Progress,
) -> (batch: Batch)
    requires
        old(progress).position + files_to_delete.len() <= u64::MAX,
    ensures
        batch.ordered,
        batch.actions.len() == files_to_delete.len(),
        forall|i: int|
            0 <= i < files_to_delete.len() ==> (#[trigger] batch.actions[i])@ == removal_of(
                files_to_delete[i],
                location@,
            ),
        final(progress).position == old(progress).position + files_to_delete.len(),
        final(progress).length == old(progress).length,
{
    let actions = plan_removals(files_to_delete, location, progress);
    Batch { actions, ordered: true }
}

/// Decides for one entry whether the source is copied over the destination,
/// from the digests of the two copies: the copy is planned unless both digests
/// are there, were made by the strategy that the options ask for, and are
/// equal.
pub fn compare_and_copy_file<S: FileOps>(
    file_to_compare: &S,
    src: &str,
    dest: &str,
    flags: Flag,
    source: &Option<Digest>,
    destination: &Option<Digest>,
) -> (step: Option<Action>)
    ensures
        step_view(step) == compared_copy_of(
            file_to_compare,
            src@,
            dest@,
            flags,
            digest_view(source),
            digest_view(destination),
        ),
{
    if needs_copy(flags, source, destination) {
        Some(copy_file(file_to_compare, src, dest))
    } else {
        None
    }
}

/// Decides for every entry whether the source is copied over the destination,
/// from the digests of the two copies of each: `digests[i]` holds the digest
/// of the `i`-th entry under `src`, then that under `dest`. The `i`-th step is
/// the copy of the `i`-th entry, or nothing where the copies are equal. An
/// entry without digests is copied. The steps may be carried out in any
/// order. Two units of progress for each entry, copied or not.
pub fn compare_and_copy_files<S: FileOps>(
    files_to_compare: &Vec<&S>,
    src: &str,
    dest: &str,
    flags: Flag,
    digests: &Vec<(Option<Digest>, Option<Digest>)>,
    progress: &mut Progress,
) -> (steps: Vec<Option<Action>>)
    requires
        old(progress).position + 2 * files_to_compare.len() <= u64::MAX,
    ensures
        steps.len() == files_to_compare.len(),
        forall|i: int|
            0 <= i < files_to_compare.len() ==> step_view(#[trigger] steps[i]) == compared_copy_of(
                files_to_compare[i],
                src@,
                dest@,
                flags,
                digests_at(digests@, i).0,
                digests_at(digests@, i).1,
            ),
        final(progress).position == old(progress).position + 2 * files_to_compare.len(),
        final(progress).length == old(progress).length,
{
    let mut steps: Vec<Option<Action>> = Vec::new();
    let mut i: usize = 0;
    while i < files_to_compare.len()
        invariant
            0 <= i <= files_to_compare.len(),
            steps.len() == i,
            forall|k: int|
                0 <= k < i ==> step_view(#[trigger] steps[k]) == compared_copy_of(
                    files_to_compare[k],
                    src@,
                    dest@,
                    flags,
                    digests_at(digests@, k).0,
                    digests_at(digests@, k).1,
                ),
            progress.position == old(progress).position + 2 * i,
            progress.length == old(progress).length,
            old(progress).position + 2 * files_to_compare.len() <= u64::MAX,
        decreases files_to_compare.len() - i,
    {
        let file: &S = files_to_compare[i];
        let step = if i < digests.len() {
            let pair = &digests[i];
            compare_and_copy_file(file, src, dest, flags, &pair.0, &pair.1)
        } else {
            compare_and_copy_file(file, src, dest, flags, &None, &None)
        };
        steps.push(step);
        progress.inc(2);
        i = i + 1;
    }
    steps
}

/// Compare-and-copy against a destination whose copy has the same digest as
/// the source, made by the strategy that the options ask for, plans no copy.
pub proof fn lemma_equal_digests_copy_nothing<S: FileOps>(
    file: &S,
    src: Seq<char>,
    dest: Seq<char>,
    flags: Flag,
    digest: Option<DigestView>,
)
    requires
        usable(flags, digest),
    ensures
        compared_copy_of(file, src, dest, flags, digest, digest).is_none(),
{
}

/// Compare-and-copy plans no copy for an entry whose two copies hold the same
/// readable content, whatever the options: so a second run over trees that
/// the first run made alike copies nothing.
pub proof fn lemma_same_content_copies_nothing<S: FileOps>(
    file: &S,
    src: Seq<char>,
    dest: Seq<char>,
    flags: Flag,
    content: Seq<u8>,
)
    ensures
        compared_copy_of(
            file,
            src,
            dest,
            flags,
            digest_of(flags, Some(content)),
            digest_of(flags, Some(content)),
        ).is_none(),
{
}

} // verus!
