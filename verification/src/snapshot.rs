//! Snapshots of a directory tree, and the walk that builds one from what the
//! caller finds in each directory.

use crate::entry::{Dir, DirView, File, FileView, Symlink, SymlinkView};
use crate::path::{is_plain_name, join, join_spec, lemma_join_tells_names_apart};
use hashbrown::HashSet;
use vstd::prelude::*;

verus! {

/// The hash set of the `hashbrown` crate. Nothing of its inside is known
/// here; what a set holds goes by the names below.
#[verifier::external_type_specification]
#[verifier::external_body]
#[verifier::reject_recursive_types(T)]
#[verifier::reject_recursive_types(S)]
pub struct ExHashSet<T, S>(hashbrown::HashSet<T, S>);

/// The hasher that a `hashbrown` set uses unless told otherwise.
#[verifier::external_type_specification]
#[verifier::external_body]
pub struct ExDefaultHashBuilder(hashbrown::hash_map::DefaultHashBuilder);

/// The files that the set holds.
pub uninterp spec fn file_set(set: HashSet<File>) -> Set<FileView>;

/// The directories that the set holds.
pub uninterp spec fn dir_set(set: HashSet<Dir>) -> Set<DirView>;

/// The symbolic links that the set holds.
pub uninterp spec fn symlink_set(set: HashSet<Symlink>) -> Set<SymlinkView>;

/// Calls `hashbrown::HashSet::new`: a set that holds nothing.
#[verifier::external_body]
fn new_file_set() -> (set: HashSet<File>)
    ensures
        file_set(set) == Set::<FileView>::empty(),
{
    HashSet::new()
}

/// Calls `hashbrown::HashSet::new`: a set that holds nothing.
#[verifier::external_body]
fn new_dir_set() -> (set: HashSet<Dir>)
    ensures
        dir_set(set) == Set::<DirView>::empty(),
{
    HashSet::new()
}

/// Calls `hashbrown::HashSet::new`: a set that holds nothing.
#[verifier::external_body]
fn new_symlink_set() -> (set: HashSet<Symlink>)
    ensures
        symlink_set(set) == Set::<SymlinkView>::empty(),
{
    HashSet::new()
}

/// Calls `hashbrown::HashSet::insert`: the set then holds the file besides what it held,
/// and the result says whether the file was new to it. Two files are the same
/// to the set where their paths and sizes are.
#[verifier::external_body]
fn insert_file(set: &mut HashSet<File>, file: File) -> (fresh: bool)
    ensures
        file_set(*final(set)) == file_set(*old(set)).insert(file@),
        fresh == !file_set(*old(set)).contains(file@),
{
    set.insert(file)
}

/// Calls `hashbrown::HashSet::insert`: the set then holds the directory besides what it
/// held, and the result says whether the directory was new to it. Two
/// directories are the same to the set where their paths are.
#[verifier::external_body]
fn insert_dir(set: &mut HashSet<Dir>, dir: Dir) -> (fresh: bool)
    ensures
        dir_set(*final(set)) == dir_set(*old(set)).insert(dir@),
        fresh == !dir_set(*old(set)).contains(dir@),
{
    set.insert(dir)
}

/// Calls `hashbrown::HashSet::insert`: the set then holds the link besides what it held,
/// and the result says whether the link was new to it. Two links are the same
/// to the set where their paths and targets are.
#[verifier::external_body]
fn insert_symlink(set: &mut HashSet<Symlink>, link: Symlink) -> (fresh: bool)
    ensures
        symlink_set(*final(set)) == symlink_set(*old(set)).insert(link@),
        fresh == !symlink_set(*old(set)).contains(link@),
{
    set.insert(link)
}

/// Calls `Clone::clone` on a `hashbrown::HashSet`: a set that holds what the
/// given one holds.
#[verifier::external_body]
fn clone_file_set(set: &HashSet<File>) -> (copy: HashSet<File>)
    ensures
        file_set(copy) == file_set(*set),
{
    set.clone()
}

/// Calls `Clone::clone` on a `hashbrown::HashSet`: a set that holds what the
/// given one holds.
#[verifier::external_body]
fn clone_dir_set(set: &HashSet<Dir>) -> (copy: HashSet<Dir>)
    ensures
        dir_set(copy) == dir_set(*set),
{
    set.clone()
}

/// Calls `Clone::clone` on a `hashbrown::HashSet`: a set that holds what the
/// given one holds.
#[verifier::external_body]
fn clone_symlink_set(set: &HashSet<Symlink>) -> (copy: HashSet<Symlink>)
    ensures
        symlink_set(copy) == symlink_set(*set),
{
    set.clone()
}

/// A snapshot: the files, the directories and the symbolic links under one
/// root, each by its path relative to that root.
#[derive(Eq, PartialEq, Debug)]
pub struct FileSets {
    files: HashSet<File>,
    dirs: HashSet<Dir>,
    symlinks: HashSet<Symlink>,
}

/// What a snapshot holds, as three mathematical sets.
pub struct FileSetsView {
    pub files: Set<FileView>,
    pub dirs: Set<DirView>,
    pub symlinks: Set<SymlinkView>,
}

impl View for FileSets {
    type V = FileSetsView;

    closed spec fn view(&self) -> FileSetsView {
        FileSetsView {
            files: file_set(self.files),
            dirs: dir_set(self.dirs),
            symlinks: symlink_set(self.symlinks),
        }
    }
}

impl Clone for FileSets {
    fn clone(&self) -> (copy: FileSets)
        ensures
            copy@ == self@,
    {
        FileSets {
            files: clone_file_set(&self.files),
            dirs: clone_dir_set(&self.dirs),
            symlinks: clone_symlink_set(&self.symlinks),
        }
    }
}

impl FileSets {
    /// A snapshot of the three sets given.
    pub fn with(files: HashSet<File>, dirs: HashSet<Dir>, symlinks: HashSet<Symlink>) -> (sets: FileSets)
        ensures
            sets@.files == file_set(files),
            sets@.dirs == dir_set(dirs),
            sets@.symlinks == symlink_set(symlinks),
    {
        FileSets { files, dirs, symlinks }
    }

    /// A snapshot that holds nothing: that of an empty directory.
    pub fn new() -> (sets: FileSets)
        ensures
            sets@.files == Set::<FileView>::empty(),
            sets@.dirs == Set::<DirView>::empty(),
            sets@.symlinks == Set::<SymlinkView>::empty(),
    {
        FileSets { files: new_file_set(), dirs: new_dir_set(), symlinks: new_symlink_set() }
    }

    /// The set of files.
    pub fn files(&self) -> (files: &HashSet<File>)
        ensures
            file_set(*files) == self@.files,
    {
        &self.files
    }

    /// The set of directories.
    pub fn dirs(&self) -> (dirs: &HashSet<Dir>)
        ensures
            dir_set(*dirs) == self@.dirs,
    {
        &self.dirs
    }

    /// The set of symbolic links.
    pub fn symlinks(&self) -> (symlinks: &HashSet<Symlink>)
        ensures
            symlink_set(*symlinks) == self@.symlinks,
    {
        &self.symlinks
    }
}

/// What a directory entry turned out to be when the caller looked at it,
/// without following links.
#[derive(Debug, Clone, PartialEq, Eq)]
pub enum Kind {
    /// The entry or its metadata could not be read.
    Unreadable,
    /// A directory.
    Directory,
    /// A regular file, with its size in bytes.
    Regular(u64),
    /// Neither: a symbolic link, with the target stored in it, or `None` where
    /// the link could not be read.
    Link(Option<String>),
}

/// One entry of a directory, as the caller found it.
#[derive(Debug, Clone, PartialEq, Eq)]
pub struct Listed {
    pub name: String,
    pub kind: Kind,
}

/// The path of an entry named `name` in the directory `dir`, relative to the
/// root as `dir` is.
pub open spec fn entry_path(dir: Seq<char>, name: Seq<char>) -> Seq<char> {
    join_spec(dir, name)
}

/// The files among the entries of `dir`.
pub open spec fn found_files(dir: Seq<char>, entries: Seq<Listed>) -> Set<FileView>
    decreases entries.len(),
{
    if entries.len() == 0 {
        Set::<FileView>::empty()
    } else {
        let before = found_files(dir, entries.drop_last());
        match entries.last().kind {
            Kind::Regular(size) => before.insert(
                FileView { path: entry_path(dir, entries.last().name@), size },
            ),
            _ => before,
        }
    }
}

/// The directories among the entries of `dir`, in the order of the listing.
pub open spec fn found_dirs(dir: Seq<char>, entries: Seq<Listed>) -> Seq<Seq<char>>
    decreases entries.len(),
{
    if entries.len() == 0 {
        Seq::<Seq<char>>::empty()
    } else {
        let before = found_dirs(dir, entries.drop_last());
        match entries.last().kind {
            Kind::Directory => before.push(entry_path(dir, entries.last().name@)),
            _ => before,
        }
    }
}

/// The symbolic links among the entries of `dir` whose target could be read.
pub open spec fn found_symlinks(dir: Seq<char>, entries: Seq<Listed>) -> Set<SymlinkView>
    decreases entries.len(),
{
    if entries.len() == 0 {
        Set::<SymlinkView>::empty()
    } else {
        let before = found_symlinks(dir, entries.drop_last());
        match entries.last().kind {
            Kind::Link(Some(target)) => before.insert(
                SymlinkView { path: entry_path(dir, entries.last().name@), target: target@ },
            ),
            _ => before,
        }
    }
}

/// The directories with these paths, as a set.
pub open spec fn dirs_at(paths: Seq<Seq<char>>) -> Set<DirView> {
    Set::new(|d: DirView| paths.contains(d.path))
}

/// The strings, as sequences of characters.
pub open spec fn paths_view(paths: Seq<String>) -> Seq<Seq<char>> {
    Seq::new(paths.len(), |i: int| paths[i]@)
}

/// The snapshot `sets` with the entries of the directory `dir` added: every
/// regular file with its size, every directory, and every symbolic link whose
/// target could be read. Entries that could not be read add nothing.
pub open spec fn with_listing(sets: FileSetsView, dir: Seq<char>, entries: Seq<Listed>) -> FileSetsView {
    FileSetsView {
        files: sets.files.union(found_files(dir, entries)),
        dirs: sets.dirs.union(dirs_at(found_dirs(dir, entries))),
        symlinks: sets.symlinks.union(found_symlinks(dir, entries)),
    }
}

/// Whether the `i`-th entry of the listing is a regular file that is recorded
/// as `file`.
pub open spec fn lists_file(dir: Seq<char>, entries: Seq<Listed>, i: int, file: FileView) -> bool {
    &&& 0 <= i < entries.len()
    &&& entries[i].kind == Kind::Regular(file.size)
    &&& file.path == entry_path(dir, entries[i].name@)
}

/// Whether the `i`-th entry of the listing is a directory that is recorded
/// at `path`.
pub open spec fn lists_dir(dir: Seq<char>, entries: Seq<Listed>, i: int, path: Seq<char>) -> bool {
    &&& 0 <= i < entries.len()
    &&& entries[i].kind == Kind::Directory
    &&& path == entry_path(dir, entries[i].name@)
}

/// Whether the `i`-th entry of the listing is a symbolic link with a target
/// that was read, recorded as `link`.
pub open spec fn lists_symlink(dir: Seq<char>, entries: Seq<Listed>, i: int, link: SymlinkView) -> bool {
    &&& 0 <= i < entries.len()
    &&& exists|target: String| entries[i].kind == Kind::Link(Some(target)) && target@ == link.target
    &&& link.path == entry_path(dir, entries[i].name@)
}

/// The files found in a listing are those that an entry of it names as a
/// regular file, each under the entry's path and with the entry's size.
pub proof fn lemma_found_files(dir: Seq<char>, entries: Seq<Listed>, file: FileView)
    ensures
        found_files(dir, entries).contains(file) <==> exists|i: int| lists_file(dir, entries, i, file),
    decreases entries.len(),
{
    if entries.len() > 0 {
        let before = entries.drop_last();
        let last = entries.len() - 1;
        lemma_found_files(dir, before, file);
        if found_files(dir, entries).contains(file) {
            if found_files(dir, before).contains(file) {
                let i = choose|i: int| lists_file(dir, before, i, file);
                assert(lists_file(dir, entries, i, file));
            } else {
                assert(lists_file(dir, entries, last, file));
            }
        }
        if exists|i: int| lists_file(dir, entries, i, file) {
            let i = choose|i: int| lists_file(dir, entries, i, file);
            if i < last {
                assert(lists_file(dir, before, i, file));
            }
        }
    }
}

/// The directories found in a listing are those that an entry of it names as
/// a directory, each under the entry's path.
pub proof fn lemma_found_dirs(dir: Seq<char>, entries: Seq<Listed>, path: Seq<char>)
    ensures
        found_dirs(dir, entries).contains(path) <==> exists|i: int| lists_dir(dir, entries, i, path),
    decreases entries.len(),
{
    if entries.len() > 0 {
        let before = entries.drop_last();
        let last = entries.len() - 1;
        let found = found_dirs(dir, before);
        lemma_found_dirs(dir, before, path);
        if found_dirs(dir, entries).contains(path) {
            let k = choose|k: int|
                0 <= k < found_dirs(dir, entries).len() && found_dirs(dir, entries)[k] == path;
            if k < found.len() {
                assert(found[k] == path);
                assert(found.contains(path));
                let i = choose|i: int| lists_dir(dir, before, i, path);
                assert(lists_dir(dir, entries, i, path));
            } else {
                assert(lists_dir(dir, entries, last, path));
            }
        }
        if exists|i: int| lists_dir(dir, entries, i, path) {
            let i = choose|i: int| lists_dir(dir, entries, i, path);
            if i < last {
                assert(lists_dir(dir, before, i, path));
                let k = choose|k: int| 0 <= k < found.len() && found[k] == path;
                assert(found_dirs(dir, entries)[k] == path);
            } else {
                assert(found_dirs(dir, entries) == found.push(path));
                assert(found.push(path)[found.len() as int] == path);
            }
        }
    }
}

/// The symbolic links found in a listing are those that an entry of it names
/// as a link whose target was read, each under the entry's path and with the
/// entry's target.
pub proof fn lemma_found_symlinks(dir: Seq<char>, entries: Seq<Listed>, link: SymlinkView)
    ensures
        found_symlinks(dir, entries).contains(link) <==> exists|i: int|
            lists_symlink(dir, entries, i, link),
    decreases entries.len(),
{
    if entries.len() > 0 {
        let before = entries.drop_last();
        let last = entries.len() - 1;
        lemma_found_symlinks(dir, before, link);
        if found_symlinks(dir, entries).contains(link) {
            if found_symlinks(dir, before).contains(link) {
                let i = choose|i: int| lists_symlink(dir, before, i, link);
                assert(lists_symlink(dir, entries, i, link));
            } else {
                assert(lists_symlink(dir, entries, last, link));
            }
        }
        if exists|i: int| lists_symlink(dir, entries, i, link) {
            let i = choose|i: int| lists_symlink(dir, entries, i, link);
            if i < last {
                assert(lists_symlink(dir, before, i, link));
            }
        }
    }
}

/// Whether the snapshot holds an entry of any kind at the path.
pub open spec fn holds_path(sets: FileSetsView, path: Seq<char>) -> bool {
    ||| exists|size: u64| sets.files.contains(FileView { path, size })
    ||| sets.dirs.contains(DirView { path })
    ||| exists|target: Seq<char>| sets.symlinks.contains(SymlinkView { path, target })
}

/// Whether every path of the snapshot stands for one entry: no two files and
/// no two links share a path, and no path is in two of the three sets.
pub open spec fn paths_unique(sets: FileSetsView) -> bool {
    &&& forall|a: FileView, b: FileView|
        sets.files.contains(a) && sets.files.contains(b) && a.path == b.path ==> a == b
    &&& forall|a: SymlinkView, b: SymlinkView|
        sets.symlinks.contains(a) && sets.symlinks.contains(b) && a.path == b.path ==> a == b
    &&& forall|f: FileView, d: DirView| sets.files.contains(f) && sets.dirs.contains(d) ==> f.path != d.path
    &&& forall|f: FileView, l: SymlinkView|
        sets.files.contains(f) && sets.symlinks.contains(l) ==> f.path != l.path
    &&& forall|d: DirView, l: SymlinkView|
        sets.dirs.contains(d) && sets.symlinks.contains(l) ==> d.path != l.path
}

/// Whether the listing is one of a directory not seen before: its names are
/// plain and differ from each other, and the snapshot holds nothing yet at
/// the path of any of its entries.
pub open spec fn is_new_listing(sets: FileSetsView, dir: Seq<char>, entries: Seq<Listed>) -> bool {
    &&& forall|i: int| 0 <= i < entries.len() ==> is_plain_name(#[trigger] entries[i].name@)
    &&& forall|i: int, j: int|
        0 <= i < j < entries.len() ==> #[trigger] entries[i].name@ != #[trigger] entries[j].name@
    &&& forall|i: int|
        0 <= i < entries.len() ==> !holds_path(sets, entry_path(dir, #[trigger] entries[i].name@))
}

/// Recording a directory not seen before keeps the paths of a snapshot
/// unique.
pub proof fn lemma_new_listing_keeps_paths_unique(sets: FileSetsView, dir: Seq<char>, entries: Seq<Listed>)
    requires
        paths_unique(sets),
        is_new_listing(sets, dir, entries),
    ensures
        paths_unique(with_listing(sets, dir, entries)),
{
    let grown = with_listing(sets, dir, entries);
    assert forall|a: FileView| #[trigger] grown.files.contains(a) && !sets.files.contains(a) implies exists|
        i: int,
    | lists_file(dir, entries, i, a) by {
        lemma_found_files(dir, entries, a);
    }
    assert forall|a: SymlinkView| #[trigger]
        grown.symlinks.contains(a) && !sets.symlinks.contains(a) implies exists|i: int|
        lists_symlink(dir, entries, i, a) by {
        lemma_found_symlinks(dir, entries, a);
    }
    assert forall|a: DirView| #[trigger] grown.dirs.contains(a) && !sets.dirs.contains(a) implies exists|
        i: int,
    | lists_dir(dir, entries, i, a.path) by {
        lemma_found_dirs(dir, entries, a.path);
    }
    assert forall|i: int, j: int|
        0 <= i < entries.len() && 0 <= j < entries.len() && entry_path(dir, entries[i].name@)
            == entry_path(dir, entries[j].name@) implies i == j by {
        lemma_join_tells_names_apart(dir, entries[i].name@, entries[j].name@);
        if i < j {
            assert(entries[i].name@ != entries[j].name@);
        }
        if j < i {
            assert(entries[j].name@ != entries[i].name@);
        }
    }
    assert forall|a: FileView, b: FileView|
        grown.files.contains(a) && grown.files.contains(b) && a.path == b.path implies a == b by {
        if sets.files.contains(a) || sets.files.contains(b) {
            let held = if sets.files.contains(a) { a } else { b };
            assert(sets.files.contains(FileView { path: a.path, size: held.size }));
            lemma_held_path_is_not_listed(sets, dir, entries, a.path);
        } else {
            let i = choose|i: int| lists_file(dir, entries, i, a);
            let j = choose|j: int| lists_file(dir, entries, j, b);
            assert(i == j);
        }
    }
    assert forall|a: SymlinkView, b: SymlinkView|
        grown.symlinks.contains(a) && grown.symlinks.contains(b) && a.path == b.path implies a == b by {
        if sets.symlinks.contains(a) || sets.symlinks.contains(b) {
            let held = if sets.symlinks.contains(a) { a } else { b };
            assert(sets.symlinks.contains(SymlinkView { path: a.path, target: held.target }));
            lemma_held_path_is_not_listed(sets, dir, entries, a.path);
        } else {
            let i = choose|i: int| lists_symlink(dir, entries, i, a);
            let j = choose|j: int| lists_symlink(dir, entries, j, b);
            assert(i == j);
        }
    }
    assert forall|f: FileView, d: DirView| grown.files.contains(f) && grown.dirs.contains(d) implies f.path
        != d.path by {
        if f.path == d.path {
            if sets.files.contains(f) {
                assert(sets.files.contains(FileView { path: f.path, size: f.size }));
                lemma_held_path_is_not_listed(sets, dir, entries, f.path);
            } else if sets.dirs.contains(d) {
                assert(sets.dirs.contains(DirView { path: f.path }));
                lemma_held_path_is_not_listed(sets, dir, entries, f.path);
            } else {
                let i = choose|i: int| lists_file(dir, entries, i, f);
                let j = choose|j: int| lists_dir(dir, entries, j, d.path);
                assert(i == j);
            }
        }
    }
    assert forall|f: FileView, l: SymlinkView|
        grown.files.contains(f) && grown.symlinks.contains(l) implies f.path != l.path by {
        if f.path == l.path {
            if sets.files.contains(f) {
                assert(sets.files.contains(FileView { path: f.path, size: f.size }));
                lemma_held_path_is_not_listed(sets, dir, entries, f.path);
            } else if sets.symlinks.contains(l) {
                assert(sets.symlinks.contains(SymlinkView { path: f.path, target: l.target }));
                lemma_held_path_is_not_listed(sets, dir, entries, f.path);
            } else {
                let i = choose|i: int| lists_file(dir, entries, i, f);
                let j = choose|j: int| lists_symlink(dir, entries, j, l);
                assert(i == j);
            }
        }
    }
    assert forall|d: DirView, l: SymlinkView|
        grown.dirs.contains(d) && grown.symlinks.contains(l) implies d.path != l.path by {
        if d.path == l.path {
            if sets.dirs.contains(d) {
                assert(sets.dirs.contains(DirView { path: d.path }));
                lemma_held_path_is_not_listed(sets, dir, entries, d.path);
            } else if sets.symlinks.contains(l) {
                assert(sets.symlinks.contains(SymlinkView { path: d.path, target: l.target }));
                lemma_held_path_is_not_listed(sets, dir, entries, d.path);
            } else {
                let i = choose|i: int| lists_dir(dir, entries, i, d.path);
                let j = choose|j: int| lists_symlink(dir, entries, j, l);
                assert(i == j);
            }
        }
    }
}

/// A path at which the snapshot held an entry already is the path of no entry
/// of a listing that is new to the snapshot.
proof fn lemma_held_path_is_not_listed(sets: FileSetsView, dir: Seq<char>, entries: Seq<Listed>, path: Seq<char>)
    requires
        is_new_listing(sets, dir, entries),
        holds_path(sets, path),
    ensures
        forall|i: int| 0 <= i < entries.len() ==> entry_path(dir, #[trigger] entries[i].name@) != path,
{
}

/// The one failure that a walk reports: its root could not be read.
#[derive(Debug, Clone, Copy, PartialEq, Eq, Structural)]
pub struct RootError;

/// A walk over a tree: the snapshot gathered so far, and the directories that
/// were found and are still to be read, by their relative paths.
pub struct Walk {
    sets: FileSets,
    pending: Vec<String>,
}

impl Walk {
    /// The snapshot gathered so far.
    pub closed spec fn gathered(&self) -> FileSetsView {
        self.sets@
    }

    /// The directories still to be read; the last one is read next.
    pub closed spec fn pending(&self) -> Seq<Seq<char>> {
        paths_view(self.pending@)
    }

    /// Takes the next directory to read off the walk, or `None` where none is
    /// left. The caller lists that directory under the root and hands the
    /// listing to `record`.
    pub fn next_dir(&mut self) -> (dir: Option<String>)
        ensures
            final(self).gathered() == old(self).gathered(),
            old(self).pending().len() == 0 ==> dir.is_none() && final(self).pending() == old(self).pending(),
            old(self).pending().len() > 0 ==> dir.is_some() && dir.unwrap()@ == old(self).pending().last() && final(self).pending() == old(self).pending().drop_last(),
    {
        let dir = self.pending.pop();
        proof {
            assert(paths_view(self.pending@) =~= paths_view(old(self).pending@).take(
                self.pending@.len() as int,
            ));
        }
        dir
    }

    /// Records what the caller found in the directory `dir`, given by its path
    /// relative to the root. A directory that could not be listed (`None`) is
    /// passed over: the walk stays as it is. Otherwise every entry is added to
    /// the snapshot under its relative path, and every directory among them
    /// is put down to be read.
    pub fn record(&mut self, dir: &str, listing: &Option<Vec<Listed>>)
        ensures
            listing.is_none() ==> final(self).gathered() == old(self).gathered() && final(self).pending() == old(self).pending(),
            listing.is_some() ==> final(self).gathered() == with_listing(
                old(self).gathered(),
                dir@,
                listing.unwrap()@,
            ) && final(self).pending() == old(self).pending() + found_dirs(dir@, listing.unwrap()@),
    {
        match listing {
            None => {},
            Some(entries) => {
                self.record_entries(dir, entries);
            },
        }
    }

    fn record_entries(&mut self, dir: &str, entries: &Vec<Listed>)
        ensures
            final(self).gathered() == with_listing(old(self).gathered(), dir@, entries@),
            final(self).pending() == old(self).pending() + found_dirs(dir@, entries@),
    {
        let ghost start = self.gathered();
        let ghost queue = self.pending();
        let mut i: usize = 0;
        proof {
            assert(entries@.take(0).len() == 0);
            assert(self.gathered().files =~= start.files.union(found_files(dir@, entries@.take(0))));
            assert(self.gathered().symlinks =~= start.symlinks.union(
                found_symlinks(dir@, entries@.take(0)),
            ));
            assert(self.gathered().dirs =~= start.dirs.union(
                dirs_at(found_dirs(dir@, entries@.take(0))),
            ));
            assert(self.pending() =~= queue + found_dirs(dir@, entries@.take(0)));
        }
        while i < entries.len()
            invariant
                0 <= i <= entries.len(),
                self.gathered().files == start.files.union(found_files(dir@, entries@.take(i as int))),
                self.gathered().dirs == start.dirs.union(
                    dirs_at(found_dirs(dir@, entries@.take(i as int))),
                ),
                self.gathered().symlinks == start.symlinks.union(
                    found_symlinks(dir@, entries@.take(i as int)),
                ),
                self.pending() == queue + found_dirs(dir@, entries@.take(i as int)),
            decreases entries.len() - i,
        {
            let entry = &entries[i];
            let path = join(dir, entry.name.as_str());
            let ghost seen = entries@.take(i as int);
            let ghost next = entries@.take(i as int + 1);
            proof {
                assert(next.drop_last() =~= seen);
                assert(next.last() == entries@[i as int]);
            }
            match &entry.kind {
                Kind::Directory => {
                    insert_dir(&mut self.sets.dirs, Dir::from(path.as_str()));
                    let ghost waiting = self.pending@;
                    let ghost added = path@;
                    self.pending.push(path);
                    proof {
                        let found = found_dirs(dir@, seen);
                        assert(found_dirs(dir@, next) == found.push(path@));
                        assert(paths_view(self.pending@) =~= paths_view(waiting).push(added));
                        assert(dirs_at(found.push(path@)) =~= dirs_at(found).insert(
                            DirView { path: path@ },
                        )) by {
                            assert forall|d: DirView|
                                dirs_at(found.push(path@)).contains(d) <==> dirs_at(found).insert(
                                    DirView { path: path@ },
                                ).contains(d) by {
                                if found.push(path@).contains(d.path) {
                                    let k = choose|k: int|
                                        0 <= k < found.push(path@).len() && found.push(path@)[k]
                                            == d.path;
                                    if k < found.len() {
                                        assert(found[k] == d.path);
                                    }
                                }
                                if found.contains(d.path) {
                                    let k = choose|k: int| 0 <= k < found.len() && found[k] == d.path;
                                    assert(found.push(path@)[k] == d.path);
                                }
                                if d.path == path@ {
                                    assert(found.push(path@)[found.len() as int] == d.path);
                                }
                            }
                        }
                        assert(self.gathered().dirs =~= start.dirs.union(
                            dirs_at(found_dirs(dir@, next)),
                        ));
                        assert(self.pending() =~= queue + found_dirs(dir@, next));
                    }
                },
                Kind::Regular(size) => {
                    insert_file(&mut self.sets.files, File::from(path.as_str(), *size));
                    proof {
                        assert(self.gathered().files =~= start.files.union(found_files(dir@, next)));
                    }
                },
                Kind::Link(Some(target)) => {
                    insert_symlink(
                        &mut self.sets.symlinks,
                        Symlink::from(path.as_str(), target.as_str()),
                    );
                    proof {
                        assert(self.gathered().symlinks =~= start.symlinks.union(
                            found_symlinks(dir@, next),
                        ));
                    }
                },
                _ => {},
            }
            i = i + 1;
        }
        proof {
            assert(entries@.take(entries@.len() as int) =~= entries@);
        }
    }

    /// Ends the walk and hands over the snapshot gathered.
    pub fn finish(self) -> (sets: FileSets)
        ensures
            sets@ == self.gathered(),
    {
        self.sets
    }
}

/// Starts the walk of a tree from what listing its root gave. A root that
/// could not be listed (`None`) is the one failure reported. Otherwise the walk
/// holds the root's entries, each under its own name, and the directories
/// among them are put down to be read.
pub fn get_all_files(root: &Option<Vec<Listed>>) -> (walk: Result<Walk, RootError>)
    ensures
        root.is_none() <==> walk.is_err(),
        root.is_some() ==> walk.unwrap().gathered() == with_listing(
            FileSetsView {
                files: Set::<FileView>::empty(),
                dirs: Set::<DirView>::empty(),
                symlinks: Set::<SymlinkView>::empty(),
            },
            Seq::<char>::empty(),
            root.unwrap()@,
        ) && walk.unwrap().pending() == found_dirs(Seq::<char>::empty(), root.unwrap()@),
{
    match root {
        None => Err(RootError),
        Some(entries) => {
            let mut walk = Walk { sets: FileSets::new(), pending: Vec::new() };
            proof {
                reveal_strlit("");
                assert(""@ =~= Seq::<char>::empty());
                assert(walk.pending() =~= Seq::<Seq<char>>::empty());
            }
            walk.record_entries("", entries);
            proof {
                assert(Seq::<Seq<char>>::empty() + found_dirs(Seq::<char>::empty(), entries@)
                    =~= found_dirs(Seq::<char>::empty(), entries@));
            }
            Ok(walk)
        },
    }
}

} // verus!
