use std::cmp::Ordering;
use std::collections::{BTreeMap, BTreeSet};

use hashbrown::HashSet;
use lumins::bulk::{
    compare_and_copy_file, compare_and_copy_files, copy_file, copy_files, delete_file, delete_files,
    delete_files_sequential, locate, Batch,
};
use lumins::entry::{Action, Dir, File, FileOps, Symlink};
use lumins::flags::Flag;
use lumins::hash::{digest, hash_file, hash_file_secure, needs_copy, same_bytes, Digest, SecureHasher};
use lumins::progress::{progress_init, Progress};
use lumins::snapshot::{get_all_files, FileSets, Kind, Listed, RootError};
use lumins::sorter::{deeper_first, reversed, sort_files, sort_shallowest_first};
use lumins::sync::plan_sync;

// A disk held in memory, on which the planned actions are carried out.

#[derive(Clone, Debug, PartialEq, Eq)]
enum Node {
    File(Vec<u8>),
    Dir,
    Link(String),
}

#[derive(Clone, Debug)]
struct Disk {
    nodes: BTreeMap<String, Node>,
    locked: BTreeSet<String>,
    copies: usize,
}

fn trimmed(path: &str) -> String {
    let mut p = path.to_string();
    while p.len() > 1 && p.ends_with('/') {
        p.pop();
    }
    p
}

fn parent_of(path: &str) -> Option<String> {
    path.rfind('/').map(|i| path[..i].to_string())
}

impl Disk {
    fn new() -> Disk {
        Disk { nodes: BTreeMap::new(), locked: BTreeSet::new(), copies: 0 }
    }

    fn create_dir_all(&mut self, path: &str) -> bool {
        let path = trimmed(path);
        let mut upto = String::new();
        for piece in path.split('/') {
            if !upto.is_empty() {
                upto.push('/');
            }
            upto.push_str(piece);
            match self.nodes.get(&upto) {
                Some(Node::Dir) => {
                    if self.locked.contains(&upto) && upto != path {
                        return false;
                    }
                }
                Some(_) => return false,
                None => {
                    self.nodes.insert(upto.clone(), Node::Dir);
                }
            }
        }
        true
    }

    fn parent_open(&self, path: &str) -> bool {
        match parent_of(path) {
            Some(parent) => {
                self.nodes.get(&parent) == Some(&Node::Dir) && !self.locked.contains(&parent)
            }
            None => true,
        }
    }

    fn write(&mut self, path: &str, bytes: &[u8]) {
        if let Some(parent) = parent_of(path) {
            assert!(self.create_dir_all(&parent));
        }
        self.nodes.insert(path.to_string(), Node::File(bytes.to_vec()));
    }

    fn symlink(&mut self, target: &str, at: &str) -> bool {
        if self.nodes.contains_key(at) || !self.parent_open(at) {
            return false;
        }
        self.nodes.insert(at.to_string(), Node::Link(target.to_string()));
        true
    }

    fn lock(&mut self, path: &str) {
        self.locked.insert(path.to_string());
    }

    fn read(&self, path: &str) -> Option<Vec<u8>> {
        if self.locked.contains(path) || !self.parent_open(path) {
            return None;
        }
        match self.nodes.get(path) {
            Some(Node::File(bytes)) => Some(bytes.clone()),
            _ => None,
        }
    }

    fn children(&self, dir: &str) -> Vec<(String, Node)> {
        let prefix = format!("{}/", dir);
        self.nodes
            .iter()
            .filter(|(path, _)| path.starts_with(&prefix) && !path[prefix.len()..].contains('/'))
            .map(|(path, node)| (path[prefix.len()..].to_string(), node.clone()))
            .collect()
    }

    fn list(&self, dir: &str) -> Option<Vec<Listed>> {
        let dir = trimmed(dir);
        if self.nodes.get(&dir) != Some(&Node::Dir) || self.locked.contains(&dir) {
            return None;
        }
        Some(
            self.children(&dir)
                .into_iter()
                .map(|(name, node)| Listed {
                    name,
                    kind: match node {
                        Node::Dir => Kind::Directory,
                        Node::File(bytes) => Kind::Regular(bytes.len() as u64),
                        Node::Link(target) => Kind::Link(Some(target)),
                    },
                })
                .collect(),
        )
    }

    fn apply(&mut self, action: &Action) -> bool {
        match action {
            Action::RemoveFile(path) => match self.nodes.get(path) {
                Some(Node::File(_)) | Some(Node::Link(_)) if self.parent_open(path) => {
                    self.nodes.remove(path);
                    true
                }
                _ => false,
            },
            Action::RemoveDir(path) => {
                if self.nodes.get(path) == Some(&Node::Dir)
                    && self.children(path).is_empty()
                    && !self.locked.contains(path)
                {
                    self.nodes.remove(path);
                    true
                } else {
                    false
                }
            }
            Action::CopyFile { from, to } => {
                let bytes = match self.read(from) {
                    Some(bytes) => bytes,
                    None => return false,
                };
                if !self.parent_open(to) || self.locked.contains(to) {
                    return false;
                }
                match self.nodes.get(to) {
                    Some(Node::Dir) => false,
                    _ => {
                        self.nodes.insert(to.clone(), Node::File(bytes));
                        self.copies += 1;
                        true
                    }
                }
            }
            Action::CreateDir(path) => self.create_dir_all(path),
            Action::Link { target, at } => self.symlink(target, at),
        }
    }

    fn run(&mut self, batch: &Batch) -> usize {
        let mut done = 0;
        for action in batch.actions.iter() {
            if self.apply(action) {
                done += 1;
            }
        }
        done
    }

    fn run_backwards(&mut self, batch: &Batch) -> usize {
        assert!(!batch.ordered);
        let mut done = 0;
        for action in batch.actions.iter().rev() {
            if self.apply(action) {
                done += 1;
            }
        }
        done
    }
}

fn snapshot(disk: &Disk, root: &str) -> Result<FileSets, RootError> {
    let mut walk = get_all_files(&disk.list(root))?;
    let mut dirs = Vec::new();
    while let Some(dir) = walk.next_dir() {
        let place = lumins::path::join(root, &dir);
        walk.record(&dir, &disk.list(&place));
        dirs.push(dir);
    }
    Ok(walk.finish())
}

fn files_of(names: &[(&str, u64)]) -> HashSet<File> {
    names.iter().map(|(path, size)| File::from(path, *size)).collect()
}

fn dirs_of(names: &[&str]) -> HashSet<Dir> {
    names.iter().map(|path| Dir::from(path)).collect()
}

fn links_of(names: &[(&str, &str)]) -> HashSet<Symlink> {
    names.iter().map(|(path, target)| Symlink::from(path, target)).collect()
}

fn listed<T>(set: &HashSet<T>) -> Vec<&T> {
    set.iter().collect()
}

fn copy_tree(disk: &mut Disk, from: &str, to: &str, progress: &mut Progress) {
    let source = snapshot(disk, from).unwrap();
    let dirs = copy_files(&listed(source.dirs()), from, to, progress);
    disk.run(&dirs);
    let files = copy_files(&listed(source.files()), from, to, progress);
    disk.run(&files);
    let links = copy_files(&listed(source.symlinks()), from, to, progress);
    disk.run(&links);
}

fn compare_tree(disk: &mut Disk, files: &Vec<&File>, from: &str, to: &str, flags: Flag, progress: &mut Progress) -> usize {
    let digests: Vec<(Option<Digest>, Option<Digest>)> = files
        .iter()
        .map(|file| {
            (
                digest(flags, &disk.read(&locate(*file, from))),
                digest(flags, &disk.read(&locate(*file, to))),
            )
        })
        .collect();
    let steps = compare_and_copy_files(files, from, to, flags, &digests, progress);
    let mut copied = 0;
    for action in steps.iter().flatten() {
        if disk.apply(action) {
            copied += 1;
        }
    }
    copied
}

fn source_tree() -> Disk {
    let mut disk = Disk::new();
    disk.write("src/main.rs", b"fn main() {}\n");
    disk.write("src/lib.rs", b"pub mod lumins;\n");
    disk.write("src/cli.yml", b"name: lumins\n");
    disk.write("src/lumins/file_ops.rs", b"pub trait FileOps {}\n");
    disk.write("src/lumins/parse.rs", b"pub fn parse_args() {}\n");
    disk
}

// The entry model.

#[test]
fn create_dir() {
    let dir = Dir::from(".");
    assert_eq!(dir.path(), ".");
    assert_eq!(dir.as_path_buf(), String::from("."));
    assert_eq!(dir, Dir::from("."));
    assert_ne!(dir, Dir::from(".."));
}

#[test]
fn create_file() {
    let file = File::from(".", 10);
    assert_eq!(file.path(), ".");
    assert_eq!(file.size(), 10);
    assert_eq!(file, File::from(".", 10));
    assert_ne!(file, File::from(".", 11));
}

#[test]
fn create_symlink() {
    let link = Symlink::from(".", "file");
    assert_eq!(link.path(), ".");
    assert_eq!(link.target(), "file");
    assert_eq!(link, Symlink::from(".", "file"));
    assert_ne!(link, Symlink::from(".", "other"));
}

#[test]
fn entry_actions() {
    let file = File::from("a", 1);
    let dir = Dir::from("d");
    let link = Symlink::from("l", "t");
    assert_eq!(file.remove("x/a"), Action::RemoveFile("x/a".to_string()));
    assert_eq!(
        file.copy("s/a", "d/a"),
        Action::CopyFile { from: "s/a".to_string(), to: "d/a".to_string() }
    );
    assert_eq!(dir.remove("x/d"), Action::RemoveDir("x/d".to_string()));
    assert_eq!(dir.copy("s/d", "d/d"), Action::CreateDir("d/d".to_string()));
    assert_eq!(link.remove("x/l"), Action::RemoveFile("x/l".to_string()));
    assert_eq!(
        link.copy("s/l", "d/l"),
        Action::Link { target: "t".to_string(), at: "d/l".to_string() }
    );
    assert_eq!(copy_file(&file, "s", "d"), file.copy("s/a", "d/a"));
    assert_eq!(delete_file(&dir, "x"), Action::RemoveDir("x/d".to_string()));
    assert_eq!(locate(&link, "base/"), "base/l");
}

// The snapshot builder.

#[test]
fn invalid_dir() {
    let disk = Disk::new();
    assert_eq!(snapshot(&disk, "/?").is_err(), true);
    assert!(get_all_files(&None).is_err());
}

#[test]
fn dir_insufficient_permissions() {
    let mut disk = Disk::new();
    disk.create_dir_all("/root");
    disk.lock("/root");
    assert_eq!(snapshot(&disk, "/root").is_err(), true);
}

#[test]
fn empty_dir() {
    const TEST_DIR: &str = "test_get_all_files_empty_dir";
    let mut disk = Disk::new();
    disk.create_dir_all(TEST_DIR);

    let file_sets = snapshot(&disk, TEST_DIR).unwrap();

    assert_eq!(file_sets.files(), &HashSet::new());
    assert_eq!(file_sets.dirs(), &HashSet::new());
    assert_eq!(file_sets.symlinks(), &HashSet::new());
    assert_eq!(file_sets, FileSets::new());
}

#[test]
fn single_dir() {
    const TEST_DIR: &str = "test_get_all_files_single_dir";
    const TEST_SUB_DIR: &str = "test";
    let mut disk = Disk::new();
    disk.create_dir_all(&[TEST_DIR, TEST_SUB_DIR].join("/"));

    let file_sets = snapshot(&disk, TEST_DIR).unwrap();
    let mut dir_set = HashSet::new();
    dir_set.insert(Dir::from(TEST_SUB_DIR));

    assert_eq!(file_sets.files(), &HashSet::new());
    assert_eq!(file_sets.dirs(), &dir_set);
}

#[test]
fn single_file() {
    const TEST_DIR: &str = "test_get_all_files_single_file";
    const TEST_FILE: &str = "file.txt";
    let mut disk = Disk::new();
    disk.write(&[TEST_DIR, TEST_FILE].join("/"), b"1234");

    let file_sets = snapshot(&disk, TEST_DIR).unwrap();
    let mut file_set = HashSet::new();
    file_set.insert(File::from(TEST_FILE, 4));

    assert_eq!(file_sets.files(), &file_set);
    assert_eq!(file_sets.dirs(), &HashSet::new());
}

#[test]
fn single_symlink() {
    const TEST_DIR: &str = "test_get_all_files_single_symlink";
    const TEST_LINK: &str = "test_get_all_files_single_symlink/file";
    const TEST_FILE: &str = "test_get_all_files_single_symlink/test.txt";
    let mut disk = Disk::new();
    disk.create_dir_all(TEST_DIR);
    assert!(disk.symlink(TEST_FILE, TEST_LINK));

    let mut symlink_set = HashSet::new();
    symlink_set.insert(Symlink::from("file", TEST_FILE));

    let file_sets = snapshot(&disk, TEST_DIR).unwrap();

    assert_eq!(file_sets, FileSets::with(HashSet::new(), HashSet::new(), symlink_set));
}

#[test]
fn multi_level() {
    const TEST_DIR: &str = "test_get_all_files_multi_level";
    const SUB_DIRS: [&str; 2] = ["dir1", "dir1/dir2"];
    const TEST_FILES: [&str; 3] = ["file.txt", "dir1/file.txt", "dir1/dir2/file2.txt"];
    const TEST_DATA: [&[u8]; 3] = [b"1", b"", b"1234567890"];
    let mut disk = Disk::new();
    disk.create_dir_all(&[TEST_DIR, SUB_DIRS[1]].join("/"));
    for i in 0..TEST_FILES.len() {
        disk.write(&[TEST_DIR, TEST_FILES[i]].join("/"), TEST_DATA[i]);
    }

    let file_sets = snapshot(&disk, TEST_DIR).unwrap();
    let mut file_set = HashSet::new();
    let mut dir_set = HashSet::new();
    for i in 0..TEST_FILES.len() {
        file_set.insert(File::from(TEST_FILES[i], TEST_DATA[i].len() as u64));
    }
    for i in 0..SUB_DIRS.len() {
        dir_set.insert(Dir::from(SUB_DIRS[i]));
    }

    assert_eq!(file_sets.files(), &file_set);
    assert_eq!(file_sets.dirs(), &dir_set);
}

#[test]
fn multi_level_insufficient_permissions() {
    const TEST_DIR: &str = "test_get_all_files_multi_level_insufficient_permissions";
    const SUB_DIR: &str = "dir";
    const TEST_FILE: &str = "file.txt";
    let file_path = [TEST_DIR, TEST_FILE].join("/");
    let dir_path = [TEST_DIR, SUB_DIR].join("/");
    let mut disk = Disk::new();
    disk.create_dir_all(&dir_path);
    disk.write(&file_path, b"");
    disk.write(&[dir_path.as_str(), "hidden.txt"].join("/"), b"unseen");
    disk.lock(&file_path);
    disk.lock(&dir_path);

    let file_sets = snapshot(&disk, TEST_DIR).unwrap();

    let mut file_set = HashSet::new();
    file_set.insert(File::from(TEST_FILE, 0));
    let mut dir_set = HashSet::new();
    dir_set.insert(Dir::from(SUB_DIR));

    assert_eq!(file_sets.files(), &file_set);
    assert_eq!(file_sets.dirs(), &dir_set);
}

#[test]
fn snapshot_of_three_levels() {
    let mut disk = Disk::new();
    disk.write("source/a.txt", b"1");
    disk.write("source/dir1/b.txt", b"");
    disk.write("source/dir1/dir2/c.txt", b"1234567890");

    let sets = snapshot(&disk, "source").unwrap();

    assert_eq!(sets.files(), &files_of(&[("a.txt", 1), ("dir1/b.txt", 0), ("dir1/dir2/c.txt", 10)]));
    assert_eq!(sets.dirs(), &dirs_of(&["dir1", "dir1/dir2"]));
    assert_eq!(sets.symlinks(), &HashSet::new());
}

#[test]
fn walk_records_each_kind_and_skips_the_unreadable() {
    let listing = vec![
        Listed { name: "gone".to_string(), kind: Kind::Unreadable },
        Listed { name: "sub".to_string(), kind: Kind::Directory },
        Listed { name: "f".to_string(), kind: Kind::Regular(7) },
        Listed { name: "broken".to_string(), kind: Kind::Link(None) },
        Listed { name: "l".to_string(), kind: Kind::Link(Some("f".to_string())) },
    ];
    let mut walk = get_all_files(&Some(listing)).unwrap();
    let next = walk.next_dir();
    assert_eq!(next, Some("sub".to_string()));
    walk.record("sub", &Some(vec![Listed { name: "g".to_string(), kind: Kind::Regular(0) }]));
    assert_eq!(walk.next_dir(), None);
    let sets = walk.finish();
    assert_eq!(sets.files(), &files_of(&[("f", 7), ("sub/g", 0)]));
    assert_eq!(sets.dirs(), &dirs_of(&["sub"]));
    assert_eq!(sets.symlinks(), &links_of(&[("l", "f")]));
}

#[test]
fn walk_passes_over_a_directory_that_cannot_be_listed() {
    let listing = vec![Listed { name: "sub".to_string(), kind: Kind::Directory }];
    let mut walk = get_all_files(&Some(listing)).unwrap();
    assert_eq!(walk.next_dir(), Some("sub".to_string()));
    walk.record("sub", &None);
    assert_eq!(walk.next_dir(), None);
    let sets = walk.finish();
    assert_eq!(sets.files(), &HashSet::new());
    assert_eq!(sets.dirs(), &dirs_of(&["sub"]));
}

// The deletion-order sorter.

#[test]
fn no_dir() {
    let no_dir: HashSet<Dir> = HashSet::new();
    assert_eq!(sort_files(listed(&no_dir)), Vec::<&Dir>::new());
}

#[test]
fn file_ops_single_dir() {
    let mut single_dir: HashSet<Dir> = HashSet::new();
    let dir = Dir::from("/");
    single_dir.insert(dir.clone());
    let expected: Vec<&Dir> = vec![&dir];

    assert_eq!(sort_files(listed(&single_dir)), expected);
}

#[test]
fn multi_dir_unique() {
    let mut multi_dir: HashSet<Dir> = HashSet::new();
    let dir1 = Dir::from("/");
    let dir2 = Dir::from("/a");
    let dir3 = Dir::from("/a/b");
    multi_dir.insert(dir1.clone());
    multi_dir.insert(dir2.clone());
    multi_dir.insert(dir3.clone());
    let expected: Vec<&Dir> = vec![&dir3, &dir2, &dir1];

    assert_eq!(sort_files(listed(&multi_dir)), expected);
}

#[test]
fn multi_dir() {
    let mut multi_dir: HashSet<Dir> = HashSet::new();
    let dir1 = Dir::from("/");
    let dir2 = Dir::from("/a/c");
    let dir3 = Dir::from("/a/b");
    multi_dir.insert(dir1.clone());
    multi_dir.insert(dir2.clone());
    multi_dir.insert(dir3.clone());
    let expected: Vec<&Dir> = vec![&dir2, &dir3, &dir1];

    assert_eq!(sort_files(listed(&multi_dir)).get(2).unwrap(), &expected[2]);
}

#[test]
fn sort_examples() {
    let a = Dir::from("a");
    let ab = Dir::from("a/b");
    let abc = Dir::from("a/b/c");
    assert_eq!(sort_files(vec![&a, &ab, &abc]), vec![&abc, &ab, &a]);
    assert_eq!(sort_files(vec![&ab, &abc, &a]), vec![&abc, &ab, &a]);

    let usr = Dir::from("/usr");
    let root = Dir::from("/");
    let bin = Dir::from("/usr/bin");
    let etc = Dir::from("/etc");
    let sorted = sort_files(vec![&usr, &root, &bin, &etc]);
    assert_eq!(sorted.len(), 4);
    assert_eq!(sorted[0], &bin);
    assert_eq!(sorted[3], &root);
    assert!(sorted[1..3].contains(&&usr) && sorted[1..3].contains(&&etc));
}

#[test]
fn sort_puts_what_lies_inside_first() {
    let paths = ["x", "x/y/z/w", "q/r", "x/y", "q", "x/y/z", "q/r/s", "lone"];
    let dirs: Vec<Dir> = paths.iter().map(|p| Dir::from(p)).collect();
    let sorted = sort_files(dirs.iter().collect());
    assert_eq!(sorted.len(), dirs.len());
    for dir in dirs.iter() {
        assert_eq!(sorted.iter().filter(|d| **d == dir).count(), 1);
    }
    for (i, above) in sorted.iter().enumerate() {
        for (j, below) in sorted.iter().enumerate() {
            let inside = std::path::Path::new(below.path()).starts_with(above.path())
                && below.path() != above.path();
            if inside {
                assert!(j < i);
            }
        }
    }
}

#[test]
fn deeper_entries_order_first() {
    let shallow = File::from("a", 0);
    let deep = File::from("a/b", 0);
    let other = File::from("c/d", 3);
    assert_eq!(deeper_first(&deep, &shallow), Ordering::Less);
    assert_eq!(deeper_first(&shallow, &deep), Ordering::Greater);
    assert_eq!(deeper_first(&deep, &other), Ordering::Equal);
}

// The content comparator.

#[test]
fn invalid_file() {
    let disk = Disk::new();
    let file = File::from("test", 0);
    assert_eq!(hash_file(&disk.read(&locate(&file, "."))), None);
    assert_eq!(hash_file_secure(&disk.read(&locate(&file, "."))), None);
    assert_eq!(digest(Flag::empty(), &None), None);
    assert_eq!(digest(Flag::secure(), &None), None);
}

#[test]
fn empty_file() {
    const TEST_FILE1: &str = "test_hash_file_empty_file1.txt";
    const TEST_FILE2: &str = "test_hash_file_empty_file2.txt";
    let mut disk = Disk::new();
    disk.create_dir_all(".");
    disk.write(&["." , TEST_FILE1].join("/"), b"");
    disk.write(&[".", TEST_FILE2].join("/"), b"");
    let one = disk.read(&locate(&File::from(TEST_FILE1, 0), "."));
    let two = disk.read(&locate(&File::from(TEST_FILE2, 0), "."));
    assert!(one.is_some() && two.is_some());

    assert_eq!(hash_file(&one), hash_file(&two));
    assert_eq!(hash_file_secure(&one), hash_file_secure(&two));
    assert_eq!(hash_file(&one), Some(seahash::hash(b"")));
}

#[test]
fn equal_files() {
    const TEST_DIR: &str = "test_hash_file_equal_files";
    const TEST_FILE1: &str = "file1.txt";
    const TEST_FILE2: &str = "file2.txt";
    let mut disk = Disk::new();
    disk.write(&[TEST_DIR, TEST_FILE1].join("/"), b"1234567890");
    disk.write(&[TEST_DIR, TEST_FILE2].join("/"), b"1234567890");
    let one = disk.read(&locate(&File::from(TEST_FILE1, 10), TEST_DIR));
    let two = disk.read(&locate(&File::from(TEST_FILE2, 10), TEST_DIR));
    assert!(one.is_some() && two.is_some());

    assert_eq!(hash_file(&one), hash_file(&two));
    assert_eq!(hash_file_secure(&one), hash_file_secure(&two));
}

#[test]
fn different_files() {
    let disk = source_tree();
    let one = disk.read(&locate(&File::from("lumins/file_ops.rs", 0), "src"));
    let two = disk.read(&locate(&File::from("main.rs", 0), "src"));
    assert!(one.is_some() && two.is_some());
    assert_ne!(hash_file(&one), hash_file(&two));
    assert_ne!(hash_file_secure(&one), hash_file_secure(&two));
}

#[test]
fn digests_have_their_known_values() {
    let abc = Some(b"abc".to_vec());
    assert_eq!(hash_file(&Some(b"to be or not to be".to_vec())), Some(1988685042348123509));
    let secure = hash_file_secure(&abc).unwrap();
    assert_eq!(secure.len(), 64);
    assert_eq!(
        &secure[..8],
        &[0xba, 0x80, 0xa5, 0x3f, 0x98, 0x1c, 0x4d, 0x0d]
    );
    assert_ne!(secure, b"abc".to_vec());
    assert_ne!(hash_file(&abc), Some(0));
    assert_eq!(digest(Flag::secure(), &abc), Some(Digest::Secure(secure.clone())));
    assert_eq!(digest(Flag::verbose(), &abc), hash_file(&abc).map(Digest::Fast));
}

#[test]
fn secure_hasher_takes_content_in_pieces() {
    let whole = hash_file_secure(&Some(b"hello, world".to_vec())).unwrap();
    let mut hasher = SecureHasher::new();
    hasher.absorb(b"hello");
    hasher.absorb(b"");
    hasher.absorb(b", world");
    assert_eq!(hasher.finish(), whole);
    let empty = SecureHasher::new().finish();
    assert_eq!(Some(empty), hash_file_secure(&Some(Vec::new())));
    let mut other = SecureHasher::new();
    other.absorb(b"hello");
    assert_ne!(other.finish(), whole);
}

#[test]
fn needs_copy_unless_digests_serve_and_agree() {
    let fast = Some(Digest::Fast(1));
    let other = Some(Digest::Fast(2));
    let secure = Some(Digest::Secure(vec![1, 2, 3]));
    let secure_other = Some(Digest::Secure(vec![1, 2, 4]));
    assert!(!needs_copy(Flag::empty(), &fast, &fast));
    assert!(needs_copy(Flag::empty(), &fast, &other));
    assert!(needs_copy(Flag::empty(), &None, &fast));
    assert!(needs_copy(Flag::empty(), &fast, &None));
    assert!(needs_copy(Flag::empty(), &None, &None));
    assert!(needs_copy(Flag::empty(), &secure, &secure));
    assert!(!needs_copy(Flag::secure(), &secure, &secure));
    assert!(needs_copy(Flag::secure(), &secure, &secure_other));
    assert!(needs_copy(Flag::secure(), &fast, &fast));
    assert!(needs_copy(Flag::secure(), &secure, &fast));
    assert!(same_bytes(&vec![1, 2], &vec![1, 2]));
    assert!(!same_bytes(&vec![1, 2], &vec![1, 3]));
    assert!(!same_bytes(&vec![1, 2], &vec![1]));
}

// The bulk operations.

#[test]
fn delete_no_files() {
    const TEST_DIR: &str = "test_delete_files_delete_no_files";
    const TEST_FILES: [&str; 2] = ["file1.txt", "file2.txt"];
    let mut disk = Disk::new();
    disk.create_dir_all(TEST_DIR);
    let mut progress = Progress::new();

    let files_to_delete: HashSet<File> = HashSet::new();
    let files_to_delete_sequential: Vec<&File> = Vec::new();
    let mut file_set = HashSet::new();
    for i in 0..TEST_FILES.len() {
        disk.write(&[TEST_DIR, TEST_FILES[i]].join("/"), b"");
        file_set.insert(File::from(TEST_FILES[i], 0));
    }

    let batch = delete_files(&listed(&files_to_delete), TEST_DIR, &mut progress);
    assert_eq!(disk.run(&batch), 0);
    let batch = delete_files_sequential(&files_to_delete_sequential, TEST_DIR, &mut progress);
    assert_eq!(disk.run(&batch), 0);

    assert_eq!(
        snapshot(&disk, TEST_DIR).unwrap(),
        FileSets::with(file_set, HashSet::new(), HashSet::new())
    );
    assert_eq!(progress.position(), 0);
}

#[test]
fn delete_invalid_file_and_link() {
    const TEST_DIR: &str = "test_delete_files_delete_invalid_file_and_link";
    const TEST_DIR_SEQ: &str = "test_delete_files_delete_invalid_file_and_link_seq";
    const TEST_FILES: [&str; 2] = ["file1.txt", "file2.txt"];
    let mut disk = Disk::new();
    disk.create_dir_all(TEST_DIR);
    disk.create_dir_all(TEST_DIR_SEQ);
    let mut progress = Progress::new();

    let mut files_to_delete: HashSet<File> = HashSet::new();
    let mut files_to_delete_sequential: Vec<&File> = Vec::new();
    let mut file_set = HashSet::new();

    disk.write(&[TEST_DIR, TEST_FILES[0]].join("/"), b"");
    disk.write(&[TEST_DIR_SEQ, TEST_FILES[0]].join("/"), b"");
    let file = File::from(&[TEST_FILES[0], "a"].join("/"), 0);
    let expected_file = File::from(TEST_FILES[0], 0);
    file_set.insert(expected_file);
    files_to_delete.insert(file.clone());
    files_to_delete_sequential.push(&file);

    let mut links_to_delete: HashSet<Symlink> = HashSet::new();
    let mut links_to_delete_sequential: Vec<&Symlink> = Vec::new();
    let mut link_set = HashSet::new();

    assert!(disk.symlink(TEST_FILES[1], &[TEST_DIR, "file"].join("/")));
    assert!(disk.symlink(TEST_FILES[1], &[TEST_DIR_SEQ, "file"].join("/")));
    let link = Symlink::from("filea", TEST_FILES[1]);
    let expected_link = Symlink::from("file", TEST_FILES[1]);
    link_set.insert(expected_link);
    links_to_delete.insert(link.clone());
    links_to_delete_sequential.push(&link);

    let batch = delete_files(&listed(&files_to_delete), TEST_DIR, &mut progress);
    assert_eq!(disk.run(&batch), 0);
    let batch = delete_files_sequential(&files_to_delete_sequential, TEST_DIR_SEQ, &mut progress);
    assert_eq!(disk.run(&batch), 0);
    let batch = delete_files(&listed(&links_to_delete), TEST_DIR, &mut progress);
    assert_eq!(disk.run(&batch), 0);
    let batch = delete_files_sequential(&links_to_delete_sequential, TEST_DIR_SEQ, &mut progress);
    assert_eq!(disk.run(&batch), 0);

    assert_eq!(
        snapshot(&disk, TEST_DIR).unwrap(),
        FileSets::with(file_set.clone(), HashSet::new(), link_set.clone())
    );
    assert_eq!(
        snapshot(&disk, TEST_DIR_SEQ).unwrap(),
        FileSets::with(file_set, HashSet::new(), link_set)
    );
    assert_eq!(progress.position(), 4);
}

#[test]
fn delete_file_and_link() {
    const TEST_DIR: &str = "test_delete_files_delete_file_and_link";
    const TEST_DIR_SEQ: &str = "test_delete_files_delete_file_and_link_seq";
    const TEST_FILES: [&str; 2] = ["file1.txt", "file2.txt"];
    let mut disk = Disk::new();
    disk.create_dir_all(TEST_DIR);
    disk.create_dir_all(TEST_DIR_SEQ);
    let mut progress = Progress::new();

    let mut files_to_delete: HashSet<File> = HashSet::new();
    let mut files_to_delete_sequential: Vec<&File> = Vec::new();

    disk.write(&[TEST_DIR, TEST_FILES[0]].join("/"), b"");
    disk.write(&[TEST_DIR_SEQ, TEST_FILES[0]].join("/"), b"");
    let file = File::from(TEST_FILES[0], 0);
    files_to_delete.insert(file.clone());
    files_to_delete_sequential.push(&file);

    let mut links_to_delete: HashSet<Symlink> = HashSet::new();
    let mut links_to_delete_sequential: Vec<&Symlink> = Vec::new();

    assert!(disk.symlink(TEST_FILES[1], &[TEST_DIR, "file"].join("/")));
    assert!(disk.symlink(TEST_FILES[1], &[TEST_DIR_SEQ, "file"].join("/")));
    let link = Symlink::from("file", TEST_FILES[1]);
    links_to_delete.insert(link.clone());
    links_to_delete_sequential.push(&link);

    let batch = delete_files(&listed(&files_to_delete), TEST_DIR, &mut progress);
    assert_eq!(disk.run(&batch), 1);
    let batch = delete_files_sequential(&files_to_delete_sequential, TEST_DIR_SEQ, &mut progress);
    assert_eq!(disk.run(&batch), 1);
    let batch = delete_files(&listed(&links_to_delete), TEST_DIR, &mut progress);
    assert_eq!(disk.run(&batch), 1);
    let batch = delete_files_sequential(&links_to_delete_sequential, TEST_DIR_SEQ, &mut progress);
    assert_eq!(disk.run(&batch), 1);

    assert_eq!(snapshot(&disk, TEST_DIR).unwrap(), FileSets::new());
    assert_eq!(snapshot(&disk, TEST_DIR_SEQ).unwrap(), FileSets::new());
}

#[test]
fn delete_partial_dirs() {
    const TEST_DIR: &str = "test_delete_files_delete_partial_dirs";
    const TEST_DIR_SEQ: &str = "test_delete_files_delete_partial_dirs_seq";
    const TEST_SUB_DIRS: [&str; 3] = ["dir0", "dir1", "dir2"];
    let mut disk = Disk::new();
    disk.create_dir_all(&[TEST_DIR, TEST_SUB_DIRS[0], TEST_SUB_DIRS[1]].join("/"));
    disk.create_dir_all(&[TEST_DIR_SEQ, TEST_SUB_DIRS[0], TEST_SUB_DIRS[1]].join("/"));
    disk.create_dir_all(&[TEST_DIR, TEST_SUB_DIRS[2]].join("/"));
    disk.create_dir_all(&[TEST_DIR_SEQ, TEST_SUB_DIRS[2]].join("/"));
    let mut progress = Progress::new();

    let mut dirs_to_delete: HashSet<Dir> = HashSet::new();
    let mut dirs_to_delete_sequential: Vec<&Dir> = Vec::new();
    let mut file_set: HashSet<Dir> = HashSet::new();

    let dir0 = Dir::from(TEST_SUB_DIRS[0]);
    let dir2 = Dir::from(TEST_SUB_DIRS[2]);

    dirs_to_delete.insert(dir0.clone());
    dirs_to_delete.insert(dir2.clone());
    dirs_to_delete_sequential.push(&dir0);
    dirs_to_delete_sequential.push(&dir2);

    let batch = delete_files(&listed(&dirs_to_delete), TEST_DIR, &mut progress);
    assert_eq!(disk.run(&batch), 1);
    let batch = delete_files_sequential(&dirs_to_delete_sequential, TEST_DIR_SEQ, &mut progress);
    assert!(batch.ordered);
    assert_eq!(disk.run(&batch), 1);

    file_set.insert(Dir::from(TEST_SUB_DIRS[0]));
    file_set.insert(Dir::from(&[TEST_SUB_DIRS[0], TEST_SUB_DIRS[1]].join("/")));

    assert_eq!(
        snapshot(&disk, TEST_DIR).unwrap(),
        FileSets::with(HashSet::new(), file_set.clone(), HashSet::new())
    );
    assert_eq!(
        snapshot(&disk, TEST_DIR_SEQ).unwrap(),
        FileSets::with(HashSet::new(), file_set, HashSet::new())
    );
}

#[test]
fn sorted_sequential_delete_removes_a_whole_subtree() {
    let mut disk = Disk::new();
    disk.create_dir_all("tree/dir0/dir1");
    disk.create_dir_all("tree/dir2");
    let mut unordered = disk.clone();
    let mut progress = Progress::new();
    progress_init(&mut progress, 3);

    let dir0 = Dir::from("dir0");
    let dir01 = Dir::from("dir0/dir1");
    let dir2 = Dir::from("dir2");
    let given: Vec<&Dir> = vec![&dir0, &dir01, &dir2];

    let sorted = sort_files(given.clone());
    assert_eq!(sorted[0], &dir01);
    let batch = delete_files_sequential(&sorted, "tree", &mut progress);
    assert!(batch.ordered);
    assert_eq!(batch.actions[0], Action::RemoveDir("tree/dir0/dir1".to_string()));
    assert_eq!(disk.run(&batch), 3);
    assert_eq!(snapshot(&disk, "tree").unwrap(), FileSets::new());
    assert_eq!(progress.position(), 3);
    assert!(progress.is_finished());

    let mut progress = Progress::new();
    let batch = delete_files(&given, "tree", &mut progress);
    assert!(!batch.ordered);
    assert_eq!(unordered.run(&batch), 2);
    assert_eq!(
        snapshot(&unordered, "tree").unwrap(),
        FileSets::with(HashSet::new(), dirs_of(&["dir0"]), HashSet::new())
    );
    assert_eq!(progress.position(), 3);
}

#[test]
fn no_files() {
    const TEST_DIR: &str = "test_copy_files_no_files";
    const TEST_DIR_OUT: &str = "test_copy_files_no_files_out";
    let mut disk = Disk::new();
    disk.create_dir_all(TEST_DIR);
    disk.create_dir_all(TEST_DIR_OUT);
    let mut progress = Progress::new();

    let batch = copy_files(&listed(&HashSet::<File>::new()), TEST_DIR, TEST_DIR_OUT, &mut progress);
    assert_eq!(batch.actions.len(), 0);
    disk.run(&batch);

    assert_eq!(snapshot(&disk, TEST_DIR_OUT).unwrap(), FileSets::new());
}

#[test]
fn regular_files_dirs() {
    const TEST_DIR: &str = "src";
    const TEST_DIR_OUT: &str = "test_copy_files_regular_files_dirs_out";
    let mut disk = source_tree();
    disk.create_dir_all(TEST_DIR_OUT);
    let mut progress = Progress::new();

    let source = snapshot(&disk, TEST_DIR).unwrap();
    let batch = copy_files(&listed(source.dirs()), TEST_DIR, TEST_DIR_OUT, &mut progress);
    disk.run_backwards(&batch);
    let batch = copy_files(&listed(source.files()), TEST_DIR, TEST_DIR_OUT, &mut progress);
    disk.run_backwards(&batch);

    assert_eq!(snapshot(&disk, TEST_DIR_OUT).unwrap(), snapshot(&disk, TEST_DIR).unwrap());
    assert_eq!(progress.position(), 6);
}

#[test]
fn insufficient_output_permissions() {
    const TEST_DIR: &str = "src";
    const TEST_DIR_OUT: &str = "test_copy_files_insufficient_output_permissions_out";
    const SUB_DIR: &str = "lumins";
    let mut disk = source_tree();
    disk.create_dir_all(&[TEST_DIR_OUT, SUB_DIR].join("/"));
    for name in ["main.rs", "cli.yml", "lib.rs"] {
        disk.write(&[TEST_DIR_OUT, name].join("/"), b"");
        disk.lock(&[TEST_DIR_OUT, name].join("/"));
    }
    disk.lock(&[TEST_DIR_OUT, SUB_DIR].join("/"));
    let mut progress = Progress::new();

    let source = snapshot(&disk, TEST_DIR).unwrap();
    let batch = copy_files(&listed(source.dirs()), TEST_DIR, TEST_DIR_OUT, &mut progress);
    disk.run(&batch);
    let batch = copy_files(&listed(source.files()), TEST_DIR, TEST_DIR_OUT, &mut progress);
    assert_eq!(disk.run(&batch), 0);

    assert_eq!(
        snapshot(&disk, TEST_DIR_OUT).unwrap(),
        FileSets::with(
            files_of(&[("main.rs", 0), ("cli.yml", 0), ("lib.rs", 0)]),
            dirs_of(&["lumins"]),
            HashSet::new()
        )
    );
    assert_eq!(progress.position(), 6);
}

#[test]
fn insufficient_input_permissions() {
    const TEST_DIR: &str = "test_copy_files_insufficient_input_permissions";
    const TEST_DIR_OUT: &str = "test_copy_files_insufficient_input_permissions_out";
    let mut disk = Disk::new();
    disk.create_dir_all(TEST_DIR_OUT);
    disk.write(&[TEST_DIR, "lumins/file_ops.rs"].join("/"), b"pub trait FileOps {}\n");
    disk.write(&[TEST_DIR, "main.rs"].join("/"), b"fn main() {}\n");
    disk.lock(&[TEST_DIR, "lumins"].join("/"));
    disk.lock(&[TEST_DIR, "main.rs"].join("/"));
    let mut progress = Progress::new();

    let source = snapshot(&disk, TEST_DIR).unwrap();
    let batch = copy_files(&listed(source.dirs()), TEST_DIR, TEST_DIR_OUT, &mut progress);
    disk.run(&batch);
    let batch = copy_files(&listed(source.files()), TEST_DIR, TEST_DIR_OUT, &mut progress);
    assert_eq!(disk.run(&batch), 0);

    assert_eq!(
        snapshot(&disk, TEST_DIR_OUT).unwrap(),
        FileSets::with(HashSet::new(), dirs_of(&["lumins"]), HashSet::new())
    );
}

#[test]
fn copy_symlink() {
    const TEST_DIR: &str = "test_copy_files_copy_symlink";
    const TEST_DIR_OUT: &str = "test_copy_files_copy_symlink_out_seq";
    let mut disk = Disk::new();
    disk.create_dir_all(TEST_DIR);
    disk.create_dir_all(TEST_DIR_OUT);
    assert!(disk.symlink("src/main.rs", &[TEST_DIR, "file"].join("/")));
    let mut progress = Progress::new();

    let source = snapshot(&disk, TEST_DIR).unwrap();
    let batch = copy_files(&listed(source.symlinks()), TEST_DIR, TEST_DIR_OUT, &mut progress);
    assert_eq!(disk.run(&batch), 1);

    let mut links_set = HashSet::new();
    links_set.insert(Symlink::from("file", "src/main.rs"));

    assert_eq!(
        snapshot(&disk, TEST_DIR_OUT).unwrap(),
        FileSets::with(HashSet::new(), HashSet::new(), links_set.clone())
    );
}

#[test]
fn file_ops_copy_symlink() {
    const TEST_DIR: &str = "test_copy_files_copy_symlink";
    const TEST_DIR_OUT: &str = "test_copy_files_copy_symlink_out_seq";
    let mut disk = Disk::new();
    disk.create_dir_all(TEST_DIR);
    disk.create_dir_all(TEST_DIR_OUT);
    assert!(disk.symlink("src/main.rs", &[TEST_DIR, "file"].join("/")));
    assert!(disk.symlink("src/", &[TEST_DIR, "dir"].join("/")));
    let mut progress = Progress::new();

    let source = snapshot(&disk, TEST_DIR).unwrap();
    let batch = copy_files(&listed(source.symlinks()), TEST_DIR, TEST_DIR_OUT, &mut progress);
    assert_eq!(disk.run(&batch), 2);

    let mut links_set = HashSet::new();
    links_set.insert(Symlink::from("file", "src/main.rs"));
    links_set.insert(Symlink::from("dir", "src/"));

    assert_eq!(
        snapshot(&disk, TEST_DIR_OUT).unwrap(),
        FileSets::with(HashSet::new(), HashSet::new(), links_set.clone())
    );
    assert_eq!(progress.position(), 2);
}

#[test]
fn copying_a_snapshot_into_an_empty_tree_gives_the_same_snapshot() {
    let mut disk = Disk::new();
    disk.write("from/a.txt", b"1");
    disk.write("from/dir1/b.txt", b"");
    disk.write("from/dir1/dir2/c.txt", b"1234567890");
    disk.create_dir_all("from/dir1/empty");
    assert!(disk.symlink("a.txt", "from/dir1/link"));
    disk.create_dir_all("to");
    assert_eq!(snapshot(&disk, "to").unwrap(), FileSets::new());
    let mut progress = Progress::new();
    progress_init(&mut progress, 7);

    copy_tree(&mut disk, "from", "to", &mut progress);

    assert_eq!(snapshot(&disk, "to").unwrap(), snapshot(&disk, "from").unwrap());
    assert_eq!(disk.read("to/dir1/dir2/c.txt"), Some(b"1234567890".to_vec()));
    assert_eq!(progress.position(), 7);
    assert!(progress.is_finished());
}

#[test]
fn single_same() {
    const TEST_DIR: &str = "src";
    const TEST_DIR_OUT: &str = "test_compare_and_copy_files_single_same_out";
    let mut disk = source_tree();
    disk.create_dir_all(TEST_DIR_OUT);
    let main = disk.read("src/main.rs").unwrap();
    disk.write(&[TEST_DIR_OUT, "main.rs"].join("/"), &main);
    let mut progress = Progress::new();

    let file_to_compare = File::from("main.rs", main.len() as u64);
    let mut files_to_compare = HashSet::new();
    files_to_compare.insert(file_to_compare.clone());

    let mut flags = Flag::empty();
    flags.insert(Flag::secure());

    let copied = compare_tree(
        &mut disk,
        &listed(&files_to_compare.clone()),
        TEST_DIR,
        TEST_DIR_OUT,
        Flag::empty(),
        &mut progress,
    );
    assert_eq!(copied, 0);
    let copied =
        compare_tree(&mut disk, &listed(&files_to_compare), TEST_DIR, TEST_DIR_OUT, flags, &mut progress);
    assert_eq!(copied, 0);

    let actual = disk.read(&[TEST_DIR_OUT, "main.rs"].join("/")).unwrap();
    let expected = disk.read(&[TEST_DIR, "main.rs"].join("/")).unwrap();
    assert_eq!(actual, expected);
    assert_eq!(disk.copies, 0);
    assert_eq!(progress.position(), 4);
}

#[test]
fn single_different() {
    const TEST_DIR: &str = "src";
    const TEST_DIR_OUT: &str = "test_compare_and_copy_files_single_different_out";
    let mut disk = source_tree();
    disk.write(&[TEST_DIR_OUT, "main.rs"].join("/"), b"");
    let mut progress = Progress::new();

    let size = disk.read("src/main.rs").unwrap().len() as u64;
    let file_to_compare = File::from("main.rs", size);
    let mut files_to_compare = HashSet::new();
    files_to_compare.insert(file_to_compare.clone());

    let copied = compare_tree(
        &mut disk,
        &listed(&files_to_compare),
        TEST_DIR,
        TEST_DIR_OUT,
        Flag::empty(),
        &mut progress,
    );
    assert_eq!(copied, 1);

    let actual = disk.read(&[TEST_DIR_OUT, "main.rs"].join("/")).unwrap();
    let expected = disk.read(&[TEST_DIR, "main.rs"].join("/")).unwrap();
    assert_eq!(actual, expected);
    assert_eq!(progress.position(), 2);
}

#[test]
fn secure_compare_copies_only_what_changed() {
    let mut disk = Disk::new();
    disk.write("from/a.txt", b"same bytes");
    disk.write("to/a.txt", b"same bytes");
    let file = File::from("a.txt", 10);
    let files: Vec<&File> = vec![&file];
    let mut progress = Progress::new();

    assert_eq!(compare_tree(&mut disk, &files, "from", "to", Flag::secure(), &mut progress), 0);
    assert_eq!(disk.copies, 0);

    disk.write("to/a.txt", b"same bytez");
    assert_eq!(compare_tree(&mut disk, &files, "from", "to", Flag::secure(), &mut progress), 1);
    assert_eq!(disk.copies, 1);
    assert_eq!(disk.read("to/a.txt"), Some(b"same bytes".to_vec()));
    assert_eq!(progress.position(), 4);
}

#[test]
fn a_second_compare_and_copy_copies_nothing() {
    let mut disk = source_tree();
    disk.create_dir_all("out/lumins");
    disk.write("out/main.rs", b"stale");
    let source = snapshot(&disk, "src").unwrap();
    let files = listed(source.files());
    for flags in [Flag::empty(), Flag::secure()] {
        let mut run = disk.clone();
        let mut progress = Progress::new();
        let first = compare_tree(&mut run, &files, "src", "out", flags, &mut progress);
        assert_eq!(first, files.len());
        let after_first = progress.position();
        assert_eq!(after_first, 2 * files.len() as u64);
        let second = compare_tree(&mut run, &files, "src", "out", flags, &mut progress);
        assert_eq!(second, 0);
        assert_eq!(run.copies, files.len());
        assert_eq!(progress.position() - after_first, after_first);
    }
}

#[test]
fn compare_and_copy_file_copies_when_a_side_is_unreadable() {
    let file = File::from("f", 1);
    let known = digest(Flag::empty(), &Some(vec![1]));
    let copy = Some(copy_file(&file, "s", "d"));
    assert_eq!(compare_and_copy_file(&file, "s", "d", Flag::empty(), &None, &known), copy);
    assert_eq!(compare_and_copy_file(&file, "s", "d", Flag::empty(), &known, &None), copy);
    assert_eq!(compare_and_copy_file(&file, "s", "d", Flag::empty(), &known, &known), None);
    assert_eq!(
        copy,
        Some(Action::CopyFile { from: "s/f".to_string(), to: "d/f".to_string() })
    );
}

// The plan of a synchronisation.

fn synchronize(disk: &mut Disk, from: &str, to: &str, flags: Flag, progress: &mut Progress) {
    let source = snapshot(disk, from).unwrap();
    let destination = snapshot(disk, to).unwrap();
    let plan = plan_sync(&source, &destination, flags);
    progress_init(progress, plan.total().unwrap());
    let batch = delete_files(&plan.old_files, to, progress);
    disk.run_backwards(&batch);
    let batch = delete_files(&plan.old_symlinks, to, progress);
    disk.run(&batch);
    let batch = delete_files_sequential(&plan.old_dirs, to, progress);
    disk.run(&batch);
    let batch = copy_files(&plan.new_dirs, from, to, progress);
    disk.run_backwards(&batch);
    let batch = copy_files(&plan.new_files, from, to, progress);
    disk.run(&batch);
    let batch = copy_files(&plan.new_symlinks, from, to, progress);
    disk.run(&batch);
    compare_tree(disk, &plan.common_files, from, to, flags, progress);
}

fn two_trees() -> Disk {
    let mut disk = Disk::new();
    disk.write("from/same.txt", b"same");
    disk.write("from/changed.txt", b"new!");
    disk.write("from/grown.txt", b"longer now");
    disk.write("from/fresh/deep/new.txt", b"n");
    assert!(disk.symlink("same.txt", "from/link"));
    disk.write("to/same.txt", b"same");
    disk.write("to/changed.txt", b"old!");
    disk.write("to/grown.txt", b"short");
    disk.write("to/stale/deeper/deepest/old.txt", b"o");
    disk.create_dir_all("to/stale/other");
    assert!(disk.symlink("gone.txt", "to/dangling"));
    disk
}

#[test]
fn plan_sync_sorts_entries_into_their_lists() {
    let disk = two_trees();
    let source = snapshot(&disk, "from").unwrap();
    let destination = snapshot(&disk, "to").unwrap();
    let plan = plan_sync(&source, &destination, Flag::empty());

    let set = |files: &Vec<&File>| files.iter().map(|f| (*f).clone()).collect::<HashSet<File>>();
    let dirs = |dirs: &Vec<&Dir>| dirs.iter().map(|d| (*d).clone()).collect::<HashSet<Dir>>();
    let links = |links: &Vec<&Symlink>| links.iter().map(|l| (*l).clone()).collect::<HashSet<Symlink>>();

    assert_eq!(plan.new_files.len(), 2);
    assert_eq!(set(&plan.new_files), files_of(&[("grown.txt", 10), ("fresh/deep/new.txt", 1)]));
    assert_eq!(plan.common_files.len(), 2);
    assert_eq!(set(&plan.common_files), files_of(&[("same.txt", 4), ("changed.txt", 4)]));
    assert_eq!(plan.old_files.len(), 2);
    assert_eq!(set(&plan.old_files), files_of(&[("grown.txt", 5), ("stale/deeper/deepest/old.txt", 1)]));
    assert_eq!(plan.new_dirs, vec![&Dir::from("fresh"), &Dir::from("fresh/deep")]);
    assert_eq!(plan.old_dirs.len(), 4);
    assert_eq!(
        dirs(&plan.old_dirs),
        dirs_of(&["stale", "stale/other", "stale/deeper", "stale/deeper/deepest"])
    );
    assert_eq!(plan.old_dirs[0], &Dir::from("stale/deeper/deepest"));
    assert_eq!(plan.old_dirs[3], &Dir::from("stale"));
    assert_eq!(links(&plan.new_symlinks), links_of(&[("link", "same.txt")]));
    assert_eq!(links(&plan.old_symlinks), links_of(&[("dangling", "gone.txt")]));
    assert_eq!(plan.total(), Some(5 + 7 + 2 * 2));

    let kept = plan_sync(&source, &destination, Flag::no_delete().union(Flag::secure()));
    assert!(kept.old_files.is_empty() && kept.old_dirs.is_empty() && kept.old_symlinks.is_empty());
    assert_eq!(set(&kept.new_files), set(&plan.new_files));
    assert_eq!(set(&kept.common_files), set(&plan.common_files));
    assert_eq!(kept.total(), Some(5 + 2 * 2));

    let nothing = plan_sync(&source, &source, Flag::empty());
    assert_eq!(nothing.total(), Some(2 * 4));
    assert!(nothing.new_files.is_empty() && nothing.old_files.is_empty());
    assert_eq!(nothing.common_files.len(), 4);
}

#[test]
fn synchronising_makes_the_destination_like_the_source() {
    for flags in [Flag::empty(), Flag::secure()] {
        let mut disk = two_trees();
        let mut progress = Progress::new();
        synchronize(&mut disk, "from", "to", flags, &mut progress);
        assert_eq!(snapshot(&disk, "to").unwrap(), snapshot(&disk, "from").unwrap());
        assert_eq!(disk.read("to/changed.txt"), Some(b"new!".to_vec()));
        assert_eq!(disk.read("to/grown.txt"), Some(b"longer now".to_vec()));
        assert_eq!(progress.position(), progress.length());
        assert_eq!(progress.length(), 16);

        let copies = disk.copies;
        synchronize(&mut disk, "from", "to", flags, &mut progress);
        assert_eq!(disk.copies, copies);
        assert_eq!(progress.position(), 8);
        assert!(progress.is_finished());
    }
}

#[test]
fn synchronising_without_delete_keeps_what_the_destination_has_alone() {
    let mut disk = two_trees();
    let mut progress = Progress::new();
    synchronize(&mut disk, "from", "to", Flag::no_delete(), &mut progress);
    let after = snapshot(&disk, "to").unwrap();
    assert!(after.files().contains(&File::from("stale/deeper/deepest/old.txt", 1)));
    assert!(after.dirs().contains(&Dir::from("stale/other")));
    assert!(after.symlinks().contains(&Symlink::from("dangling", "gone.txt")));
    assert!(after.files().contains(&File::from("grown.txt", 10)));
    assert!(!after.files().contains(&File::from("grown.txt", 5)));
    assert!(after.files().contains(&File::from("fresh/deep/new.txt", 1)));
    assert_eq!(disk.read("to/changed.txt"), Some(b"new!".to_vec()));
    assert!(progress.is_finished());
}

#[test]
fn compare_and_copy_copies_an_entry_without_digests() {
    let one = File::from("one", 1);
    let two = File::from("two", 1);
    let same = digest(Flag::empty(), &Some(vec![7]));
    let mut progress = Progress::new();
    let steps = compare_and_copy_files(
        &vec![&one, &two],
        "s",
        "d",
        Flag::empty(),
        &vec![(same.clone(), same.clone())],
        &mut progress,
    );
    assert_eq!(steps, vec![None, Some(copy_file(&two, "s", "d"))]);
    assert_eq!(progress.position(), 4);
}

#[test]
fn a_snapshot_holds_each_path_once() {
    let disk = two_trees();
    for root in ["from", "to"] {
        let sets = snapshot(&disk, root).unwrap();
        let mut paths: Vec<String> = Vec::new();
        paths.extend(sets.files().iter().map(|f| f.as_path_buf()));
        paths.extend(sets.dirs().iter().map(|d| d.as_path_buf()));
        paths.extend(sets.symlinks().iter().map(|l| l.as_path_buf()));
        let distinct: BTreeSet<String> = paths.iter().cloned().collect();
        assert_eq!(distinct.len(), paths.len());
        assert!(paths.iter().all(|p| !p.starts_with('/')));
    }
    let sets = snapshot(&disk, "to").unwrap();
    assert_eq!(sets.files().len() + sets.dirs().len() + sets.symlinks().len(), 4 + 4 + 1);
    assert_eq!(sets.clone(), sets);
    assert_ne!(sets.clone(), FileSets::new());
}

#[test]
fn sort_shallowest_first_puts_directories_before_what_lies_inside() {
    let abc = Dir::from("a/b/c");
    let a = Dir::from("a");
    let ab = Dir::from("a/b");
    assert_eq!(sort_shallowest_first(vec![&abc, &a, &ab]), vec![&a, &ab, &abc]);
    assert_eq!(sort_shallowest_first(vec![&ab, &abc, &a]), vec![&a, &ab, &abc]);
    assert_eq!(sort_shallowest_first(Vec::<&Dir>::new()), Vec::<&Dir>::new());
    assert_eq!(reversed(&vec![&a, &ab, &abc]), vec![&abc, &ab, &a]);
    assert_eq!(reversed(&vec![&a]), vec![&a]);
}
