//! The entry model: a file, a directory or a symbolic link, each known by its
//! path relative to the root of a snapshot, and the filesystem actions that
//! copying or removing an entry amounts to.

use vstd::prelude::*;
use vstd::string::*;

verus! {

/// One filesystem operation, to be carried out by the caller.
#[derive(Debug, Clone, PartialEq, Eq)]
pub enum Action {
    /// Remove the file or the symbolic link at the path.
    RemoveFile(String),
    /// Remove the empty directory at the path.
    RemoveDir(String),
    /// Copy the bytes of `from` over `to`.
    CopyFile { from: String, to: String },
    /// Create the directory and every missing ancestor of it.
    CreateDir(String),
    /// Create at `at` a symbolic link that points at `target`.
    Link { target: String, at: String },
}

/// What an `Action` is, over sequences of characters.
pub enum ActionView {
    RemoveFile(Seq<char>),
    RemoveDir(Seq<char>),
    CopyFile { from: Seq<char>, to: Seq<char> },
    CreateDir(Seq<char>),
    Link { target: Seq<char>, at: Seq<char> },
}

impl View for Action {
    type V = ActionView;

    open spec fn view(&self) -> ActionView {
        match self {
            Action::RemoveFile(p) => ActionView::RemoveFile(p@),
            Action::RemoveDir(p) => ActionView::RemoveDir(p@),
            Action::CopyFile { from, to } => ActionView::CopyFile { from: from@, to: to@ },
            Action::CreateDir(p) => ActionView::CreateDir(p@),
            Action::Link { target, at } => ActionView::Link { target: target@, at: at@ },
        }
    }
}

/// What every kind of entry offers: its relative path, and the action that
/// removes it or copies it.
pub trait FileOps {
    /// The entry's path, relative to the root of its snapshot.
    spec fn path_view(&self) -> Seq<char>;

    /// The action that removes this entry where it lies at `at`.
    spec fn removal(&self, at: Seq<char>) -> ActionView;

    /// The action that brings this entry from `from` to `to`.
    spec fn transfer(&self, from: Seq<char>, to: Seq<char>) -> ActionView;

    fn path(&self) -> (p: &str)
        ensures
            p@ == self.path_view(),
    ;

    fn as_path_buf(&self) -> (p: String)
        ensures
            p@ == self.path_view(),
    ;

    fn remove(&self, path: &str) -> (action: Action)
        ensures
            action@ == self.removal(path@),
    ;

    fn copy(&self, src: &str, dest: &str) -> (action: Action)
        ensures
            action@ == self.transfer(src@, dest@),
    ;
}

/// A regular file: its relative path and its size in bytes.
#[derive(Hash, Eq, PartialEq, Debug, Clone)]
pub struct File {
    path: String,
    size: u64,
}

/// What a `File` is, over sequences of characters.
pub struct FileView {
    pub path: Seq<char>,
    pub size: u64,
}

impl View for File {
    type V = FileView;

    closed spec fn view(&self) -> FileView {
        FileView { path: self.path@, size: self.size }
    }
}

impl File {
    pub fn from(path: &str, size: u64) -> (file: File)
        ensures
            file@ == (FileView { path: path@, size }),
    {
        File { path: String::from_str(path), size }
    }

    /// The size recorded for the file, in bytes.
    pub fn size(&self) -> (size: u64)
        ensures
            size == self@.size,
    {
        self.size
    }
}

impl FileOps for File {
    open spec fn path_view(&self) -> Seq<char> {
        self@.path
    }

    open spec fn removal(&self, at: Seq<char>) -> ActionView {
        ActionView::RemoveFile(at)
    }

    open spec fn transfer(&self, from: Seq<char>, to: Seq<char>) -> ActionView {
        ActionView::CopyFile { from, to }
    }

    fn path(&self) -> (p: &str) {
        self.path.as_str()
    }

    fn as_path_buf(&self) -> (p: String) {
        self.path.clone()
    }

    fn remove(&self, path: &str) -> (action: Action) {
        Action::RemoveFile(String::from_str(path))
    }

    fn copy(&self, src: &str, dest: &str) -> (action: Action) {
        Action::CopyFile { from: String::from_str(src), to: String::from_str(dest) }
    }
}

/// A directory: its relative path.
#[derive(Hash, Eq, PartialEq, Debug, Clone)]
pub struct Dir {
    path: String,
}

/// What a `Dir` is, over sequences of characters.
pub struct DirView {
    pub path: Seq<char>,
}

impl View for Dir {
    type V = DirView;

    closed spec fn view(&self) -> DirView {
        DirView { path: self.path@ }
    }
}

impl Dir {
    pub fn from(dir: &str) -> (d: Dir)
        ensures
            d@ == (DirView { path: dir@ }),
    {
        Dir { path: String::from_str(dir) }
    }
}

impl FileOps for Dir {
    open spec fn path_view(&self) -> Seq<char> {
        self@.path
    }

    open spec fn removal(&self, at: Seq<char>) -> ActionView {
        ActionView::RemoveDir(at)
    }

    open spec fn transfer(&self, from: Seq<char>, to: Seq<char>) -> ActionView {
        ActionView::CreateDir(to)
    }

    fn path(&self) -> (p: &str) {
        self.path.as_str()
    }

    fn as_path_buf(&self) -> (p: String) {
        self.path.clone()
    }

    fn remove(&self, path: &str) -> (action: Action) {
        Action::RemoveDir(String::from_str(path))
    }

    fn copy(&self, src: &str, dest: &str) -> (action: Action) {
        Action::CreateDir(String::from_str(dest))
    }
}

/// A symbolic link: its relative path and the target stored in it, unresolved.
#[derive(Hash, Eq, PartialEq, Debug, Clone)]
pub struct Symlink {
    path: String,
    target: String,
}

/// What a `Symlink` is, over sequences of characters.
pub struct SymlinkView {
    pub path: Seq<char>,
    pub target: Seq<char>,
}

impl View for Symlink {
    type V = SymlinkView;

    closed spec fn view(&self) -> SymlinkView {
        SymlinkView { path: self.path@, target: self.target@ }
    }
}

impl Symlink {
    pub fn from(path: &str, target: &str) -> (link: Symlink)
        ensures
            link@ == (SymlinkView { path: path@, target: target@ }),
    {
        Symlink { path: String::from_str(path), target: String::from_str(target) }
    }

    /// The target stored in the link.
    pub fn target(&self) -> (t: &str)
        ensures
            t@ == self@.target,
    {
        self.target.as_str()
    }
}

impl FileOps for Symlink {
    open spec fn path_view(&self) -> Seq<char> {
        self@.path
    }

    open spec fn removal(&self, at: Seq<char>) -> ActionView {
        ActionView::RemoveFile(at)
    }

    open spec fn transfer(&self, from: Seq<char>, to: Seq<char>) -> ActionView {
        ActionView::Link { target: self@.target, at: to }
    }

    fn path(&self) -> (p: &str) {
        self.path.as_str()
    }

    fn as_path_buf(&self) -> (p: String) {
        self.path.clone()
    }

    fn remove(&self, path: &str) -> (action: Action) {
        Action::RemoveFile(String::from_str(path))
    }

    fn copy(&self, src: &str, dest: &str) -> (action: Action) {
        Action::Link { target: self.target.clone(), at: String::from_str(dest) }
    }
}

} // verus!
