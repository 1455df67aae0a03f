use std::path::PathBuf;

use vstd::prelude::*;

verus! {

/// A path of the file system, carried through unchanged.
#[verifier::external_type_specification]
#[verifier::external_body]
pub struct ExPathBuf(PathBuf);

/// A file-system path: a base directory as the operating system reported it (none for the
/// current directory), then the names joined below it, one segment each.
#[derive(Debug, Clone, PartialEq)]
pub struct FsPath {
    pub root: Option<PathBuf>,
    pub segments: Vec<String>,
}

/// The mathematical value of an [`FsPath`].
pub struct FsPathView {
    pub root: Option<PathBuf>,
    pub segments: Seq<Seq<char>>,
}

impl View for FsPath {
    type V = FsPathView;

    open spec fn view(&self) -> FsPathView {
        FsPathView { root: self.root, segments: self.segments@.map_values(|s: String| s@) }
    }
}

impl FsPath {
    /// The base directory itself (the current directory when there is none).
    pub fn from_root(root: Option<PathBuf>) -> (p: FsPath)
        ensures
            p@ == (FsPathView { root, segments: Seq::empty() }),
    {
        let p = FsPath { root, segments: Vec::new() };
        assert(p@.segments =~= Seq::<Seq<char>>::empty());
        p
    }

    /// The path with `name` appended as its last segment.
    pub fn join(self, name: String) -> (p: FsPath)
        ensures
            p@ == (FsPathView { root: self@.root, segments: self@.segments.push(name@) }),
    {
        let root = self.root;
        let mut segments = self.segments;
        let ghost before = segments@;
        segments.push(name);
        let p = FsPath { root, segments };
        assert(p@.segments =~= before.map_values(|s: String| s@).push(name@));
        p
    }
}

} // verus!
