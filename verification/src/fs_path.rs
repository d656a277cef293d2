//! File system paths, taken apart into their components.

use std::path::PathBuf;
use vstd::prelude::*;

verus! {

/// What a path component is.
#[derive(Clone, Copy, Debug, PartialEq, Eq, Structural)]
pub enum PartKind {
    /// A drive or share, on platforms that have them.
    Prefix,
    /// The root directory.
    RootDir,
    /// `.`
    CurDir,
    /// `..`
    ParentDir,
    /// A file or directory name.
    Normal,
}

/// One component of a path.
#[derive(Debug)]
pub struct PathPart {
    pub kind: PartKind,
    pub bytes: Vec<u8>,
}

/// A path that was resolved: the path itself, and its components.
#[derive(Debug)]
pub struct ResolvedPath {
    pub path: PathBuf,
    pub parts: FsPath,
}

/// A path as the sequence of its components.
#[derive(Debug)]
pub struct FsPath {
    pub parts: Vec<PathPart>,
}

impl View for PathPart {
    type V = (PartKind, Seq<u8>);

    open spec fn view(&self) -> (PartKind, Seq<u8>) {
        (self.kind, self.bytes@)
    }
}

impl View for FsPath {
    type V = Seq<(PartKind, Seq<u8>)>;

    open spec fn view(&self) -> Seq<(PartKind, Seq<u8>)> {
        Seq::new(self.parts@.len(), |i: int| self.parts@[i]@)
    }
}

/// The number of leading components that make up the parent of `path`: all but
/// the last, or all of them where `path` ends in a root or is empty.
pub open spec fn parent_depth(path: Seq<(PartKind, Seq<u8>)>) -> int {
    if path.len() > 0 && path.last().0 != PartKind::RootDir && path.last().0 != PartKind::Prefix {
        path.len() - 1
    } else {
        path.len() as int
    }
}

impl PathPart {
    /// Whether two components are the same.
    pub fn same(&self, other: &PathPart) -> (same: bool)
        ensures
            same == (self@ == other@),
    {
        if self.kind != other.kind || self.bytes.len() != other.bytes.len() {
            return false;
        }
        let mut i: usize = 0;
        while i < self.bytes.len()
            invariant
                self.bytes@.len() == other.bytes@.len(),
                i <= self.bytes@.len(),
                forall|j: int| 0 <= j < i ==> self.bytes@[j] == other.bytes@[j],
            decreases self.bytes@.len() - i,
        {
            if self.bytes[i] != other.bytes[i] {
                return false;
            }
            i += 1;
        }
        assert(self.bytes@ =~= other.bytes@);
        true
    }
}

impl FsPath {
    /// Whether `base` is this path or a directory above it. Only whole
    /// components count.
    pub fn starts_with(&self, base: &FsPath) -> (under: bool)
        ensures
            under == base@.is_prefix_of(self@),
    {
        if base.parts.len() > self.parts.len() {
            return false;
        }
        let mut i: usize = 0;
        while i < base.parts.len()
            invariant
                base.parts@.len() <= self.parts@.len(),
                i <= base.parts@.len(),
                forall|j: int| 0 <= j < i ==> base@[j] == self@[j],
            decreases base.parts@.len() - i,
        {
            if !self.parts[i].same(&base.parts[i]) {
                assert(base@[i as int] != self@[i as int]);
                assert(self@.subrange(0, base@.len() as int)[i as int] == self@[i as int]);
                return false;
            }
            i += 1;
        }
        assert(base@ =~= self@.subrange(0, base@.len() as int));
        true
    }

    /// How many leading components of this path make up its parent, or the path
    /// itself where it has none.
    pub fn parent_len(&self) -> (depth: usize)
        ensures
            depth == parent_depth(self@),
    {
        let n: usize = self.parts.len();
        if n > 0 {
            let kind: PartKind = self.parts[n - 1].kind;
            assert(self@.last() == self.parts@[n - 1]@);
            if kind != PartKind::RootDir && kind != PartKind::Prefix {
                return n - 1;
            }
        }
        n
    }
}

/// The parent of a path is the path less its last component, unless there is none
/// or it is where the path starts from.
pub proof fn law_parent_drops_the_last_name(path: FsPath)
    ensures
        ({
            let n = path.parts@.len();
            let start = n == 0 || path.parts@.last().kind is RootDir || path.parts@.last().kind is Prefix;
            &&& start ==> parent_depth(path@) == n
            &&& !start ==> parent_depth(path@) == n - 1
        }),
{
    if path.parts@.len() > 0 {
        assert(path@.last() == path.parts@.last()@);
    }
}

/// Two paths look alike exactly if they have the same components.
pub proof fn law_paths_are_their_components(path: FsPath, other: FsPath)
    ensures
        path@ == other@ <==> path.parts@.len() == other.parts@.len() && forall|i: int|
            0 <= i < path.parts@.len() ==> (#[trigger] path.parts@[i]).kind
                == other.parts@[i].kind && path.parts@[i].bytes@ == other.parts@[i].bytes@,
{
    if path@ == other@ {
        assert forall|i: int| 0 <= i < path.parts@.len() implies (
        #[trigger] path.parts@[i]).kind == other.parts@[i].kind && path.parts@[i].bytes@
            == other.parts@[i].bytes@ by {
            assert(path@[i] == path.parts@[i]@);
            assert(other@[i] == other.parts@[i]@);
        }
    }
    if path.parts@.len() == other.parts@.len() && forall|i: int|
        0 <= i < path.parts@.len() ==> (#[trigger] path.parts@[i]).kind == other.parts@[i].kind
            && path.parts@[i].bytes@ == other.parts@[i].bytes@ {
        assert forall|i: int| 0 <= i < path@.len() implies path@[i] == other@[i] by {
            assert(path@[i] == path.parts@[i]@);
            assert(other@[i] == other.parts@[i]@);
        }
        assert(path@ =~= other@);
    }
}

} // verus!
