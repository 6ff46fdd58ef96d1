//! Repository discovery decisions. The directory walk itself (bounded by the
//! scan depth) is done by the caller; this module decides what the walk prunes
//! and which entries mark repositories, and collects each root once.

use vstd::prelude::*;
use crate::text::{chars_of, ends_with, ends_with_exec, includes, names_include, slice_chars, string_of};

verus! {

/// What a walk does with one directory entry.
#[derive(Debug, Clone, Copy, PartialEq, Eq, Structural)]
pub enum EntryKind {
    /// A `.git` entry (a directory, or the file of a submodule or linked
    /// worktree): its parent is a repository root; it is not descended into.
    RepositoryMarker,
    /// An ignored directory: not descended into.
    Pruned,
    /// Anything else: visited as usual.
    Other,
}

pub open spec fn entry_kind_of(name: Seq<char>, is_dir: bool, ignore_dirs: Seq<String>) -> EntryKind {
    if name == ".git"@ {
        EntryKind::RepositoryMarker
    } else if is_dir && names_include(ignore_dirs, name) {
        EntryKind::Pruned
    } else {
        EntryKind::Other
    }
}

/// Classifies an entry by its file name.
pub fn classify_entry(name: &str, is_dir: bool, ignore_dirs: &Vec<String>) -> (r: EntryKind)
    ensures
        r == entry_kind_of(name@, is_dir, ignore_dirs@),
{
    let git = ".git".to_owned();
    let n = name.to_owned();
    if n == git {
        EntryKind::RepositoryMarker
    } else if is_dir && includes(ignore_dirs, name) {
        EntryKind::Pruned
    } else {
        EntryKind::Other
    }
}

/// The directory that holds a `.git` entry, given the entry's path.
pub open spec fn root_of_marker(p: Seq<char>) -> Seq<char> {
    if ends_with(p, "/.git"@) {
        p.subrange(0, p.len() - 5)
    } else if ends_with(p, ".git"@) {
        p.subrange(0, p.len() - 4)
    } else {
        p
    }
}

/// The directory that holds a `.git` entry.
pub fn marker_root(marker: &str) -> (r: String)
    ensures
        r@ == root_of_marker(marker@),
{
    let cs = chars_of(marker);
    let slash_git = chars_of("/.git");
    let git = chars_of(".git");
    proof {
        reveal_strlit("/.git");
        reveal_strlit(".git");
    }
    if ends_with_exec(&cs, &slash_git) {
        string_of(&slice_chars(&cs, 0, cs.len() - 5))
    } else if ends_with_exec(&cs, &git) {
        string_of(&slice_chars(&cs, 0, cs.len() - 4))
    } else {
        marker.to_owned()
    }
}

/// Repository roots for the `.git` entries a walk found: each root once.
pub fn discover_roots(markers: &Vec<String>) -> (r: Vec<String>)
    ensures
        forall|i: int, j: int| 0 <= i < j < r@.len() ==> (#[trigger] r@[i])@ != (#[trigger] r@[j])@,
        forall|x: Seq<char>| names_include(r@, x) <==> exists|k: int| 0 <= k < markers@.len()
            && root_of_marker(#[trigger] markers@[k]@) == x,
{
    let mut out: Vec<String> = Vec::new();
    let mut i: usize = 0;
    while i < markers.len()
        invariant
            i <= markers@.len(),
            forall|a: int, b: int| 0 <= a < b < out@.len() ==> (#[trigger] out@[a])@ != (#[trigger] out@[b])@,
            forall|x: Seq<char>| names_include(out@, x) <==> exists|k: int| 0 <= k < i
                && root_of_marker(#[trigger] markers@[k]@) == x,
        decreases markers@.len() - i,
    {
        let root = marker_root(markers[i].as_str());
        let ghost before = out@;
        if !includes(&out, root.as_str()) {
            out.push(root);
            assert forall|x: Seq<char>| names_include(out@, x) <==> (names_include(before, x) || x == root@) by {
                if names_include(out@, x) {
                    let j = choose|j: int| 0 <= j < out@.len() && #[trigger] out@[j]@ == x;
                    if j < before.len() {
                        assert(before[j]@ == x);
                    }
                }
                if names_include(before, x) {
                    let j = choose|j: int| 0 <= j < before.len() && #[trigger] before[j]@ == x;
                    assert(out@[j]@ == x);
                }
                if x == root@ {
                    assert(out@[before.len() as int]@ == x);
                }
            }
        }
        assert(forall|x: Seq<char>| names_include(out@, x) <==> (names_include(before, x) || x == root@));
        assert forall|x: Seq<char>| names_include(out@, x) <==> exists|k: int| 0 <= k < i + 1
            && root_of_marker(#[trigger] markers@[k]@) == x by {
            if names_include(out@, x) {
                if x == root@ {
                    assert(root_of_marker(markers@[i as int]@) == x);
                } else {
                    assert(names_include(before, x));
                    let k = choose|k: int| 0 <= k < i && root_of_marker(#[trigger] markers@[k]@) == x;
                    assert(root_of_marker(markers@[k]@) == x);
                }
            }
            if exists|k: int| 0 <= k < i + 1 && root_of_marker(#[trigger] markers@[k]@) == x {
                let k = choose|k: int| 0 <= k < i + 1 && root_of_marker(#[trigger] markers@[k]@) == x;
                if k < i {
                    assert(names_include(before, x));
                } else {
                    assert(x == root@);
                }
            }
        }
        i = i + 1;
    }
    out
}

} // verus!
