//! File discovery: which files a set of search roots gives, once the file
//! system has said what lies at each root.

use vstd::prelude::*;
use crate::output::texts;

verus! {

/// What the file system holds at a path.
#[derive(Debug, Clone, Copy, PartialEq, Eq, Structural)]
pub enum PathKind {
    /// Nothing: the path does not exist.
    Missing,
    /// A regular file.
    File,
    /// A directory.
    Directory,
    /// Something that is neither a file nor a directory.
    Other,
}

/// One entry that a walk through a directory came across.
#[derive(Debug, Clone)]
pub struct WalkEntry {
    /// The path of the entry.
    pub path: String,
    /// How far below the root the entry lies: 1 for what the root directory
    /// itself holds.
    pub depth: usize,
    /// Whether the entry is a regular file.
    pub is_file: bool,
}

/// A path that the search was pointed at, with what was found there.
#[derive(Debug, Clone)]
pub struct SearchRoot {
    /// The path as it was given.
    pub path: String,
    /// What lies at the path.
    pub kind: PathKind,
    /// For a directory, the entries of the walk through it, in the order of
    /// the walk.
    pub entries: Vec<WalkEntry>,
}

/// Whether an entry of a walk is searched: regular files only, and without
/// recursion only those that the root directory itself holds.
pub open spec fn entry_selected(entry: WalkEntry, recursive: bool) -> bool {
    entry.is_file && (recursive || entry.depth == 1)
}

/// The paths of the entries of a walk that are searched, in the order of the
/// walk.
pub open spec fn selected_paths(entries: Seq<WalkEntry>, recursive: bool) -> Seq<Seq<char>>
    decreases entries.len(),
{
    if entries.len() == 0 {
        Seq::empty()
    } else if entry_selected(entries.last(), recursive) {
        selected_paths(entries.drop_last(), recursive).push(entries.last().path@)
    } else {
        selected_paths(entries.drop_last(), recursive)
    }
}

/// The files that one root gives: itself where it is a file, the selected
/// entries of its walk where it is a directory, and nothing where it is
/// missing or something else.
pub open spec fn root_files(root: SearchRoot, recursive: bool) -> Seq<Seq<char>> {
    match root.kind {
        PathKind::File => seq![root.path@],
        PathKind::Directory => selected_paths(root.entries@, recursive),
        PathKind::Missing => Seq::empty(),
        PathKind::Other => Seq::empty(),
    }
}

/// The files that a sequence of roots gives: those of each root, in the order
/// of the roots.
pub open spec fn found_files(roots: Seq<SearchRoot>, recursive: bool) -> Seq<Seq<char>>
    decreases roots.len(),
{
    if roots.len() == 0 {
        Seq::empty()
    } else {
        found_files(roots.drop_last(), recursive) + root_files(roots.last(), recursive)
    }
}

/// Add the selected entries of one walk to the files found so far.
fn add_entries(entries: &Vec<WalkEntry>, recursive: bool, files: &mut Vec<String>)
    ensures
        texts(final(files)@) == texts(old(files)@) + selected_paths(entries@, recursive),
{
    let ghost before = texts(files@);
    let mut i: usize = 0;
    while i < entries.len()
        invariant
            i <= entries.len(),
            texts(files@) == before + selected_paths(entries@.take(i as int), recursive),
        decreases entries.len() - i,
    {
        proof {
            assert(entries@.take(i + 1).drop_last() == entries@.take(i as int));
        }
        let entry = &entries[i];
        if entry.is_file && (recursive || entry.depth == 1) {
            let ghost so_far = files@;
            files.push(entry.path.clone());
            proof {
                assert(texts(files@) == texts(so_far).push(entry.path@));
            }
        }
        i += 1;
    }
    proof {
        assert(entries@.take(entries.len() as int) == entries@);
    }
}

/// Find the files to search under the given roots: a root that is a file is
/// searched itself, a directory gives the files of its walk (all of them with
/// recursion, those directly in it without), and a root that does not exist
/// is passed over.
pub fn find_files(roots: &Vec<SearchRoot>, recursive: bool) -> (files: Vec<String>)
    ensures
        texts(files@) == found_files(roots@, recursive),
{
    let mut files: Vec<String> = Vec::new();
    let mut i: usize = 0;
    while i < roots.len()
        invariant
            i <= roots.len(),
            texts(files@) == found_files(roots@.take(i as int), recursive),
        decreases roots.len() - i,
    {
        proof {
            assert(roots@.take(i + 1).drop_last() == roots@.take(i as int));
        }
        let root = &roots[i];
        match root.kind {
            PathKind::File => {
                let ghost so_far = files@;
                files.push(root.path.clone());
                proof {
                    assert(texts(files@) == texts(so_far) + seq![root.path@]);
                }
            },
            PathKind::Directory => {
                add_entries(&root.entries, recursive, &mut files);
            },
            PathKind::Missing => {},
            PathKind::Other => {},
        }
        i += 1;
    }
    proof {
        assert(roots@.take(roots.len() as int) == roots@);
    }
    files
}

} // verus!
