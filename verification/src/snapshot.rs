//! Capturing a frozen snapshot of a directory tree.
//!
//! The caller walks the live filesystem once, at startup, and records what it
//! saw as a tree of [`RawEntry`] values (a path, whether it is a directory,
//! and the captured children). [`scan_directory`] turns that captured listing
//! into the immutable [`FsEntry`] snapshot that monitoring compares against.

use vstd::prelude::*;

verus! {

/// One entry of the captured listing of the live filesystem: its path, its
/// classification at capture time, and, for a directory, the entries that
/// were listed beneath it. A non-directory carries no entries.
pub struct RawEntry {
    pub path: String,
    pub is_dir: bool,
    pub entries: Vec<RawEntry>,
}

/// A node of the frozen snapshot: a directory with the children present at
/// capture time, or a single file (anything not classified as a directory).
/// The tree is never updated after construction.
pub enum FsEntry {
    Directory(String, Vec<FsEntry>),
    File(String),
}

impl FsEntry {
    /// The path this node was captured under.
    pub open spec fn path_spec(self) -> Seq<char> {
        match self {
            FsEntry::Directory(path, _) => path@,
            FsEntry::File(path) => path@,
        }
    }

    /// The path this node was captured under.
    pub fn path(&self) -> (path: &String)
        ensures
            path@ == self.path_spec(),
    {
        match self {
            FsEntry::Directory(path, _) => path,
            FsEntry::File(path) => path,
        }
    }
}

/// The snapshot node `snapshot` is an exact mirror of the captured listing
/// `raw`: same path, same classification, and, for a directory, children that
/// mirror the captured entries one for one, recursively.
pub open spec fn mirrors(snapshot: FsEntry, raw: RawEntry) -> bool
    decreases raw,
{
    if raw.is_dir {
        match snapshot {
            FsEntry::Directory(path, children) => {
                &&& path@ == raw.path@
                &&& children@.len() == raw.entries@.len()
                &&& forall|i: int|
                    0 <= i < raw.entries@.len() ==> mirrors(
                        #[trigger] children@[i],
                        raw.entries@[i],
                    )
            },
            FsEntry::File(_) => false,
        }
    } else {
        match snapshot {
            FsEntry::Directory(_, _) => false,
            FsEntry::File(path) => path@ == raw.path@,
        }
    }
}

/// The set of path strings of a sequence of snapshot children: the baseline
/// that later listings of the directory are compared against.
pub open spec fn baseline_paths(children: Seq<FsEntry>) -> Set<Seq<char>> {
    Set::new(
        |p: Seq<char>| exists|i: int| 0 <= i < children.len() && children[i].path_spec() == p,
    )
}

/// The set of path strings of a sequence of captured listing entries.
pub open spec fn raw_listing_paths(entries: Seq<RawEntry>) -> Set<Seq<char>> {
    Set::new(|p: Seq<char>| exists|i: int| 0 <= i < entries.len() && entries[i].path@ == p)
}

/// A snapshot that mirrors a captured directory listing is a directory node
/// whose children's path set is exactly the path set of the entries listed at
/// capture time. (`mirrors` itself carries the same correspondence down into
/// every captured subdirectory.)
pub proof fn lemma_snapshot_children_exact(snapshot: FsEntry, raw: RawEntry)
    requires
        mirrors(snapshot, raw),
        raw.is_dir,
    ensures
        snapshot is Directory,
        baseline_paths(snapshot->Directory_1@) == raw_listing_paths(raw.entries@),
{
    let children = snapshot->Directory_1@;
    let entries = raw.entries@;
    assert forall|i: int| 0 <= i < entries.len() implies children[i].path_spec()
        == entries[i].path@ by {
        assert(mirrors(children[i], entries[i]));
    };
    assert forall|p: Seq<char>|
        baseline_paths(children).contains(p) implies raw_listing_paths(entries).contains(p) by {
        let i = choose|i: int| 0 <= i < children.len() && children[i].path_spec() == p;
        assert(entries[i].path@ == p);
    };
    assert forall|p: Seq<char>|
        raw_listing_paths(entries).contains(p) implies baseline_paths(children).contains(p) by {
        let i = choose|i: int| 0 <= i < entries.len() && entries[i].path@ == p;
        assert(children[i].path_spec() == p);
    };
    assert(baseline_paths(children) =~= raw_listing_paths(entries));
}

/// Builds the frozen snapshot node for a captured listing: a directory
/// becomes a `Directory` node whose children are built from the captured
/// entries, in order; anything else becomes a `File` leaf.
pub fn scan_directory(raw: &RawEntry) -> (snapshot: FsEntry)
    ensures
        mirrors(snapshot, *raw),
    decreases *raw,
{
    if raw.is_dir {
        let mut children: Vec<FsEntry> = Vec::new();
        let mut i: usize = 0;
        while i < raw.entries.len()
            invariant
                i <= raw.entries@.len(),
                children@.len() == i,
                forall|j: int|
                    0 <= j < i ==> mirrors(#[trigger] children@[j], raw.entries@[j]),
            decreases raw.entries@.len() - i,
        {
            let child = scan_directory(&raw.entries[i]);
            children.push(child);
            i = i + 1;
        }
        FsEntry::Directory(raw.path.clone(), children)
    } else {
        FsEntry::File(raw.path.clone())
    }
}

} // verus!
