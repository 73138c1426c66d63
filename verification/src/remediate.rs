//! Deciding how a newly detected entry is to be removed.
//!
//! The library only decides; the caller performs the removal and reports the
//! outcome. A directory is removed non-recursively (the removal fails if the
//! directory is not empty), anything else is removed as a file.

use vstd::prelude::*;

verus! {

/// How an unauthorized entry is to be removed from the live filesystem.
pub enum RemovalKind {
    /// Non-recursive directory removal: succeeds only on an empty directory.
    Directory,
    /// Plain file (or link, socket, ...) removal.
    File,
}

/// A removal decision for one unauthorized entry.
pub struct Remediation {
    pub path: String,
    pub kind: RemovalKind,
}

/// Decides the removal for one newly detected entry: a directory gets a
/// non-recursive directory removal, anything else a file removal. The path
/// is passed through unchanged.
pub fn handle_diff_entry(path: String, is_dir: bool) -> (remediation: Remediation)
    ensures
        remediation.path == path,
        remediation.kind == (if is_dir {
            RemovalKind::Directory
        } else {
            RemovalKind::File
        }),
{
    let kind = if is_dir {
        RemovalKind::Directory
    } else {
        RemovalKind::File
    };
    Remediation { path, kind }
}

} // verus!
