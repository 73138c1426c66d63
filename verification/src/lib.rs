//! A directory-integrity watcher library.
//!
//! Given the captured listing of a directory tree, the library builds an
//! immutable snapshot, detects entries that have appeared since the snapshot
//! was taken, and decides how each unauthorized entry is to be removed.
//! All filesystem access, logging and scheduling live outside the library;
//! callers hand in plain values (paths and listings) and receive plain
//! values back.

pub mod detect;
pub mod remediate;
pub mod snapshot;
