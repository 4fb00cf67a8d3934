//! The in-memory picture of what the scan walks: a tree of named entries as
//! the surrounding shell read them from disk, before any filtering.

use vstd::prelude::*;

verus! {

/// One entry of a directory listing: a file with its byte size and creation
/// timestamp (epoch seconds), or a subdirectory with its own entries.
pub enum FsNode {
    File { name: String, size: u64, created: u64 },
    Dir { name: String, entries: Vec<FsNode> },
}

/// One configured source directory that exists on disk: its path and the
/// entries listed under it. The root's own name is never filtered, so only
/// its entries appear here.
pub struct SourceTree {
    pub path: String,
    pub entries: Vec<FsNode>,
}

/// The mathematical record of one file the scan keeps: its full path, bare
/// name, byte size and creation timestamp.
pub ghost struct Entry {
    pub path: Seq<char>,
    pub name: Seq<char>,
    pub size: u64,
    pub created: u64,
}

/// Paths grow by a `/` separator and the entry name.
pub open spec fn join_path(dir: Seq<char>, name: Seq<char>) -> Seq<char> {
    dir + seq!['/'] + name
}

} // verus!
