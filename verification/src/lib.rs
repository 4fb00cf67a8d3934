//! An interactive helper that scans configured directories for recently
//! created files, shows them as an aligned, newest-first list, and moves the
//! chosen file into the current working directory.
//!
//! This crate holds the verified core: configuration defaults, the recursive
//! scan over a directory tree with recency, hidden-name and blacklist
//! filtering, stable sorting by creation time, column-width computation and
//! line rendering, human-readable size formatting, and the decision state
//! machine of the move operation. The thin shell that performs file-system
//! and terminal I/O lives outside and feeds plain values in.

pub mod config;
pub mod digits;
pub mod file_info;
pub mod fs_model;
pub mod mover;
pub mod scan_laws;
pub mod scanning;
pub mod size_format;
pub mod sorting;
pub mod text;
pub mod time_format;

use vstd::prelude::*;

verus! {

} // verus!
