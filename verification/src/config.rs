//! Configuration of the scan: source directories, the recency window in
//! minutes, and a blacklist of name substrings.

use vstd::prelude::*;

verus! {

/// The recency window, in minutes, that a freshly created configuration uses.
pub const DEFAULT_TIME_LIMIT: u64 = 20;

/// Settings that drive one run: which directories to scan, how recent a file
/// must be (in minutes), and which name substrings to skip.
pub struct Config {
    pub source_dir: Vec<String>,
    pub time_limit: u64,
    pub black_list: Vec<String>,
}

impl Config {
    /// The configuration written on first run: a single source directory
    /// (the caller passes the per-user downloads directory), a
    /// twenty-minute window, and an empty blacklist.
    pub fn default_config(downloads_dir: String) -> (c: Config)
        ensures
            c.source_dir@.len() == 1,
            c.source_dir@[0]@ == downloads_dir@,
            c.time_limit == DEFAULT_TIME_LIMIT,
            c.black_list@.len() == 0,
    {
        let mut dirs: Vec<String> = Vec::new();
        dirs.push(downloads_dir);
        Config { source_dir: dirs, time_limit: DEFAULT_TIME_LIMIT, black_list: Vec::new() }
    }
}

} // verus!
