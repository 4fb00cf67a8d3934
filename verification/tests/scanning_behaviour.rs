use recent_move::config::Config;
use recent_move::file_info::FileInfo;
use recent_move::fs_model::{FsNode, SourceTree};
use recent_move::scanning::{find_recent_files, scan_directory, ScanError};

fn file(name: &str, size: u64, created: u64) -> FsNode {
    FsNode::File { name: String::from(name), size, created }
}

fn dir(name: &str, entries: Vec<FsNode>) -> FsNode {
    FsNode::Dir { name: String::from(name), entries }
}

fn config_with(black_list: Vec<String>, time_limit: u64) -> Config {
    Config { source_dir: vec![String::from("/downloads")], time_limit, black_list }
}

fn scan(entries: &Vec<FsNode>, config: &Config, not_before: u64) -> Vec<FileInfo> {
    let mut files: Vec<FileInfo> = Vec::new();
    scan_directory("/downloads", entries, config, &mut files, not_before);
    files
}

#[test]
fn cutoff_boundary_is_inclusive() {
    let entries = vec![file("at_cutoff", 1, 1000), file("older", 1, 999), file("newer", 1, 1001)];
    let config = config_with(Vec::new(), 20);
    let names: Vec<String> = scan(&entries, &config, 1000).into_iter().map(|f| f.name).collect();
    assert_eq!(names, vec![String::from("at_cutoff"), String::from("newer")]);
}

#[test]
fn hidden_and_blacklisted_entries_are_skipped_at_every_depth() {
    let entries = vec![
        file(".hidden", 1, 2000),
        file("kept", 1, 2000),
        file("junk.tmp", 1, 2000),
        dir(".secret", vec![file("inside_hidden_dir", 1, 2000)]),
        dir("sub", vec![
            file(".also_hidden", 1, 2000),
            file("deep.tmp", 1, 2000),
            file("deep_kept", 1, 2000),
            dir("tmp_cache", vec![file("inside_blacklisted_dir", 1, 2000)]),
        ]),
    ];
    let config = config_with(vec![String::from("tmp")], 20);
    let names: Vec<String> = scan(&entries, &config, 0).into_iter().map(|f| f.name).collect();
    assert_eq!(names, vec![String::from("kept"), String::from("deep_kept")]);
}

#[test]
fn scan_builds_full_paths() {
    let entries = vec![dir("sub", vec![file("a.txt", 1, 100)])];
    let config = config_with(Vec::new(), 20);
    let found = scan(&entries, &config, 0);
    assert_eq!(found.len(), 1);
    assert_eq!(found[0].path, "/downloads/sub/a.txt");
}

#[test]
fn two_recent_files_come_newest_first() {
    // created at 10:00 and 10:05, the clock at 10:10, a 20-minute window:
    // both qualify, the 10:05 one first
    let sources = vec![SourceTree {
        path: String::from("/downloads"),
        entries: vec![file("ten_oclock", 10, 36000), file("five_past", 20, 36300)],
    }];
    let config = config_with(Vec::new(), 20);
    let files = find_recent_files(&sources, &config, 36600).unwrap();
    let names: Vec<&str> = files.iter().map(|f| f.name.as_str()).collect();
    assert_eq!(names, vec!["five_past", "ten_oclock"]);
    assert_eq!(files[0].created_timestamp, 36300);
    assert_eq!(files[1].created_timestamp, 36000);
}

#[test]
fn equal_timestamps_keep_encounter_order() {
    let sources = vec![SourceTree {
        path: String::from("/downloads"),
        entries: vec![
            file("first", 1, 500),
            file("second", 1, 500),
            file("newest", 1, 900),
            file("third", 1, 500),
        ],
    }];
    let config = config_with(Vec::new(), 20);
    let files = find_recent_files(&sources, &config, 1500).unwrap();
    let names: Vec<&str> = files.iter().map(|f| f.name.as_str()).collect();
    assert_eq!(names, vec!["newest", "first", "second", "third"]);
}

#[test]
fn sources_are_scanned_in_configuration_order() {
    let sources = vec![
        SourceTree { path: String::from("/a"), entries: vec![file("same_age_a", 1, 700)] },
        SourceTree { path: String::from("/b"), entries: vec![file("same_age_b", 1, 700)] },
    ];
    let config = config_with(Vec::new(), 20);
    let files = find_recent_files(&sources, &config, 1500).unwrap();
    let names: Vec<&str> = files.iter().map(|f| f.name.as_str()).collect();
    assert_eq!(names, vec!["same_age_a", "same_age_b"]);
    assert_eq!(files[0].path, "/a/same_age_a");
    assert_eq!(files[1].path, "/b/same_age_b");
}

#[test]
fn column_widths_are_uniform_and_padded_by_two() {
    let sources = vec![SourceTree {
        path: String::from("/downloads"),
        entries: vec![file("small", 100, 600), file("large", 2048, 700)],
    }];
    let config = config_with(Vec::new(), 20);
    let files = find_recent_files(&sources, &config, 1500).unwrap();
    // time strings are always five characters; sizes render as "100B" and
    // "2.0KB", so the widest is five
    for f in &files {
        assert_eq!(f.time_width, 5 + 2);
        assert_eq!(f.size_width, 5 + 2);
    }
}

#[test]
fn empty_scan_returns_empty_list() {
    let sources: Vec<SourceTree> = Vec::new();
    let config = config_with(Vec::new(), 20);
    let files = find_recent_files(&sources, &config, 2000).unwrap();
    assert!(files.is_empty());
}

#[test]
fn window_wider_than_the_clock_is_an_underflow_error() {
    let sources: Vec<SourceTree> = Vec::new();
    let config = config_with(Vec::new(), 20);
    // 20 minutes = 1200 seconds, but the clock reads 100
    assert_eq!(
        find_recent_files(&sources, &config, 100).unwrap_err(),
        ScanError::TimestampUnderflow
    );
}

#[test]
fn window_overflowing_a_timestamp_is_an_error() {
    let sources: Vec<SourceTree> = Vec::new();
    let config = config_with(Vec::new(), u64::MAX / 60 + 1);
    assert_eq!(find_recent_files(&sources, &config, 1000).unwrap_err(), ScanError::WindowOverflow);
}

#[test]
fn local_time_string_has_clock_shape() {
    let sources = vec![SourceTree {
        path: String::from("/downloads"),
        entries: vec![file("a", 1, 36300)],
    }];
    let config = config_with(Vec::new(), 20);
    let files = find_recent_files(&sources, &config, 36600).unwrap();
    let t = &files[0].created_time;
    assert_eq!(t.len(), 5);
    let bytes = t.as_bytes();
    assert!(bytes[0].is_ascii_digit());
    assert!(bytes[1].is_ascii_digit());
    assert_eq!(bytes[2], b':');
    assert!(bytes[3].is_ascii_digit());
    assert!(bytes[4].is_ascii_digit());
}
