//! The recursive scan: walking a directory tree depth first, keeping the
//! files that are recent enough and whose names pass the hidden-name and
//! blacklist filters, at every depth.

use vstd::prelude::*;
use vstd::string::StrSliceExecFns;
use vstd::string::StringExecFns;
use crate::config::Config;
use crate::file_info::FileInfo;
use crate::fs_model::{Entry, FsNode, SourceTree, join_path};
use crate::size_format::size_chars;
use crate::sorting::{sort_desc, sort_files};
use crate::text::{excluded_name, name_excluded};
use crate::time_format::{hhmm_chars, valid_offset};

verus! {

/// The descriptor `f` records the model entry `e`: same path, name, size
/// and timestamp, and a local `HH:MM` string spelled with some valid zone
/// offset (the offset is the machine's, so only its range is known).
pub open spec fn entry_ok(f: FileInfo, e: Entry) -> bool {
    &&& f.path@ == e.path
    &&& f.name@ == e.name
    &&& f.size == e.size
    &&& f.created_timestamp == e.created
    &&& exists|off: int| valid_offset(off) && f.created_time@ == hhmm_chars(e.created as int + off)
}

/// The descriptors record exactly the model entries, in order.
pub open spec fn entries_match(fs: Seq<FileInfo>, es: Seq<Entry>) -> bool {
    &&& fs.len() == es.len()
    &&& forall|i: int| 0 <= i < es.len() ==> entry_ok(fs[i], es[i])
}

/// What the scan keeps out of one directory entry: nothing if its name is
/// excluded; a file if it is recent enough (the cutoff itself is included);
/// the recursive scan of a subdirectory otherwise.
pub open spec fn scan_entry(
    node: FsNode,
    dir: Seq<char>,
    black_list: Seq<Seq<char>>,
    not_before: u64,
) -> Seq<Entry>
    decreases node,
{
    match node {
        FsNode::File { name, size, created } => {
            if excluded_name(name@, black_list) || created < not_before {
                Seq::empty()
            } else {
                seq![Entry { path: join_path(dir, name@), name: name@, size, created }]
            }
        },
        FsNode::Dir { name, entries } => {
            if excluded_name(name@, black_list) {
                Seq::empty()
            } else {
                scan_entries(entries@, join_path(dir, name@), black_list, not_before, 0)
            }
        },
    }
}

/// The scan of a directory listing from entry `i` on, depth first in order.
pub open spec fn scan_entries(
    s: Seq<FsNode>,
    dir: Seq<char>,
    black_list: Seq<Seq<char>>,
    not_before: u64,
    i: int,
) -> Seq<Entry>
    decreases s, s.len() - i,
{
    if 0 <= i < s.len() {
        scan_entry(s[i], dir, black_list, not_before) + scan_entries(
            s,
            dir,
            black_list,
            not_before,
            i + 1,
        )
    } else {
        Seq::empty()
    }
}

/// The scan of the first `i` entries of a listing.
pub open spec fn scan_prefix(
    s: Seq<FsNode>,
    dir: Seq<char>,
    black_list: Seq<Seq<char>>,
    not_before: u64,
    i: int,
) -> Seq<Entry>
    decreases i,
{
    if i <= 0 {
        Seq::empty()
    } else {
        scan_prefix(s, dir, black_list, not_before, i - 1) + scan_entry(
            s[i - 1],
            dir,
            black_list,
            not_before,
        )
    }
}

proof fn lemma_scan_prefix_full(
    s: Seq<FsNode>,
    dir: Seq<char>,
    black_list: Seq<Seq<char>>,
    not_before: u64,
    i: int,
)
    requires
        0 <= i <= s.len(),
    ensures
        scan_prefix(s, dir, black_list, not_before, i) + scan_entries(
            s,
            dir,
            black_list,
            not_before,
            i,
        ) == scan_entries(s, dir, black_list, not_before, 0),
    decreases i,
{
    if i == 0 {
        assert(scan_prefix(s, dir, black_list, not_before, 0) + scan_entries(
            s,
            dir,
            black_list,
            not_before,
            0,
        ) =~= scan_entries(s, dir, black_list, not_before, 0));
    } else {
        lemma_scan_prefix_full(s, dir, black_list, not_before, i - 1);
        assert(scan_prefix(s, dir, black_list, not_before, i) + scan_entries(
            s,
            dir,
            black_list,
            not_before,
            i,
        ) =~= scan_prefix(s, dir, black_list, not_before, i - 1) + (scan_entry(
            s[i - 1],
            dir,
            black_list,
            not_before,
        ) + scan_entries(s, dir, black_list, not_before, i)));
    }
}

proof fn lemma_entries_match_concat(
    fa: Seq<FileInfo>,
    ea: Seq<Entry>,
    fb: Seq<FileInfo>,
    eb: Seq<Entry>,
)
    requires
        entries_match(fa, ea),
        entries_match(fb, eb),
    ensures
        entries_match(fa + fb, ea + eb),
{
    assert forall|i: int| 0 <= i < (ea + eb).len() implies entry_ok((fa + fb)[i], (ea + eb)[i]) by {
        if i < ea.len() {
            assert((fa + fb)[i] == fa[i]);
        } else {
            assert((fa + fb)[i] == fb[i - ea.len()]);
        }
    }
}

/// Builds the descriptor for one kept file: full path, name, size, the
/// local `HH:MM` string, and placeholder widths that the presenter fills
/// in once the whole list is known.
fn make_file_info(dir_path: &str, name: &String, size: u64, created: u64) -> (f: FileInfo)
    ensures
        entry_ok(
            f,
            Entry { path: join_path(dir_path@, name@), name: name@, size, created },
        ),
        f.time_width == 5,
        f.size_width == 8,
{
    let mut p = dir_path.to_owned();
    p.append("/");
    p.append(name.as_str());
    proof {
        reveal_strlit("/");
        assert(p@ =~= join_path(dir_path@, name@));
    }
    let time_str = crate::time_format::local_hhmm(created);
    FileInfo {
        path: p,
        name: name.clone(),
        size,
        created_time: time_str,
        created_timestamp: created,
        time_width: 5,
        size_width: 8,
    }
}

/// Scans one directory entry; a subdirectory is walked recursively.
fn scan_node(node: &FsNode, dir_path: &str, config: &Config, not_before: u64) -> (out: Vec<
    FileInfo,
>)
    ensures
        entries_match(
            out@,
            scan_entry(*node, dir_path@, config.black_list.deep_view(), not_before),
        ),
    decreases *node,
{
    match node {
        FsNode::File { name, size, created } => {
            let mut out: Vec<FileInfo> = Vec::new();
            if name_excluded(name.as_str(), &config.black_list) || *created < not_before {
                out
            } else {
                let f = make_file_info(dir_path, name, *size, *created);
                out.push(f);
                out
            }
        },
        FsNode::Dir { name, entries } => {
            if name_excluded(name.as_str(), &config.black_list) {
                Vec::new()
            } else {
                let mut p = dir_path.to_owned();
                p.append("/");
                p.append(name.as_str());
                proof {
                    reveal_strlit("/");
                    assert(p@ =~= join_path(dir_path@, name@));
                }
                scan_listing(p.as_str(), entries, config, not_before)
            }
        },
    }
}

/// Scans a whole directory listing in order.
fn scan_listing(dir_path: &str, entries: &Vec<FsNode>, config: &Config, not_before: u64) -> (out:
    Vec<FileInfo>)
    ensures
        entries_match(
            out@,
            scan_entries(entries@, dir_path@, config.black_list.deep_view(), not_before, 0),
        ),
    decreases *entries,
{
    let ghost bl = config.black_list.deep_view();
    let mut out: Vec<FileInfo> = Vec::new();
    let mut i: usize = 0;
    while i < entries.len()
        invariant
            i <= entries@.len(),
            entries_match(out@, scan_prefix(entries@, dir_path@, bl, not_before, i as int)),
            bl == config.black_list.deep_view(),
        decreases entries@.len() - i,
    {
        let ghost out_before = out@;
        let mut part = scan_node(&entries[i], dir_path, config, not_before);
        let ghost part_view = part@;
        out.append(&mut part);
        proof {
            lemma_entries_match_concat(
                out_before,
                scan_prefix(entries@, dir_path@, bl, not_before, i as int),
                part_view,
                scan_entry(entries@[i as int], dir_path@, bl, not_before),
            );
            assert(scan_prefix(entries@, dir_path@, bl, not_before, i as int + 1)
                == scan_prefix(entries@, dir_path@, bl, not_before, i as int) + scan_entry(
                entries@[i as int],
                dir_path@,
                bl,
                not_before,
            ));
        }
        i = i + 1;
    }
    proof {
        lemma_scan_prefix_full(entries@, dir_path@, bl, not_before, entries@.len() as int);
        assert(out@ =~= out@ + Seq::<FileInfo>::empty());
        assert(scan_prefix(entries@, dir_path@, bl, not_before, entries@.len() as int)
            + scan_entries(entries@, dir_path@, bl, not_before, entries@.len() as int)
            =~= scan_prefix(entries@, dir_path@, bl, not_before, entries@.len() as int));
    }
    out
}

/// Walks the listing of one directory and appends every kept file's
/// descriptor to `files`, in the depth-first order of the walk.
pub fn scan_directory(
    dir_path: &str,
    entries: &Vec<FsNode>,
    config: &Config,
    files: &mut Vec<FileInfo>,
    not_before: u64,
)
    ensures
        final(files)@.len() == old(files)@.len() + scan_entries(
            entries@,
            dir_path@,
            config.black_list.deep_view(),
            not_before,
            0,
        ).len(),
        final(files)@.subrange(0, old(files)@.len() as int) == old(files)@,
        entries_match(
            final(files)@.skip(old(files)@.len() as int),
            scan_entries(entries@, dir_path@, config.black_list.deep_view(), not_before, 0),
        ),
{
    let mut got = scan_listing(dir_path, entries, config, not_before);
    let ghost got_view = got@;
    files.append(&mut got);
    proof {
        assert(files@.subrange(0, old(files)@.len() as int) =~= old(files)@);
        assert(files@.skip(old(files)@.len() as int) =~= got_view);
    }
}

/// What can go wrong before any directory is looked at: the window in
/// seconds does not fit a timestamp, or the clock lies before the window's
/// start, so the cutoff would underflow.
#[derive(Clone, Copy, Debug, PartialEq, Eq, Structural)]
pub enum ScanError {
    WindowOverflow,
    TimestampUnderflow,
}

/// The scan of all existing source directories, from the `i`-th on, in
/// configuration order.
pub open spec fn scan_sources(
    sources: Seq<SourceTree>,
    black_list: Seq<Seq<char>>,
    not_before: u64,
    i: int,
) -> Seq<Entry>
    decreases sources.len() - i,
{
    if 0 <= i < sources.len() {
        scan_entries(sources[i].entries@, sources[i].path@, black_list, not_before, 0)
            + scan_sources(sources, black_list, not_before, i + 1)
    } else {
        Seq::empty()
    }
}

/// The scan of the first `i` source directories.
pub open spec fn scan_sources_prefix(
    sources: Seq<SourceTree>,
    black_list: Seq<Seq<char>>,
    not_before: u64,
    i: int,
) -> Seq<Entry>
    decreases i,
{
    if i <= 0 {
        Seq::empty()
    } else {
        scan_sources_prefix(sources, black_list, not_before, i - 1) + scan_entries(
            sources[i - 1].entries@,
            sources[i - 1].path@,
            black_list,
            not_before,
            0,
        )
    }
}

proof fn lemma_scan_sources_prefix_full(
    sources: Seq<SourceTree>,
    black_list: Seq<Seq<char>>,
    not_before: u64,
    i: int,
)
    requires
        0 <= i <= sources.len(),
    ensures
        scan_sources_prefix(sources, black_list, not_before, i) + scan_sources(
            sources,
            black_list,
            not_before,
            i,
        ) == scan_sources(sources, black_list, not_before, 0),
    decreases i,
{
    if i == 0 {
        assert(scan_sources_prefix(sources, black_list, not_before, 0) + scan_sources(
            sources,
            black_list,
            not_before,
            0,
        ) =~= scan_sources(sources, black_list, not_before, 0));
    } else {
        lemma_scan_sources_prefix_full(sources, black_list, not_before, i - 1);
        assert(scan_sources_prefix(sources, black_list, not_before, i) + scan_sources(
            sources,
            black_list,
            not_before,
            i,
        ) =~= scan_sources_prefix(sources, black_list, not_before, i - 1) + (scan_entries(
            sources[i - 1].entries@,
            sources[i - 1].path@,
            black_list,
            not_before,
            0,
        ) + scan_sources(sources, black_list, not_before, i)));
    }
}

/// The widest rendered time column, or the fallback of 8 for an empty
/// list.
pub open spec fn max_time_len(s: Seq<FileInfo>) -> int
    decreases s.len(),
{
    if s.len() == 0 {
        8
    } else if s.len() == 1 {
        s[0].created_time@.len() as int
    } else {
        let m = max_time_len(s.drop_last());
        let l = s.last().created_time@.len() as int;
        if l > m {
            l
        } else {
            m
        }
    }
}

/// The widest rendered size column, or the fallback of 10 for an empty
/// list.
pub open spec fn max_size_len(s: Seq<FileInfo>) -> int
    decreases s.len(),
{
    if s.len() == 0 {
        10
    } else if s.len() == 1 {
        size_chars(s[0].size).len() as int
    } else {
        let m = max_size_len(s.drop_last());
        let l = size_chars(s.last().size).len() as int;
        if l > m {
            l
        } else {
            m
        }
    }
}

proof fn lemma_max_time_len_bound(s: Seq<FileInfo>)
    requires
        forall|i: int| 0 <= i < s.len() ==> #[trigger] s[i].created_time@.len() <= 5,
    ensures
        0 <= max_time_len(s) <= 8,
    decreases s.len(),
{
    if s.len() > 1 {
        lemma_max_time_len_bound(s.drop_last());
    }
}

proof fn lemma_max_size_len_bound(s: Seq<FileInfo>)
    ensures
        0 <= max_size_len(s) <= 24,
    decreases s.len(),
{
    if s.len() == 1 {
        crate::size_format::lemma_size_chars_len(s[0].size);
    } else if s.len() > 1 {
        lemma_max_size_len_bound(s.drop_last());
        crate::size_format::lemma_size_chars_len(s.last().size);
    }
}

/// Every descriptor with its two width fields set to the list-wide values.
pub open spec fn with_widths(s: Seq<FileInfo>, tw: usize, sw: usize) -> Seq<FileInfo> {
    s.map_values(
        |f: FileInfo|
            FileInfo {
                path: f.path,
                name: f.name,
                size: f.size,
                created_time: f.created_time,
                created_timestamp: f.created_timestamp,
                time_width: tw,
                size_width: sw,
            },
    )
}

/// The time-column width of the list: the widest time plus two.
fn compute_time_width(files: &Vec<FileInfo>) -> (w: usize)
    requires
        forall|i: int| 0 <= i < files@.len() ==> #[trigger] files@[i].created_time@.len() <= 5,
    ensures
        w as int == max_time_len(files@) + 2,
{
    proof {
        lemma_max_time_len_bound(files@);
    }
    if files.len() == 0 {
        return 10;
    }
    let mut m: usize = files[0].created_time.as_str().unicode_len();
    let mut i: usize = 1;
    proof {
        assert(files@.take(1).len() == 1);
        assert(files@.take(1)[0] == files@[0]);
    }
    while i < files.len()
        invariant
            1 <= i <= files@.len(),
            files@.len() >= 1,
            forall|k: int| 0 <= k < files@.len() ==> #[trigger] files@[k].created_time@.len() <= 5,
            m as int == max_time_len(files@.take(i as int)),
        decreases files@.len() - i,
    {
        let l = files[i].created_time.as_str().unicode_len();
        proof {
            assert(files@.take(i as int + 1).drop_last() =~= files@.take(i as int));
            assert(files@.take(i as int + 1).last() == files@[i as int]);
        }
        if l > m {
            m = l;
        }
        i = i + 1;
    }
    proof {
        assert(files@.take(files@.len() as int) =~= files@);
        lemma_max_time_len_bound(files@);
    }
    m + 2
}

/// The size-column width of the list: the widest rendered size plus two.
fn compute_size_width(files: &Vec<FileInfo>) -> (w: usize)
    ensures
        w as int == max_size_len(files@) + 2,
{
    proof {
        lemma_max_size_len_bound(files@);
    }
    if files.len() == 0 {
        return 12;
    }
    let first = crate::size_format::format_size(files[0].size);
    let mut m: usize = first.as_str().unicode_len();
    let mut i: usize = 1;
    proof {
        assert(files@.take(1).len() == 1);
        assert(files@.take(1)[0] == files@[0]);
    }
    while i < files.len()
        invariant
            1 <= i <= files@.len(),
            files@.len() >= 1,
            m as int == max_size_len(files@.take(i as int)),
        decreases files@.len() - i,
    {
        let rendered = crate::size_format::format_size(files[i].size);
        let l = rendered.as_str().unicode_len();
        proof {
            assert(files@.take(i as int + 1).drop_last() =~= files@.take(i as int));
            assert(files@.take(i as int + 1).last() == files@[i as int]);
        }
        if l > m {
            m = l;
        }
        i = i + 1;
    }
    proof {
        assert(files@.take(files@.len() as int) =~= files@);
        lemma_max_size_len_bound(files@);
    }
    m + 2
}

/// Stamps the agreed column widths on every descriptor.
fn apply_widths(files: Vec<FileInfo>, tw: usize, sw: usize) -> (r: Vec<FileInfo>)
    ensures
        r@ == with_widths(files@, tw, sw),
{
    let ghost orig = files@;
    let mut rest = files;
    let mut out: Vec<FileInfo> = Vec::new();
    proof {
        assert(out@ =~= with_widths(orig.take(0), tw, sw));
    }
    while rest.len() > 0
        invariant
            rest@.len() <= orig.len(),
            rest@ == orig.skip(orig.len() - rest@.len()),
            out@ == with_widths(orig.take(orig.len() - rest@.len()), tw, sw),
        decreases rest@.len(),
    {
        let ghost done = orig.len() - rest@.len();
        let f = rest.remove(0);
        proof {
            assert(orig.skip(done).remove(0) =~= orig.skip(done + 1));
            assert(f == orig[done]);
        }
        out.push(
            FileInfo {
                path: f.path,
                name: f.name,
                size: f.size,
                created_time: f.created_time,
                created_timestamp: f.created_timestamp,
                time_width: tw,
                size_width: sw,
            },
        );
        proof {
            assert(out@ =~= with_widths(orig.take(done + 1), tw, sw));
        }
    }
    proof {
        assert(orig.take(orig.len() as int) =~= orig);
    }
    out
}

/// Scans every existing source directory, sorts the findings newest first
/// (stably), and stamps the two column widths on every descriptor.
///
/// `sources` holds, in configuration order, each configured source
/// directory that exists, with the tree read under it; `current_time` is
/// the clock in epoch seconds. The cutoff is the clock minus the window;
/// the call fails exactly when the window in seconds overflows a
/// timestamp, or lies before the epoch-relative clock.
pub fn find_recent_files(sources: &Vec<SourceTree>, config: &Config, current_time: u64) -> (r:
    Result<Vec<FileInfo>, ScanError>)
    ensures
        ({
            let black_list = config.black_list.deep_view();
            let window = config.time_limit as int * 60;
            match r {
                Ok(files) => {
                    &&& window <= u64::MAX
                    &&& window <= current_time
                    &&& exists|collected: Seq<FileInfo>|
                        {
                            let ordered = sort_desc(collected);
                            let tw = (max_time_len(ordered) + 2) as usize;
                            let sw = (max_size_len(ordered) + 2) as usize;
                            &&& #[trigger] entries_match(
                                collected,
                                scan_sources(
                                    sources@,
                                    black_list,
                                    (current_time - window) as u64,
                                    0,
                                ),
                            )
                            &&& files@ == with_widths(ordered, tw, sw)
                        }
                    &&& forall|i: int, j: int|
                        0 <= i < j < files@.len() ==> files@[i].created_timestamp
                            >= files@[j].created_timestamp
                    &&& forall|i: int, j: int|
                        0 <= i < files@.len() && 0 <= j < files@.len() ==> files@[i].time_width
                            == files@[j].time_width && files@[i].size_width
                            == files@[j].size_width
                },
                Err(e) => {
                    &&& (e == ScanError::WindowOverflow <==> window > u64::MAX)
                    &&& (e == ScanError::TimestampUnderflow <==> window <= u64::MAX && window
                        > current_time)
                },
            }
        }),
{
    let ghost black_list = config.black_list.deep_view();
    if config.time_limit > u64::MAX / 60 {
        proof {
            assert(config.time_limit as int * 60 > u64::MAX) by (nonlinear_arith)
                requires
                    config.time_limit as int > u64::MAX as int / 60,
            ;
        }
        return Err(ScanError::WindowOverflow);
    }
    let window: u64 = config.time_limit * 60;
    proof {
        assert(config.time_limit as int * 60 <= u64::MAX) by (nonlinear_arith)
            requires
                config.time_limit as int <= u64::MAX as int / 60,
        ;
    }
    if window > current_time {
        return Err(ScanError::TimestampUnderflow);
    }
    let not_before: u64 = current_time - window;
    let mut collected: Vec<FileInfo> = Vec::new();
    let mut i: usize = 0;
    while i < sources.len()
        invariant
            i <= sources@.len(),
            entries_match(
                collected@,
                scan_sources_prefix(sources@, black_list, not_before, i as int),
            ),
            black_list == config.black_list.deep_view(),
        decreases sources@.len() - i,
    {
        let ghost before = collected@;
        let source = &sources[i];
        scan_directory(
            source.path.as_str(),
            &source.entries,
            config,
            &mut collected,
            not_before,
        );
        proof {
            let scanned = scan_entries(
                sources@[i as int].entries@,
                sources@[i as int].path@,
                black_list,
                not_before,
                0,
            );
            assert(collected@.skip(before.len() as int) =~= collected@.subrange(
                before.len() as int,
                collected@.len() as int,
            ));
            lemma_entries_match_concat(
                before,
                scan_sources_prefix(sources@, black_list, not_before, i as int),
                collected@.skip(before.len() as int),
                scanned,
            );
            assert(before + collected@.skip(before.len() as int) =~= collected@);
            assert(scan_sources_prefix(sources@, black_list, not_before, i as int + 1)
                == scan_sources_prefix(sources@, black_list, not_before, i as int) + scanned);
        }
        i = i + 1;
    }
    proof {
        lemma_scan_sources_prefix_full(sources@, black_list, not_before, sources@.len() as int);
        assert(scan_sources_prefix(sources@, black_list, not_before, sources@.len() as int)
            + Seq::<Entry>::empty() =~= scan_sources_prefix(
            sources@,
            black_list,
            not_before,
            sources@.len() as int,
        ));
    }
    let ghost collected_view = collected@;
    let ghost scanned_all = scan_sources(sources@, black_list, not_before, 0);
    let ordered = sort_files(collected);
    proof {
        crate::sorting::lemma_sort_desc_sorted(collected_view);
        crate::sorting::lemma_sort_desc_permutes(collected_view);
        broadcast use vstd::seq_lib::group_to_multiset_ensures;

        assert forall|k: int| 0 <= k < ordered@.len() implies #[trigger] ordered@[k].created_time@.len()
            <= 5 by {
            assert(ordered@.to_multiset().contains(ordered@[k]));
            assert(collected_view.to_multiset().contains(ordered@[k]));
            let j = choose|j: int| 0 <= j < collected_view.len() && collected_view[j] == ordered@[k];
            assert(entry_ok(collected_view[j], scanned_all[j]));
            crate::time_format::lemma_hhmm_len(
                scanned_all[j].created as int + choose|off: int|
                    valid_offset(off) && collected_view[j].created_time@ == hhmm_chars(
                        scanned_all[j].created as int + off,
                    ),
            );
        }
    }
    let tw = compute_time_width(&ordered);
    let sw = compute_size_width(&ordered);
    let files = apply_widths(ordered, tw, sw);
    proof {
        let ordered_view = sort_desc(collected_view);
        assert(entries_match(collected_view, scan_sources(sources@, black_list, not_before, 0)));
        assert(files@ == with_widths(
            ordered_view,
            (max_time_len(ordered_view) + 2) as usize,
            (max_size_len(ordered_view) + 2) as usize,
        ));
        assert forall|a: int, b: int| 0 <= a < b < files@.len() implies files@[a].created_timestamp
            >= files@[b].created_timestamp by {
            assert(files@[a].created_timestamp == ordered_view[a].created_timestamp);
            assert(files@[b].created_timestamp == ordered_view[b].created_timestamp);
        }
    }
    Ok(files)
}

} // verus!
