//! What the scan keeps and what it skips, proved in both directions: an
//! entry comes out if and only if it is a file reachable through uncensored
//! names whose creation time is at or after the cutoff.

use vstd::prelude::*;
use crate::fs_model::{Entry, FsNode, join_path};
use crate::scanning::{scan_entries, scan_entry};
use crate::text::excluded_name;

verus! {

/// `idxs` descends from `node` through subdirectory positions and ends on
/// a file.
pub open spec fn file_at(node: FsNode, idxs: Seq<int>) -> bool
    decreases idxs.len(),
{
    match node {
        FsNode::File { .. } => idxs.len() == 0,
        FsNode::Dir { entries, .. } => {
            &&& idxs.len() > 0
            &&& 0 <= idxs[0] < entries@.len()
            &&& file_at(entries@[idxs[0]], idxs.drop_first())
        },
    }
}

/// The name of a node, file or directory.
pub open spec fn node_name(node: FsNode) -> Seq<char> {
    match node {
        FsNode::File { name, .. } => name@,
        FsNode::Dir { name, .. } => name@,
    }
}

/// Every name along the descent — the entered directories' and the file's
/// own — passes the hidden-name and blacklist filters.
pub open spec fn names_clean(node: FsNode, idxs: Seq<int>, black_list: Seq<Seq<char>>) -> bool
    decreases idxs.len(),
{
    match node {
        FsNode::File { .. } => !excluded_name(node_name(node), black_list),
        FsNode::Dir { entries, .. } => {
            &&& !excluded_name(node_name(node), black_list)
            &&& idxs.len() > 0
            &&& 0 <= idxs[0] < entries@.len()
            &&& names_clean(entries@[idxs[0]], idxs.drop_first(), black_list)
        },
    }
}

/// The model entry of the file that `idxs` reaches, with its path built
/// from `dir` downward.
pub open spec fn file_entry(node: FsNode, idxs: Seq<int>, dir: Seq<char>) -> Entry
    decreases idxs.len(),
{
    match node {
        FsNode::File { name, size, created } => Entry {
            path: join_path(dir, name@),
            name: name@,
            size,
            created,
        },
        FsNode::Dir { name, entries } => {
            if idxs.len() > 0 && 0 <= idxs[0] < entries@.len() {
                file_entry(entries@[idxs[0]], idxs.drop_first(), join_path(dir, name@))
            } else {
                Entry { path: dir, name: Seq::empty(), size: 0, created: 0 }
            }
        },
    }
}

proof fn lemma_concat_index_left(a: Seq<Entry>, b: Seq<Entry>, j: int)
    requires
        0 <= j < a.len(),
    ensures
        (a + b)[j] == a[j],
{
}

/// Everything the scan of one entry produces is a reachable file, seen
/// through clean names only, and no older than the cutoff (the cutoff
/// itself included).
pub proof fn lemma_scan_entry_sound(
    node: FsNode,
    dir: Seq<char>,
    black_list: Seq<Seq<char>>,
    not_before: u64,
    j: int,
)
    requires
        0 <= j < scan_entry(node, dir, black_list, not_before).len(),
    ensures
        scan_entry(node, dir, black_list, not_before)[j].created >= not_before,
        exists|idxs: Seq<int>|
            {
                &&& #[trigger] file_at(node, idxs)
                &&& names_clean(node, idxs, black_list)
                &&& scan_entry(node, dir, black_list, not_before)[j] == file_entry(
                    node,
                    idxs,
                    dir,
                )
            },
    decreases node, 1int,
{
    let out = scan_entry(node, dir, black_list, not_before);
    match node {
        FsNode::File { name, size, created } => {
            let idxs: Seq<int> = Seq::empty();
            assert(file_at(node, idxs));
            assert(names_clean(node, idxs, black_list));
            assert(out[j] == file_entry(node, idxs, dir));
        },
        FsNode::Dir { name, entries } => {
            let sub = join_path(dir, name@);
            lemma_scan_entries_sound(entries@, sub, black_list, not_before, 0, j);
            let inner = choose|pair: (int, Seq<int>)|
                {
                    &&& 0 <= pair.0 < entries@.len()
                    &&& #[trigger] file_at(entries@[pair.0], pair.1)
                    &&& names_clean(entries@[pair.0], pair.1, black_list)
                    &&& scan_entries(entries@, sub, black_list, not_before, 0)[j] == file_entry(
                        entries@[pair.0],
                        pair.1,
                        sub,
                    )
                };
            let idxs = seq![inner.0] + inner.1;
            assert(idxs.drop_first() =~= inner.1);
            assert(file_at(node, idxs));
            assert(names_clean(node, idxs, black_list));
            assert(out[j] == file_entry(node, idxs, dir));
        },
    }
}

proof fn lemma_scan_entries_sound(
    s: Seq<FsNode>,
    dir: Seq<char>,
    black_list: Seq<Seq<char>>,
    not_before: u64,
    i: int,
    j: int,
)
    requires
        0 <= i <= s.len(),
        0 <= j < scan_entries(s, dir, black_list, not_before, i).len(),
    ensures
        scan_entries(s, dir, black_list, not_before, i)[j].created >= not_before,
        exists|pair: (int, Seq<int>)|
            {
                &&& i <= pair.0 < s.len()
                &&& #[trigger] file_at(s[pair.0], pair.1)
                &&& names_clean(s[pair.0], pair.1, black_list)
                &&& scan_entries(s, dir, black_list, not_before, i)[j] == file_entry(
                    s[pair.0],
                    pair.1,
                    dir,
                )
            },
    decreases s, 0int, s.len() - i,
{
    let out = scan_entries(s, dir, black_list, not_before, i);
    let head = scan_entry(s[i], dir, black_list, not_before);
    let rest = scan_entries(s, dir, black_list, not_before, i + 1);
    if j < head.len() {
        lemma_concat_index_left(head, rest, j);
        lemma_scan_entry_sound(s[i], dir, black_list, not_before, j);
        let idxs = choose|idxs: Seq<int>|
            {
                &&& #[trigger] file_at(s[i], idxs)
                &&& names_clean(s[i], idxs, black_list)
                &&& head[j] == file_entry(s[i], idxs, dir)
            };
        let pair = (i, idxs);
        assert(file_at(s[pair.0], pair.1) && names_clean(s[pair.0], pair.1, black_list) && out[j]
            == file_entry(s[pair.0], pair.1, dir));
    } else {
        lemma_scan_entries_sound(s, dir, black_list, not_before, i + 1, j - head.len());
        let inner = choose|pair: (int, Seq<int>)|
            {
                &&& i + 1 <= pair.0 < s.len()
                &&& #[trigger] file_at(s[pair.0], pair.1)
                &&& names_clean(s[pair.0], pair.1, black_list)
                &&& rest[j - head.len()] == file_entry(s[pair.0], pair.1, dir)
            };
        assert(out[j] == rest[j - head.len()]);
        assert(file_at(s[inner.0], inner.1) && names_clean(s[inner.0], inner.1, black_list) && out[j]
            == file_entry(s[inner.0], inner.1, dir));
    }
}

/// Every reachable file seen through clean names and created at or after
/// the cutoff — the boundary exactly at the cutoff included — comes out of
/// the scan.
pub proof fn lemma_scan_entry_complete(
    node: FsNode,
    dir: Seq<char>,
    black_list: Seq<Seq<char>>,
    not_before: u64,
    idxs: Seq<int>,
)
    requires
        file_at(node, idxs),
        names_clean(node, idxs, black_list),
        file_entry(node, idxs, dir).created >= not_before,
    ensures
        scan_entry(node, dir, black_list, not_before).contains(file_entry(node, idxs, dir)),
    decreases node, 1int,
{
    let out = scan_entry(node, dir, black_list, not_before);
    match node {
        FsNode::File { name, size, created } => {
            assert(out[0] == file_entry(node, idxs, dir));
        },
        FsNode::Dir { name, entries } => {
            let sub = join_path(dir, name@);
            lemma_scan_entries_complete(
                entries@,
                sub,
                black_list,
                not_before,
                0,
                idxs[0],
                idxs.drop_first(),
            );
        },
    }
}

proof fn lemma_scan_entries_complete(
    s: Seq<FsNode>,
    dir: Seq<char>,
    black_list: Seq<Seq<char>>,
    not_before: u64,
    i: int,
    k: int,
    idxs: Seq<int>,
)
    requires
        0 <= i <= k < s.len(),
        file_at(s[k], idxs),
        names_clean(s[k], idxs, black_list),
        file_entry(s[k], idxs, dir).created >= not_before,
    ensures
        scan_entries(s, dir, black_list, not_before, i).contains(file_entry(s[k], idxs, dir)),
    decreases s, 0int, s.len() - i,
{
    let out = scan_entries(s, dir, black_list, not_before, i);
    let head = scan_entry(s[i], dir, black_list, not_before);
    let rest = scan_entries(s, dir, black_list, not_before, i + 1);
    let target = file_entry(s[k], idxs, dir);
    if i == k {
        lemma_scan_entry_complete(s[i], dir, black_list, not_before, idxs);
        let j = choose|j: int| 0 <= j < head.len() && head[j] == target;
        assert(out[j] == target);
    } else {
        lemma_scan_entries_complete(s, dir, black_list, not_before, i + 1, k, idxs);
        let j = choose|j: int| 0 <= j < rest.len() && rest[j] == target;
        assert(out[head.len() + j] == target);
    }
}

} // verus!
