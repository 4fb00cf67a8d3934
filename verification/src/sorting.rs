//! Stable sorting of descriptors by creation time, newest first.
//!
//! `sort_desc` is the specification: an insertion sort that puts each next
//! element behind every already-placed element that is at least as new, so
//! elements with equal timestamps keep their encounter order. The public
//! lemmas state the three guarantees: the result is ordered newest-first,
//! it is a permutation of the input, and for every timestamp the
//! subsequence carrying it is unchanged.

use vstd::prelude::*;
use vstd::multiset::Multiset;
use vstd::seq_lib::lemma_multiset_commutative;
use crate::file_info::FileInfo;

verus! {

broadcast use vstd::seq_lib::group_to_multiset_ensures;

/// Ordered newest first (non-strictly: equal timestamps may neighbour).
pub open spec fn sorted_desc(s: Seq<FileInfo>) -> bool {
    forall|i: int, j: int|
        0 <= i < j < s.len() ==> s[i].created_timestamp >= s[j].created_timestamp
}

/// `x` placed behind every leading element that is at least as new.
pub open spec fn insert_desc(s: Seq<FileInfo>, x: FileInfo) -> Seq<FileInfo>
    decreases s.len(),
{
    if s.len() == 0 {
        seq![x]
    } else if s[0].created_timestamp >= x.created_timestamp {
        seq![s[0]] + insert_desc(s.drop_first(), x)
    } else {
        seq![x] + s
    }
}

/// Insertion sort over the encounter order: element after element, each
/// inserted behind its at-least-as-new predecessors.
pub open spec fn sort_desc(s: Seq<FileInfo>) -> Seq<FileInfo>
    decreases s.len(),
{
    if s.len() == 0 {
        Seq::empty()
    } else {
        insert_desc(sort_desc(s.drop_last()), s.last())
    }
}

/// The subsequence of `s` whose creation timestamp is exactly `t`, in the
/// order `s` has it.
pub open spec fn keep_ts(s: Seq<FileInfo>, t: u64) -> Seq<FileInfo>
    decreases s.len(),
{
    if s.len() == 0 {
        Seq::empty()
    } else if s[0].created_timestamp == t {
        seq![s[0]] + keep_ts(s.drop_first(), t)
    } else {
        keep_ts(s.drop_first(), t)
    }
}

proof fn lemma_keep_ts_add(a: Seq<FileInfo>, b: Seq<FileInfo>, t: u64)
    ensures
        keep_ts(a + b, t) == keep_ts(a, t) + keep_ts(b, t),
    decreases a.len(),
{
    if a.len() == 0 {
        assert(a + b =~= b);
        assert(keep_ts(a, t) + keep_ts(b, t) =~= keep_ts(b, t));
    } else {
        lemma_keep_ts_add(a.drop_first(), b, t);
        assert((a + b).drop_first() =~= a.drop_first() + b);
        if a[0].created_timestamp == t {
            assert(keep_ts(a + b, t) =~= keep_ts(a, t) + keep_ts(b, t));
        }
    }
}

proof fn lemma_keep_ts_absent(s: Seq<FileInfo>, t: u64)
    requires
        forall|i: int| 0 <= i < s.len() ==> s[i].created_timestamp != t,
    ensures
        keep_ts(s, t) == Seq::<FileInfo>::empty(),
    decreases s.len(),
{
    if s.len() > 0 {
        lemma_keep_ts_absent(s.drop_first(), t);
    }
}

proof fn lemma_insert_desc_ordered(s: Seq<FileInfo>, x: FileInfo)
    requires
        sorted_desc(s),
    ensures
        insert_desc(s, x).len() == s.len() + 1,
        sorted_desc(insert_desc(s, x)),
        insert_desc(s, x).to_multiset() == s.to_multiset().insert(x),
    decreases s.len(),
{
    let r = insert_desc(s, x);
    if s.len() == 0 {
        assert(r =~= Seq::empty().push(x));
        assert(r.to_multiset() =~= s.to_multiset().insert(x));
    } else if s[0].created_timestamp >= x.created_timestamp {
        let tail = s.drop_first();
        lemma_insert_desc_ordered(tail, x);
        let rt = insert_desc(tail, x);
        assert(r == seq![s[0]] + rt);
        // every element of the inserted tail is x itself or comes from the
        // tail, so the head still dominates all of them
        assert(forall|i: int| 0 <= i < rt.len() ==> rt.to_multiset().contains(#[trigger] rt[i]));
        assert(forall|y: FileInfo|
            rt.to_multiset().contains(y) ==> y == x || tail.to_multiset().contains(y));
        assert(forall|y: FileInfo|
            tail.to_multiset().contains(y) ==> exists|j: int|
                0 <= j < tail.len() && tail[j] == y);
        assert(forall|i: int|
            0 <= i < rt.len() ==> s[0].created_timestamp >= rt[i].created_timestamp);
        assert(forall|i: int, j: int|
            0 <= i < j < r.len() ==> r[i].created_timestamp >= r[j].created_timestamp);
        lemma_multiset_commutative(seq![s[0]], rt);
        assert(seq![s[0]].to_multiset() =~= Multiset::<FileInfo>::empty().insert(s[0]));
        assert(s =~= seq![s[0]] + tail);
        lemma_multiset_commutative(seq![s[0]], tail);
        assert(r.to_multiset() =~= s.to_multiset().insert(x));
    } else {
        assert(forall|i: int|
            0 <= i < s.len() ==> x.created_timestamp > s[i].created_timestamp);
        assert(forall|i: int, j: int|
            0 <= i < j < r.len() ==> r[i].created_timestamp >= r[j].created_timestamp);
        lemma_multiset_commutative(seq![x], s);
        assert(seq![x].to_multiset() =~= Multiset::<FileInfo>::empty().insert(x));
        assert(r.to_multiset() =~= s.to_multiset().insert(x));
    }
}

proof fn lemma_keep_ts_single(x: FileInfo, t: u64)
    ensures
        keep_ts(seq![x], t) == if x.created_timestamp == t {
            seq![x]
        } else {
            Seq::<FileInfo>::empty()
        },
{
    assert(seq![x].drop_first() =~= Seq::<FileInfo>::empty());
    assert(keep_ts(Seq::<FileInfo>::empty(), t) == Seq::<FileInfo>::empty());
    if x.created_timestamp == t {
        assert(keep_ts(seq![x], t) =~= seq![x]);
    }
}

proof fn lemma_insert_desc_stable(s: Seq<FileInfo>, x: FileInfo, t: u64)
    requires
        sorted_desc(s),
    ensures
        keep_ts(insert_desc(s, x), t) == if x.created_timestamp == t {
            keep_ts(s, t) + seq![x]
        } else {
            keep_ts(s, t)
        },
    decreases s.len(),
{
    let r = insert_desc(s, x);
    if s.len() == 0 {
        lemma_keep_ts_single(x, t);
        if x.created_timestamp == t {
            assert(keep_ts(r, t) =~= keep_ts(s, t) + seq![x]);
        }
    } else if s[0].created_timestamp >= x.created_timestamp {
        let tail = s.drop_first();
        lemma_insert_desc_stable(tail, x, t);
        lemma_keep_ts_add(seq![s[0]], insert_desc(tail, x), t);
        assert(r =~= seq![s[0]] + insert_desc(tail, x));
        lemma_keep_ts_add(seq![s[0]], tail, t);
        assert(s =~= seq![s[0]] + tail);
        lemma_keep_ts_single(s[0], t);
        if x.created_timestamp == t {
            assert(keep_ts(r, t) =~= keep_ts(s, t) + seq![x]);
        } else {
            assert(keep_ts(r, t) =~= keep_ts(s, t));
        }
    } else {
        assert(r == seq![x] + s);
        lemma_keep_ts_add(seq![x], s, t);
        lemma_keep_ts_single(x, t);
        if x.created_timestamp == t {
            // everything in s is strictly older than x, so nothing in s
            // carries t
            assert(forall|i: int|
                0 <= i < s.len() ==> s[i].created_timestamp != t);
            lemma_keep_ts_absent(s, t);
            assert(keep_ts(r, t) =~= keep_ts(s, t) + seq![x]);
        } else {
            assert(keep_ts(r, t) =~= keep_ts(s, t));
        }
    }
}

/// The sorted list is ordered newest first and has the same length.
pub proof fn lemma_sort_desc_sorted(s: Seq<FileInfo>)
    ensures
        sort_desc(s).len() == s.len(),
        sorted_desc(sort_desc(s)),
    decreases s.len(),
{
    if s.len() > 0 {
        lemma_sort_desc_sorted(s.drop_last());
        lemma_insert_desc_ordered(sort_desc(s.drop_last()), s.last());
    }
}

/// The sorted list is a permutation of the input: same multiset of
/// descriptors.
pub proof fn lemma_sort_desc_permutes(s: Seq<FileInfo>)
    ensures
        sort_desc(s).to_multiset() == s.to_multiset(),
    decreases s.len(),
{
    if s.len() == 0 {
        assert(sort_desc(s).to_multiset() =~= s.to_multiset());
    } else {
        let butlast = s.drop_last();
        lemma_sort_desc_permutes(butlast);
        lemma_sort_desc_sorted(butlast);
        lemma_insert_desc_ordered(sort_desc(butlast), s.last());
        assert(s =~= butlast.push(s.last()));
        assert(s.to_multiset() =~= butlast.to_multiset().insert(s.last()));
    }
}

/// Stability: for every timestamp, the subsequence of descriptors carrying
/// it comes out of the sort exactly as it went in.
pub proof fn lemma_sort_desc_stable(s: Seq<FileInfo>, t: u64)
    ensures
        keep_ts(sort_desc(s), t) == keep_ts(s, t),
    decreases s.len(),
{
    if s.len() > 0 {
        let butlast = s.drop_last();
        lemma_sort_desc_stable(butlast, t);
        lemma_sort_desc_sorted(butlast);
        lemma_insert_desc_stable(sort_desc(butlast), s.last(), t);
        lemma_keep_ts_add(butlast, seq![s.last()], t);
        assert(s =~= butlast + seq![s.last()]);
        lemma_keep_ts_single(s.last(), t);
        if s.last().created_timestamp == t {
            assert(keep_ts(sort_desc(s), t) =~= keep_ts(s, t));
        } else {
            assert(keep_ts(sort_desc(s), t) =~= keep_ts(s, t));
        }
    }
}

proof fn lemma_insert_desc_at(s: Seq<FileInfo>, x: FileInfo, j: int)
    requires
        0 <= j <= s.len(),
        forall|k: int| 0 <= k < j ==> s[k].created_timestamp >= x.created_timestamp,
        j < s.len() ==> s[j].created_timestamp < x.created_timestamp,
    ensures
        insert_desc(s, x) == s.insert(j, x),
    decreases s.len(),
{
    if s.len() == 0 {
        assert(insert_desc(s, x) =~= s.insert(0, x));
    } else if j == 0 {
        assert(insert_desc(s, x) =~= s.insert(0, x));
    } else {
        let tail = s.drop_first();
        lemma_insert_desc_at(tail, x, j - 1);
        assert(insert_desc(s, x) =~= s.insert(j, x));
    }
}

/// Inserts `x` behind every element of the ordered `out` that is at least
/// as new.
fn insert_sorted(out: &mut Vec<FileInfo>, x: FileInfo)
    ensures
        final(out)@ == insert_desc(old(out)@, x),
{
    let mut j: usize = 0;
    while j < out.len() && out[j].created_timestamp >= x.created_timestamp
        invariant
            out@ == old(out)@,
            j <= out@.len(),
            forall|k: int| 0 <= k < j ==> out@[k].created_timestamp >= x.created_timestamp,
        decreases out@.len() - j,
    {
        j = j + 1;
    }
    proof {
        lemma_insert_desc_at(out@, x, j as int);
    }
    out.insert(j, x);
}

/// Sorts the descriptors newest first; the sort is stable, so files with
/// equal creation timestamps keep the order in which the scan met them.
pub fn sort_files(files: Vec<FileInfo>) -> (r: Vec<FileInfo>)
    ensures
        r@ == sort_desc(files@),
{
    let ghost orig = files@;
    let mut rest = files;
    let mut out: Vec<FileInfo> = Vec::new();
    proof {
        assert(orig.take(0) =~= Seq::<FileInfo>::empty());
    }
    while rest.len() > 0
        invariant
            rest@.len() <= orig.len(),
            rest@ == orig.skip(orig.len() - rest@.len()),
            out@ == sort_desc(orig.take(orig.len() - rest@.len())),
        decreases rest@.len(),
    {
        let ghost done = orig.len() - rest@.len();
        let x = rest.remove(0);
        proof {
            assert(orig.skip(done).remove(0) =~= orig.skip(done + 1));
            assert(x == orig[done]);
        }
        insert_sorted(&mut out, x);
        proof {
            let taken = orig.take(done + 1);
            assert(taken.drop_last() =~= orig.take(done));
            assert(taken.last() == orig[done]);
            assert(out@ == sort_desc(taken));
        }
    }
    proof {
        assert(orig.take(orig.len() as int) =~= orig);
    }
    out
}

} // verus!
