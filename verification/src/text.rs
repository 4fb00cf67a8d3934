//! Character-level text utilities: substring search, the hidden-name and
//! blacklist tests, and left-aligned padding.

use vstd::prelude::*;
use vstd::string::StrSliceExecFns;
use vstd::string::StringExecFns;

verus! {

/// `sub` occurs in `s` starting at position `i`.
pub open spec fn matches_at(s: Seq<char>, sub: Seq<char>, i: int) -> bool {
    0 <= i && i + sub.len() <= s.len() && s.subrange(i, i + sub.len()) == sub
}

/// `sub` occurs somewhere in `s`; the empty sequence occurs everywhere.
pub open spec fn has_substring(s: Seq<char>, sub: Seq<char>) -> bool {
    exists|i: int| matches_at(s, sub, i)
}

/// Whether `sub` occurs in `s` starting exactly at `i`.
fn matches_here(s: &str, sub: &str, i: usize, s_len: usize, sub_len: usize) -> (r: bool)
    requires
        s_len == s@.len(),
        sub_len == sub@.len(),
        i + sub_len <= s_len,
    ensures
        r == matches_at(s@, sub@, i as int),
{
    let mut j: usize = 0;
    while j < sub_len
        invariant
            s_len == s@.len(),
            sub_len == sub@.len(),
            i + sub_len <= s_len,
            j <= sub_len,
            s@.subrange(i as int, i as int + j as int) =~= sub@.subrange(0, j as int),
        decreases sub_len - j,
    {
        if s.get_char(i + j) != sub.get_char(j) {
            proof {
                assert(s@.subrange(i as int, i as int + sub@.len())[j as int]
                    == s@[i as int + j]);
                assert(!matches_at(s@, sub@, i as int));
            }
            return false;
        }
        proof {
            assert(s@.subrange(i as int, i as int + j as int + 1) =~= sub@.subrange(
                0,
                j as int + 1,
            ));
        }
        j = j + 1;
    }
    proof {
        assert(sub@.subrange(0, sub@.len() as int) =~= sub@);
        assert(matches_at(s@, sub@, i as int));
    }
    true
}

/// Naive substring search over characters.
pub fn contains_substring(s: &str, sub: &str) -> (r: bool)
    ensures
        r == has_substring(s@, sub@),
{
    let s_len = s.unicode_len();
    let sub_len = sub.unicode_len();
    if sub_len == 0 {
        proof {
            assert(s@.subrange(0, 0) =~= sub@);
            assert(matches_at(s@, sub@, 0));
        }
        return true;
    }
    if sub_len > s_len {
        proof {
            assert(forall|i: int| !matches_at(s@, sub@, i));
        }
        return false;
    }
    let mut i: usize = 0;
    while i <= s_len - sub_len
        invariant
            s_len == s@.len(),
            sub_len == sub@.len(),
            1 <= sub_len <= s_len,
            i <= s_len - sub_len + 1,
            forall|k: int| 0 <= k < i ==> !matches_at(s@, sub@, k),
        decreases s_len - sub_len - i + 1,
    {
        if matches_here(s, sub, i, s_len, sub_len) {
            return true;
        }
        i = i + 1;
    }
    proof {
        assert(forall|k: int| k >= i ==> !matches_at(s@, sub@, k));
    }
    false
}

/// A name is hidden when its first character is the hidden marker `.`.
pub open spec fn is_hidden(name: Seq<char>) -> bool {
    name.len() > 0 && name[0] == '.'
}

/// A name is blacklisted when it contains any of the configured substrings.
pub open spec fn is_blacklisted(name: Seq<char>, black_list: Seq<Seq<char>>) -> bool {
    exists|i: int| 0 <= i < black_list.len() && has_substring(name, black_list[i])
}

/// The scan skips a name that is hidden or blacklisted.
pub open spec fn excluded_name(name: Seq<char>, black_list: Seq<Seq<char>>) -> bool {
    is_hidden(name) || is_blacklisted(name, black_list)
}

/// Whether the scan must skip this name.
pub fn name_excluded(name: &str, black_list: &Vec<String>) -> (r: bool)
    ensures
        r == excluded_name(name@, black_list.deep_view()),
{
    if name.unicode_len() > 0 && name.get_char(0) == '.' {
        return true;
    }
    let mut i: usize = 0;
    while i < black_list.len()
        invariant
            forall|k: int| 0 <= k < i ==> !has_substring(name@, black_list.deep_view()[k]),
            i <= black_list.len(),
        decreases black_list.len() - i,
    {
        if contains_substring(name, black_list[i].as_str()) {
            proof {
                assert(black_list.deep_view()[i as int] == black_list@[i as int]@);
            }
            return true;
        }
        proof {
            assert(black_list.deep_view()[i as int] == black_list@[i as int]@);
        }
        i = i + 1;
    }
    false
}

/// `n` spaces.
pub open spec fn spaces(n: int) -> Seq<char>
    decreases n,
{
    if n <= 0 { Seq::empty() } else { spaces(n - 1) + seq![' '] }
}

/// `s` left-aligned in a field of `width` characters: spaces are appended
/// until the width is reached; a longer `s` stays as it is.
pub open spec fn pad_chars(s: Seq<char>, width: int) -> Seq<char> {
    if s.len() >= width { s } else { s + spaces(width - s.len()) }
}

/// Left-aligns `s` in a field of `width` characters.
pub fn pad_to(s: &str, width: usize) -> (r: String)
    ensures
        r@ == pad_chars(s@, width as int),
{
    proof {
        reveal_strlit(" ");
    }
    let mut out = s.to_owned();
    let mut have = s.unicode_len();
    if have >= width {
        return out;
    }
    while have < width
        invariant
            s@.len() <= have <= width,
            out@ =~= s@ + spaces(have - s@.len()),
        decreases width - have,
    {
        out.append(" ");
        have = have + 1;
        proof {
            reveal_strlit(" ");
            assert(" "@ =~= seq![' ']);
            assert(spaces(have - s@.len()) == spaces(have - 1 - s@.len()) + seq![' ']);
            assert(out@ =~= s@ + spaces(have - s@.len()));
        }
    }
    out
}

} // verus!
