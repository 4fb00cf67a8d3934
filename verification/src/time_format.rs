//! Rendering an epoch timestamp as a local `HH:MM` string.
//!
//! The time-zone offset of the machine comes from chrono; everything after
//! that — shifting the timestamp and spelling hours and minutes — is plain
//! arithmetic done here.

use vstd::prelude::*;
use vstd::string::StringExecFns;
use crate::digits::digit_char;

verus! {

/// An offset a time zone can have: strictly less than a day in either
/// direction.
pub open spec fn valid_offset(off: int) -> bool {
    -86400 < off < 86400
}

/// Two decimal digits, leading zero kept.
pub open spec fn two_digit_chars(n: int) -> Seq<char> {
    seq![digit_char((n / 10) as nat), digit_char((n % 10) as nat)]
}

/// `HH:MM` of the local timestamp `t` (seconds since the epoch, already
/// shifted by the zone offset), on the 24-hour clock.
pub open spec fn hhmm_chars(t: int) -> Seq<char> {
    let d = t % 86400;
    two_digit_chars(d / 3600) + seq![':'] + two_digit_chars((d % 3600) / 60)
}

/// An `HH:MM` rendering is always exactly five characters.
pub proof fn lemma_hhmm_len(t: int)
    ensures
        hhmm_chars(t).len() == 5,
{
}

/// Relies on chrono: converting an epoch timestamp into the machine's local
/// zone (`chrono::Local`) yields a fixed offset whose seconds, by
/// `FixedOffset`'s construction, lie strictly between -86400 and 86400.
/// Out-of-range timestamps fall back to the epoch itself, as
/// `DateTime::from_timestamp` admits only a bounded range of years.
#[verifier::external_body]
fn local_offset_seconds(ts: u64) -> (off: i32)
    ensures
        valid_offset(off as int),
{
    let utc = chrono::DateTime::from_timestamp(ts as i64, 0).unwrap_or_default();
    let local = utc.with_timezone(&chrono::Local);
    local.offset().local_minus_utc()
}

/// Appends `n` as exactly two decimal digits, leading zero kept.
fn append_two_digits(s: &mut String, n: u64)
    requires
        n < 100,
    ensures
        final(s)@ == old(s)@ + two_digit_chars(n as int),
{
    let tens = crate::digits::to_decimal((n / 10) as u128);
    let ones = crate::digits::to_decimal((n % 10) as u128);
    s.append(tens.as_str());
    s.append(ones.as_str());
    proof {
        assert(final(s)@ =~= old(s)@ + two_digit_chars(n as int));
    }
}

/// Spells `ts` shifted by the zone offset `off` as `HH:MM`.
pub fn format_hhmm(ts: u64, off: i32) -> (r: String)
    requires
        valid_offset(off as int),
    ensures
        r@ == hhmm_chars(ts as int + off as int),
{
    proof {
        reveal_strlit(":");
    }
    // ts + off + 86400 is nonnegative, and shifting by a whole day does not
    // change the time of day.
    let shifted: u128 = (ts as u128) + ((off + 86400) as u128);
    let d: u64 = (shifted % 86400) as u64;
    proof {
        let t = ts as int + off as int;
        assert(shifted == t + 86400);
        vstd::arithmetic::div_mod::lemma_mod_add_multiples_vanish(t, 86400);
        assert(d == t % 86400);
    }
    let h: u64 = d / 3600;
    let m: u64 = (d % 3600) / 60;
    let mut s = String::new();
    append_two_digits(&mut s, h);
    s.append(":");
    append_two_digits(&mut s, m);
    proof {
        assert(s@ =~= hhmm_chars(ts as int + off as int));
    }
    s
}

/// The local `HH:MM` rendering of `ts`, using the machine's zone offset.
/// The offset itself depends on the environment, so the contract promises
/// the shape: the result spells `ts` shifted by some valid offset.
pub fn local_hhmm(ts: u64) -> (r: String)
    ensures
        exists|off: int| valid_offset(off) && r@ == hhmm_chars(ts as int + off),
{
    let off = local_offset_seconds(ts);
    let r = format_hhmm(ts, off);
    proof {
        assert(valid_offset(off as int) && r@ == hhmm_chars(ts as int + off as int));
    }
    r
}

} // verus!
