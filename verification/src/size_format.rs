//! Human-readable byte sizes: `0B`, `1023B`, `1.0KB`, `1.5MB`, and so on.
//!
//! A size below 1024 is printed as an integer with the `B` unit. Otherwise
//! the size is divided by 1024 once per unit step (`KB`, `MB`, `GB`, `TB`,
//! stopping at `TB`) and printed with exactly one decimal digit, rounded to
//! the nearest tenth with ties going to the even tenth.

use vstd::prelude::*;
use vstd::string::StringExecFns;
use crate::digits::{dec_digits, digit_char, to_decimal};

verus! {

/// How many unit steps of 1024 the rendering takes, capped at `TB`.
pub open spec fn size_unit_index(bytes: u64) -> int {
    if bytes < 1024 { 0 }
    else if bytes < 1048576 { 1 }
    else if bytes < 1073741824 { 2 }
    else if bytes < 1099511627776 { 3 }
    else { 4 }
}

/// 1024 raised to `k`.
pub open spec fn pow1024(k: int) -> int
    decreases k,
{
    if k <= 0 { 1 } else { 1024 * pow1024(k - 1) }
}

/// The unit suffix for unit step `k`.
pub open spec fn unit_suffix(k: int) -> Seq<char> {
    if k == 1 { seq!['K', 'B'] }
    else if k == 2 { seq!['M', 'B'] }
    else if k == 3 { seq!['G', 'B'] }
    else if k == 4 { seq!['T', 'B'] }
    else { seq!['B'] }
}

/// `num / den` rounded to the nearest integer, ties to the even neighbour.
pub open spec fn round_half_even(num: int, den: int) -> int {
    let q = num / den;
    let r = num % den;
    if 2 * r > den { q + 1 }
    else if 2 * r < den { q }
    else if q % 2 == 1 { q + 1 }
    else { q }
}

/// The rendered size: the number of tenths of the chosen unit, rounded
/// half-to-even, printed as `whole.tenth` followed by the unit suffix;
/// plain `<bytes>B` below 1024.
pub open spec fn size_chars(bytes: u64) -> Seq<char> {
    let k = size_unit_index(bytes);
    if k == 0 {
        dec_digits(bytes as nat) + seq!['B']
    } else {
        let tenths = round_half_even(10 * bytes, pow1024(k));
        dec_digits((tenths / 10) as nat) + seq!['.'] + seq![digit_char((tenths % 10) as nat)]
            + unit_suffix(k)
    }
}

/// A rendered size never exceeds 24 characters.
pub proof fn lemma_size_chars_len(bytes: u64)
    ensures
        1 <= size_chars(bytes).len() <= 24,
{
    crate::digits::lemma_pow10_values();
    let k = size_unit_index(bytes);
    if k == 0 {
        crate::digits::lemma_dec_digits_len(bytes as nat, 4);
    } else {
        let den = pow1024(k);
        assert(pow1024(0) == 1);
        assert(pow1024(1) == 1024);
        assert(pow1024(2) == 1048576);
        assert(pow1024(3) == 1073741824);
        assert(pow1024(4) == 1099511627776);
        let num = 10 * bytes as int;
        let tenths = round_half_even(num, den);
        assert(num / den <= num) by (nonlinear_arith)
            requires
                num >= 0,
                den >= 1,
        ;
        assert(num / den >= 0) by (nonlinear_arith)
            requires
                num >= 0,
                den >= 1,
        ;
        assert(tenths <= num + 1);
        assert(tenths >= 0);
        assert(tenths < crate::digits::pow10(21));
        assert(tenths / 10 < crate::digits::pow10(20)) by (nonlinear_arith)
            requires
                0 <= tenths < 10 * crate::digits::pow10(20),
                crate::digits::pow10(20) >= 1,
        ;
        crate::digits::lemma_dec_digits_len((tenths / 10) as nat, 20);
    }
}

/// Renders a byte count for display.
pub fn format_size(bytes: u64) -> (r: String)
    ensures
        r@ == size_chars(bytes),
{
    proof {
        reveal_strlit("B");
        reveal_strlit(".");
        reveal_strlit("KB");
        reveal_strlit("MB");
        reveal_strlit("GB");
        reveal_strlit("TB");
    }
    if bytes < 1024 {
        let mut s = to_decimal(bytes as u128);
        s.append("B");
        proof {
            assert(s@ =~= size_chars(bytes));
        }
        return s;
    }
    let k: u8;
    let den: u64;
    if bytes < 1048576 {
        k = 1;
        den = 1024;
    } else if bytes < 1073741824 {
        k = 2;
        den = 1048576;
    } else if bytes < 1099511627776 {
        k = 3;
        den = 1073741824;
    } else {
        k = 4;
        den = 1099511627776;
    }
    proof {
        assert(pow1024(0) == 1);
        assert(pow1024(1) == 1024);
        assert(pow1024(2) == 1048576);
        assert(pow1024(3) == 1073741824);
        assert(pow1024(4) == 1099511627776);
        assert(den == pow1024(k as int));
    }
    let num: u128 = 10 * (bytes as u128);
    let d: u128 = den as u128;
    let q: u128 = num / d;
    let rem: u128 = num % d;
    let tenths: u128 = if 2 * rem > d {
        q + 1
    } else if 2 * rem < d {
        q
    } else if q % 2 == 1 {
        q + 1
    } else {
        q
    };
    proof {
        assert(tenths == round_half_even(10 * bytes, pow1024(k as int)));
    }
    let mut s = to_decimal(tenths / 10);
    s.append(".");
    s.append(crate::digits::to_decimal((tenths % 10)).as_str());
    if k == 1 {
        s.append("KB");
    } else if k == 2 {
        s.append("MB");
    } else if k == 3 {
        s.append("GB");
    } else {
        s.append("TB");
    }
    proof {
        assert(dec_digits((tenths % 10) as nat) =~= seq![digit_char((tenths % 10) as nat)]);
        assert(s@ =~= size_chars(bytes));
    }
    s
}

} // verus!
