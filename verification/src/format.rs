//! Pure textual formatting: decimal digit strings, round-half-to-even
//! division, byte counts in MiB/GiB, left-aligned padding, and joining.
//!
//! Byte counts at or above one GiB are shown in GiB, smaller ones in MiB.
//! An exact multiple of the unit is shown with no decimals ("2 GiB"); any
//! other value with exactly two decimals ("1.50 GiB"), the hundredths
//! rounded half-to-even.

use vstd::prelude::*;

verus! {

pub const BYTES_IN_MIB: u64 = 1024 * 1024;

pub const BYTES_IN_GIB: u64 = 1024 * 1024 * 1024;

/// The decimal digit character for `d` in 0..=9.
pub open spec fn spec_digit_char(d: int) -> char {
    if d == 0 {
        '0'
    } else if d == 1 {
        '1'
    } else if d == 2 {
        '2'
    } else if d == 3 {
        '3'
    } else if d == 4 {
        '4'
    } else if d == 5 {
        '5'
    } else if d == 6 {
        '6'
    } else if d == 7 {
        '7'
    } else if d == 8 {
        '8'
    } else {
        '9'
    }
}

/// The decimal representation of a non-negative integer, no leading zeros.
pub open spec fn spec_digits(n: int) -> Seq<char>
    decreases n,
{
    if n < 10 {
        seq![spec_digit_char(n)]
    } else {
        spec_digits(n / 10).push(spec_digit_char(n % 10))
    }
}

/// `n` as two decimal digits, zero-padded on the left (for `0 <= n < 100`).
pub open spec fn spec_two_digits(n: int) -> Seq<char> {
    if n < 10 {
        seq!['0'] + spec_digits(n)
    } else {
        spec_digits(n)
    }
}

/// `n / d` rounded to the nearest integer, ties to the even neighbour.
pub open spec fn spec_round_half_even(n: int, d: int) -> int
    recommends
        n >= 0,
        d > 0,
{
    let q = n / d;
    let r = n % d;
    if 2 * r > d {
        q + 1
    } else if 2 * r < d {
        q
    } else if q % 2 == 0 {
        q
    } else {
        q + 1
    }
}

/// `bytes / unit` rendered as a decimal number: no decimals when the
/// division is exact, two decimals (hundredths rounded half-to-even)
/// otherwise.
pub open spec fn spec_scaled_value(bytes: int, unit: int) -> Seq<char>
    recommends
        bytes >= 0,
        unit > 0,
{
    if bytes % unit == 0 {
        spec_digits(bytes / unit)
    } else {
        let h = spec_round_half_even(bytes * 100, unit);
        spec_digits(h / 100) + seq!['.'] + spec_two_digits(h % 100)
    }
}

/// A byte count rendered with its unit: GiB at or above one GiB, else MiB.
pub open spec fn spec_bytes_string(bytes: int) -> Seq<char> {
    if bytes >= BYTES_IN_GIB {
        spec_scaled_value(bytes, BYTES_IN_GIB as int) + " GiB"@
    } else {
        spec_scaled_value(bytes, BYTES_IN_MIB as int) + " MiB"@
    }
}

/// `n` spaces.
pub open spec fn spec_spaces(n: int) -> Seq<char>
    decreases n,
{
    if n <= 0 {
        Seq::empty()
    } else {
        spec_spaces(n - 1).push(' ')
    }
}

/// `s` padded on the right with spaces to width `w` (unchanged if already
/// that wide).
pub open spec fn spec_pad_left_aligned(s: Seq<char>, w: int) -> Seq<char> {
    if s.len() >= w {
        s
    } else {
        s + spec_spaces(w - s.len())
    }
}

/// The parts concatenated with `sep` between consecutive parts.
pub open spec fn spec_join(parts: Seq<Seq<char>>, sep: Seq<char>) -> Seq<char>
    decreases parts.len(),
{
    if parts.len() == 0 {
        Seq::empty()
    } else if parts.len() == 1 {
        parts[0]
    } else {
        spec_join(parts.drop_last(), sep) + sep + parts.last()
    }
}

proof fn lemma_spaces_len(n: int)
    ensures
        spec_spaces(n).len() == if n <= 0 { 0int } else { n },
    decreases n,
{
    if n > 0 {
        lemma_spaces_len(n - 1);
    }
}

fn digit_str(d: u64) -> (r: &'static str)
    requires
        d < 10,
    ensures
        r@ == seq![spec_digit_char(d as int)],
{
    proof {
        reveal_strlit("0");
        reveal_strlit("1");
        reveal_strlit("2");
        reveal_strlit("3");
        reveal_strlit("4");
        reveal_strlit("5");
        reveal_strlit("6");
        reveal_strlit("7");
        reveal_strlit("8");
        reveal_strlit("9");
    }
    if d == 0 {
        "0"
    } else if d == 1 {
        "1"
    } else if d == 2 {
        "2"
    } else if d == 3 {
        "3"
    } else if d == 4 {
        "4"
    } else if d == 5 {
        "5"
    } else if d == 6 {
        "6"
    } else if d == 7 {
        "7"
    } else if d == 8 {
        "8"
    } else {
        "9"
    }
}

/// The decimal representation of `n`.
pub fn u64_string(n: u64) -> (r: String)
    ensures
        r@ == spec_digits(n as int),
    decreases n,
{
    if n < 10 {
        String::from_str(digit_str(n))
    } else {
        let mut s = u64_string(n / 10);
        s.append(digit_str(n % 10));
        proof {
            assert(s@ =~= spec_digits(n as int));
        }
        s
    }
}

/// `n / d` rounded to the nearest integer, ties to the even neighbour.
pub fn div_round_half_even(n: u64, d: u64) -> (r: u64)
    requires
        d > 0,
        n as int / d as int + 1 <= u64::MAX,
    ensures
        r as int == spec_round_half_even(n as int, d as int),
{
    let q: u64 = n / d;
    let rem: u64 = n % d;
    if rem > d - rem {
        q + 1
    } else if rem < d - rem {
        q
    } else if q % 2 == 0 {
        q
    } else {
        q + 1
    }
}

/// Rounded hundredths of `bytes / unit`, computed without overflow.
fn scaled_hundredths(bytes: u64, unit: u64) -> (r: u64)
    requires
        unit == BYTES_IN_MIB || unit == BYTES_IN_GIB,
    ensures
        r as int == spec_round_half_even(bytes as int * 100, unit as int),
{
    let n: u128 = (bytes as u128) * 100;
    let d: u128 = unit as u128;
    let q: u128 = n / d;
    let rem: u128 = n % d;
    proof {
        assert(q * d + rem == n) by {
            vstd::arithmetic::div_mod::lemma_fundamental_div_mod(n as int, d as int);
        }
        assert(q as int <= n as int / (BYTES_IN_MIB as int)) by {
            vstd::arithmetic::div_mod::lemma_div_is_ordered_by_denominator(
                n as int,
                BYTES_IN_MIB as int,
                d as int,
            );
        }
        assert(n as int / (BYTES_IN_MIB as int) * (BYTES_IN_MIB as int) <= n as int) by {
            vstd::arithmetic::div_mod::lemma_fundamental_div_mod(
                n as int,
                BYTES_IN_MIB as int,
            );
            vstd::arithmetic::div_mod::lemma_mod_bound(n as int, BYTES_IN_MIB as int);
        }
    }
    let rounded: u128 = if 2 * rem > d {
        q + 1
    } else if 2 * rem < d {
        q
    } else if q % 2 == 0 {
        q
    } else {
        q + 1
    };
    rounded as u64
}

fn scaled_value_string(bytes: u64, unit: u64, suffix: &str) -> (r: String)
    requires
        unit == BYTES_IN_MIB || unit == BYTES_IN_GIB,
    ensures
        r@ == spec_scaled_value(bytes as int, unit as int) + suffix@,
{
    proof {
        reveal_strlit(".");
        reveal_strlit("0");
    }
    if bytes % unit == 0 {
        let mut s = u64_string(bytes / unit);
        s.append(suffix);
        s
    } else {
        let h = scaled_hundredths(bytes, unit);
        let mut s = u64_string(h / 100);
        s.append(".");
        let frac = h % 100;
        if frac < 10 {
            s.append("0");
        }
        let frac_digits = u64_string(frac);
        s.append(frac_digits.as_str());
        s.append(suffix);
        proof {
            assert(s@ =~= spec_scaled_value(bytes as int, unit as int) + suffix@);
        }
        s
    }
}

/// A byte count rendered with its unit, as `spec_bytes_string` says.
pub fn format_bytes(bytes: u64) -> (r: String)
    ensures
        r@ == spec_bytes_string(bytes as int),
{
    if bytes >= BYTES_IN_GIB {
        scaled_value_string(bytes, BYTES_IN_GIB, " GiB")
    } else {
        scaled_value_string(bytes, BYTES_IN_MIB, " MiB")
    }
}

/// `s` padded on the right with spaces to the given width.
pub fn pad_left_aligned(s: String, width: usize) -> (r: String)
    ensures
        r@ == spec_pad_left_aligned(s@, width as int),
{
    let ghost orig: Seq<char> = s@;
    let mut s = s;
    let mut n = s.as_str().unicode_len();
    proof {
        assert(s@ =~= orig + spec_spaces(0));
    }
    let ghost n0: int = n as int;
    while n < width
        invariant
            n0 == orig.len(),
            n0 <= n as int,
            s@ == orig + spec_spaces(n as int - n0),
            n as int <= width as int || n as int == n0,
        decreases width as int - n as int,
    {
        s.append(" ");
        proof {
            reveal_strlit(" ");
            assert(s@ =~= orig + spec_spaces(n as int + 1 - n0));
        }
        n = n + 1;
    }
    proof {
        lemma_spaces_len(n as int - n0);
        if orig.len() >= width as int {
            assert(s@ =~= orig);
        }
        assert(s@ =~= spec_pad_left_aligned(orig, width as int));
    }
    s
}

/// The parts joined with `sep` between consecutive parts.
pub fn join_strings(parts: &Vec<String>, sep: &str) -> (r: String)
    ensures
        r@ == spec_join(parts@.map_values(|p: String| p@), sep@),
{
    let ghost views: Seq<Seq<char>> = parts@.map_values(|p: String| p@);
    let mut r = String::new();
    let mut i: usize = 0;
    while i < parts.len()
        invariant
            i <= parts@.len(),
            views == parts@.map_values(|p: String| p@),
            r@ == spec_join(views.take(i as int), sep@),
        decreases parts@.len() - i,
    {
        if i > 0 {
            r.append(sep);
        }
        r.append(parts[i].as_str());
        proof {
            assert(views.take(i as int + 1).drop_last() =~= views.take(i as int));
            assert(views.take(i as int + 1).last() == views[i as int]);
            assert(r@ =~= spec_join(views.take(i as int + 1), sep@));
        }
        i = i + 1;
    }
    proof {
        assert(views.take(parts@.len() as int) =~= views);
    }
    r
}

} // verus!
