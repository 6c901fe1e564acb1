//! Short human text for sizes in bytes and durations in seconds.

use crate::text::{decimal, decimal_string, digit_char, numeral_round_trip,
    numerals_hold_no_white_space, parse_int, signed_decimal, signed_decimal_string,
    two_digit_string, two_digits, two_digits_read_back};
use vstd::prelude::*;

verus! {

pub const KB: u64 = 0x400;

pub const MB: u64 = 0x10_0000;

pub const GB: u64 = 0x4000_0000;

/// The first integer above which not every integer is a double.
pub const DOUBLE_EXACT: u64 = 0x20_0000_0000_0000;

/// `n / d` rounded to the nearest integer, halves to the even one.
pub open spec fn round_half_even(n: int, d: int) -> int {
    let q = n / d;
    let r = n % d;
    if 2 * r > d || (2 * r == d && q % 2 == 1) {
        q + 1
    } else {
        q
    }
}

/// The distance between neighbouring doubles around `n`.
pub open spec fn double_step(n: nat) -> nat
    decreases n,
{
    if n < DOUBLE_EXACT {
        1
    } else {
        2 * double_step(n / 2)
    }
}

/// The double nearest to `n`, halves to the even one.
pub open spec fn nearest_double(n: nat) -> nat {
    let step = double_step(n);
    (round_half_even(n as int, step as int) * step) as nat
}

/// A count of tenths, written with one decimal place.
pub open spec fn tenths_text(t: nat) -> Seq<char> {
    decimal(t / 10).push('.').push(digit_char(t % 10))
}

/// A byte count as a short human text: one decimal place in GB or MB, none in
/// KB, and the plain count below that.
pub open spec fn size_text(bytes: int) -> Seq<char> {
    let b = nearest_double(bytes as nat) as int;
    if bytes < KB {
        signed_decimal(bytes) + " B"@
    } else if b >= GB {
        tenths_text(round_half_even(10 * b, GB as int) as nat) + " GB"@
    } else if b >= MB {
        tenths_text(round_half_even(10 * b, MB as int) as nat) + " MB"@
    } else {
        decimal(round_half_even(b, KB as int) as nat) + " KB"@
    }
}

/// A duration as `M:SS`; negative durations count as zero.
pub open spec fn duration_text(secs: int) -> Seq<char> {
    let s = if secs < 0 {
        0
    } else {
        secs
    };
    decimal((s / 60) as nat) + ":"@ + two_digits((s % 60) as nat)
}

fn rounded(n: u128, d: u128) -> (r: u128)
    requires
        0 < d,
        n < 0x1000_0000_0000_0000_0000,
        d <= 0x1_0000_0000_0000_0000,
    ensures
        r == round_half_even(n as int, d as int),
        r <= n + 1,
{
    let q: u128 = n / d;
    let rest: u128 = n % d;
    assert(q <= n) by (nonlinear_arith)
        requires
            q == n / d,
            0 < d,
    ;
    if 2 * rest > d || (2 * rest == d && q % 2 == 1) {
        q + 1
    } else {
        q
    }
}

proof fn lemma_step_bounds(n: nat)
    requires
        n < 0x1_0000_0000_0000_0000,
    ensures
        1 <= double_step(n) <= 0x1_0000_0000_0000_0000,
        n < DOUBLE_EXACT || double_step(n) <= n,
    decreases n,
{
    if n >= DOUBLE_EXACT {
        lemma_step_bounds(n / 2);
    }
}

/// The double nearest to `n`.
fn as_double(n: u64) -> (r: u128)
    ensures
        r == nearest_double(n as nat),
        r <= 0x2_0000_0000_0000_0000,
        n < DOUBLE_EXACT ==> r == n,
{
    let mut step: u128 = 1;
    let mut rest: u64 = n;
    proof {
        lemma_step_bounds(n as nat);
    }
    while rest >= DOUBLE_EXACT
        invariant
            1 <= step,
            step * double_step(rest as nat) == double_step(n as nat),
            1 <= double_step(rest as nat),
            double_step(n as nat) <= 0x1_0000_0000_0000_0000,
            n < DOUBLE_EXACT ==> rest == n && step == 1,
            step * rest <= n,
        decreases rest,
    {
        proof {
            lemma_step_bounds(rest as nat);
            lemma_step_bounds((rest / 2) as nat);
            assert(double_step(rest as nat) == 2 * double_step((rest / 2) as nat));
            let a = double_step((rest / 2) as nat) as int;
            assert(step * (2 * a) == (2 * step) * a) by (nonlinear_arith);
            assert(2 * step <= (2 * step) * a) by (nonlinear_arith)
                requires
                    1 <= a,
                    1 <= step,
            ;
            assert((2 * step) * (rest / 2) <= step * rest) by (nonlinear_arith)
                requires
                    1 <= step,
                    2 * (rest / 2) <= rest,
            ;
        }
        step = 2 * step;
        rest = rest / 2;
    }
    assert(step * 1 == step) by (nonlinear_arith);
    let q: u128 = rounded(n as u128, step);
    proof {
        let nn = n as int;
        let ss = step as int;
        assert(q * ss <= nn + ss) by (nonlinear_arith)
            requires
                q == nn / ss || q == nn / ss + 1,
                ss >= 1,
                nn >= 0,
        ;
        assert(0 <= q * ss) by (nonlinear_arith)
            requires
                0 <= q,
                1 <= ss,
        ;
        if n < DOUBLE_EXACT {
            assert(nn / 1 == nn && nn % 1 == 0);
            assert(q * ss == q) by (nonlinear_arith)
                requires
                    ss == 1,
            ;
        }
    }
    q * step
}

fn tenths_string(t: u64) -> (r: String)
    ensures
        r@ == tenths_text(t as nat),
{
    let mut r: String = decimal_string(t / 10);
    r.push('.');
    let d: u8 = (t % 10) as u8;
    r.push((48 + d) as char);
    r
}

/// Format a byte count as a short human string (e.g. `2.3 MB`).
pub fn format_size(bytes: i64) -> (r: String)
    ensures
        r@ == size_text(bytes as int),
{
    let mut r: String;
    if bytes < KB as i64 {
        r = signed_decimal_string(bytes);
        r.append(" B");
        return r;
    }
    let b: u128 = as_double(bytes as u64);
    if b >= GB as u128 {
        let t: u128 = rounded(10 * b, GB as u128);
        proof {
            assert(10 * b / (GB as int) <= 0x1_0000_0000_0000_0000);
        }
        r = tenths_string(t as u64);
        r.append(" GB");
    } else if b >= MB as u128 {
        let t: u128 = rounded(10 * b, MB as u128);
        r = tenths_string(t as u64);
        r.append(" MB");
    } else {
        let t: u128 = rounded(b, KB as u128);
        r = decimal_string(t as u64);
        r.append(" KB");
    }
    r
}

/// Format a seconds duration as `M:SS`.
pub fn format_duration(secs: i32) -> (r: String)
    ensures
        r@ == duration_text(secs as int),
{
    let s: u64 = if secs < 0 {
        0
    } else {
        secs as u64
    };
    let mut r: String = decimal_string(s / 60);
    r.append(":");
    r.append(two_digit_string(s % 60).as_str());
    r
}

// --- Laws --------------------------------------------------------------------

/// A duration reads back: the minutes stand before the colon, and two digits of
/// seconds behind it.
pub proof fn duration_reads_back(secs: int)
    requires
        0 <= secs,
    ensures
        ({
            let text = duration_text(secs);
            let n = text.len() - 3;
            &&& n > 0
            &&& text[n] == ':'
            &&& parse_int(text.take(n), 0, secs) == Some(secs / 60)
            &&& parse_int(text.skip(n + 1), 0, 59) == Some(secs % 60)
        }),
{
    let text = duration_text(secs);
    let n = text.len() - 3;
    let minutes = decimal((secs / 60) as nat);
    let seconds = two_digits((secs % 60) as nat);
    reveal_strlit(":");
    numeral_round_trip(secs / 60, 0, secs);
    numerals_hold_no_white_space(secs / 60);
    two_digits_read_back((secs % 60) as nat);
    assert(text.take(n) =~= minutes);
    assert(text.skip(n + 1) =~= seconds);
}

/// No duration is less than none.
pub proof fn negative_duration_is_none(secs: int)
    requires
        secs < 0,
    ensures
        duration_text(secs) == duration_text(0),
{
}

proof fn lemma_exact(n: nat)
    requires
        n < 0x20_0000_0000_0000,
    ensures
        nearest_double(n) == n,
{
    assert(double_step(n) == 1);
    assert(round_half_even(n as int, 1) == n);
}

/// A size below a kilobyte is said exactly, and one below a megabyte to the
/// nearest kilobyte.
pub proof fn small_sizes_are_told(bytes: int)
    requires
        0 <= bytes < 0x10_0000,
    ensures
        bytes < 1024 ==> size_text(bytes) == signed_decimal(bytes) + " B"@,
        bytes >= 1024 ==> exists|k: int|
            size_text(bytes) == #[trigger] signed_decimal(k) + " KB"@ && -512 <= k * 1024 - bytes
                <= 512,
{
    lemma_exact(bytes as nat);
    if bytes >= 1024 {
        let k = round_half_even(bytes, 1024);
        assert(size_text(bytes) == signed_decimal(k) + " KB"@);
    }
}

/// A size of some megabytes or gigabytes is said to the nearest tenth.
pub proof fn large_sizes_are_told(bytes: int)
    requires
        0x10_0000 <= bytes < 0x20_0000_0000_0000,
    ensures
        bytes < 0x4000_0000 ==> exists|t: nat|
            size_text(bytes) == #[trigger] tenths_text(t) + " MB"@ && -0x8_0000 <= t * 0x10_0000
                - 10 * bytes <= 0x8_0000,
        bytes >= 0x4000_0000 ==> exists|t: nat|
            size_text(bytes) == #[trigger] tenths_text(t) + " GB"@ && -0x2000_0000 <= t
                * 0x4000_0000 - 10 * bytes <= 0x2000_0000,
{
    lemma_exact(bytes as nat);
    if bytes < 0x4000_0000 {
        let t = round_half_even(10 * bytes, 0x10_0000) as nat;
        assert(size_text(bytes) == tenths_text(t) + " MB"@);
    } else {
        let t = round_half_even(10 * bytes, 0x4000_0000) as nat;
        assert(size_text(bytes) == tenths_text(t) + " GB"@);
    }
}

/// Tenths read back: the whole part stands before the point, and one digit
/// behind it.
pub proof fn tenths_read_back(t: nat)
    ensures
        ({
            let text = tenths_text(t);
            let n = text.len() - 2;
            &&& n > 0
            &&& text[n] == '.'
            &&& parse_int(text.take(n), 0, t as int) == Some(t as int / 10)
            &&& parse_int(text.skip(n + 1), 0, 9) == Some(t as int % 10)
        }),
{
    let text = tenths_text(t);
    let n = text.len() - 2;
    numeral_round_trip((t / 10) as int, 0, t as int);
    numeral_round_trip((t % 10) as int, 0, 9);
    numerals_hold_no_white_space((t / 10) as int);
    assert(text.take(n) =~= decimal(t / 10));
    assert(text.skip(n + 1) =~= decimal(t % 10));
}

} // verus!
