//! Text primitives over Unicode scalar values: white space, trimming, decimal
//! numerals and substring tests. Every function works on the view of a string,
//! its sequence of characters.

use vstd::prelude::*;

verus! {

/// `String::push` appends the character to the end of the string.
pub assume_specification[ String::push ](s: &mut String, c: char)
    ensures
        final(s)@ == old(s)@.push(c),
;

/// The characters with the Unicode `White_Space` property.
pub open spec fn is_white_space(c: char) -> bool {
    ||| '\u{9}' <= c <= '\u{d}'
    ||| c == '\u{20}'
    ||| c == '\u{85}'
    ||| c == '\u{a0}'
    ||| c == '\u{1680}'
    ||| '\u{2000}' <= c <= '\u{200a}'
    ||| c == '\u{2028}'
    ||| c == '\u{2029}'
    ||| c == '\u{202f}'
    ||| c == '\u{205f}'
    ||| c == '\u{3000}'
}

/// ASCII white space: space, tab, line feed, form feed and carriage return.
pub open spec fn is_ascii_space(c: char) -> bool {
    c == ' ' || c == '\t' || c == '\n' || c == '\u{c}' || c == '\r'
}

/// `s` without its leading white space.
pub open spec fn trim_start(s: Seq<char>) -> Seq<char>
    decreases s.len(),
{
    if s.len() > 0 && is_white_space(s.first()) {
        trim_start(s.drop_first())
    } else {
        s
    }
}

/// `s` without its trailing white space.
pub open spec fn trim_end(s: Seq<char>) -> Seq<char>
    decreases s.len(),
{
    if s.len() > 0 && is_white_space(s.last()) {
        trim_end(s.drop_last())
    } else {
        s
    }
}

/// `s` without leading and trailing white space.
pub open spec fn trim(s: Seq<char>) -> Seq<char> {
    trim_end(trim_start(s))
}

/// The character for one decimal digit.
pub open spec fn digit_char(d: nat) -> char {
    (48 + d) as char
}

/// The decimal numeral of `n`, without leading zeros.
pub open spec fn decimal(n: nat) -> Seq<char>
    decreases n,
{
    if n < 10 {
        seq![digit_char(n)]
    } else {
        decimal(n / 10).push(digit_char(n % 10))
    }
}

/// The decimal numeral of an integer, with a leading `-` when it is negative.
pub open spec fn signed_decimal(n: int) -> Seq<char> {
    if n < 0 {
        seq!['-'] + decimal((-n) as nat)
    } else {
        decimal(n as nat)
    }
}

/// The numeral of `n`, padded with one zero to at least two digits.
pub open spec fn two_digits(n: nat) -> Seq<char> {
    if n < 10 {
        seq!['0'] + decimal(n)
    } else {
        decimal(n)
    }
}

pub open spec fn is_digit(c: char) -> bool {
    '0' <= c <= '9'
}

pub open spec fn all_digits(s: Seq<char>) -> bool {
    forall|i: int| 0 <= i < s.len() ==> is_digit(#[trigger] s[i])
}

/// The number that a run of decimal digits denotes.
pub open spec fn digits_value(s: Seq<char>) -> int
    decreases s.len(),
{
    if s.len() == 0 {
        0
    } else {
        digits_value(s.drop_last()) * 10 + (s.last() as int - 48)
    }
}

/// `s` without one leading sign.
pub open spec fn unsigned_part(s: Seq<char>) -> Seq<char> {
    if s.len() > 0 && (s[0] == '-' || s[0] == '+') {
        s.drop_first()
    } else {
        s
    }
}

/// The integer that `s` denotes: an optional sign and at least one decimal
/// digit, nothing else. `None` for any other text and outside `lo ..= hi`.
pub open spec fn parse_int(s: Seq<char>, lo: int, hi: int) -> Option<int> {
    let body = unsigned_part(s);
    let value = if s.len() > 0 && s[0] == '-' {
        -digits_value(body)
    } else {
        digits_value(body)
    };
    if body.len() > 0 && all_digits(body) && lo <= value <= hi {
        Some(value)
    } else {
        None
    }
}

/// Whether `p` stands in `s` at position `at`.
pub open spec fn occurs_at(s: Seq<char>, p: Seq<char>, at: int) -> bool {
    0 <= at && at + p.len() <= s.len() && s.subrange(at, at + p.len()) == p
}

/// Whether `p` stands anywhere in `s`.
pub open spec fn contains_text(s: Seq<char>, p: Seq<char>) -> bool {
    exists|at: int| occurs_at(s, p, at)
}

/// What follows the prefix `p` of `s`, if `s` begins with it.
pub open spec fn strip_prefix(s: Seq<char>, p: Seq<char>) -> Option<Seq<char>> {
    if occurs_at(s, p, 0) {
        Some(s.skip(p.len() as int))
    } else {
        None
    }
}

/// The string inside an optional string.
pub open spec fn opt_view(s: Option<String>) -> Option<Seq<char>> {
    match s {
        Some(s) => Some(s@),
        None => None,
    }
}

/// The characters of each string of a list.
pub open spec fn all_views(v: Seq<String>) -> Seq<Seq<char>> {
    Seq::new(v.len(), |i: int| v[i]@)
}

/// The characters of `s`.
pub fn chars_of(s: &str) -> (v: Vec<char>)
    ensures
        v@ == s@,
{
    let mut v: Vec<char> = Vec::new();
    for c in it: s.chars()
        invariant
            v@ == it.seq().take(it.index() as int),
            it.seq() == s@,
    {
        v.push(c);
    }
    v
}

/// The string of `v[from..to]`.
pub fn string_of(v: &[char], from: usize, to: usize) -> (s: String)
    requires
        from <= to <= v@.len(),
    ensures
        s@ == v@.subrange(from as int, to as int),
{
    let mut s = String::new();
    for i in from..to
        invariant
            from <= i <= to <= v@.len(),
            s@ == v@.subrange(from as int, i as int),
    {
        s.push(v[i]);
    }
    s
}

/// Whether two strings hold the same characters.
pub fn same_text(a: &str, b: &str) -> (r: bool)
    ensures
        r == (a@ == b@),
{
    let x: Vec<char> = chars_of(a);
    let y: Vec<char> = chars_of(b);
    if x.len() != y.len() {
        return false;
    }
    for i in 0..x.len()
        invariant
            x@ == a@,
            y@ == b@,
            x@.len() == y@.len(),
            forall|k: int| 0 <= k < i ==> x@[k] == y@[k],
    {
        if x[i] != y[i] {
            assert(x@[i as int] != y@[i as int]);
            return false;
        }
    }
    assert(x@ =~= y@);
    true
}

/// Whether `c` is Unicode white space.
pub fn white_space(c: char) -> (r: bool)
    ensures
        r == is_white_space(c),
{
    ('\u{9}' <= c && c <= '\u{d}') || c == '\u{20}' || c == '\u{85}' || c == '\u{a0}' || c
        == '\u{1680}' || ('\u{2000}' <= c && c <= '\u{200a}') || c == '\u{2028}' || c == '\u{2029}'
        || c == '\u{202f}' || c == '\u{205f}' || c == '\u{3000}'
}

/// Whether `c` is ASCII white space.
pub fn ascii_space(c: char) -> (r: bool)
    ensures
        r == is_ascii_space(c),
{
    c == ' ' || c == '\t' || c == '\n' || c == '\u{c}' || c == '\r'
}

/// The position of the first character of `v` that is not white space.
fn leading_space(v: &[char]) -> (n: usize)
    ensures
        n <= v@.len(),
        trim_start(v@) == v@.skip(n as int),
{
    let mut n: usize = 0;
    assert(v@.skip(0) =~= v@);
    while n < v.len() && white_space(v[n])
        invariant
            n <= v@.len(),
            trim_start(v@) == trim_start(v@.skip(n as int)),
        decreases v@.len() - n,
    {
        assert(v@.skip(n as int).drop_first() =~= v@.skip(n + 1));
        n = n + 1;
    }
    n
}

/// `s` without leading white space.
pub fn trimmed_start(s: &str) -> (r: String)
    ensures
        r@ == trim_start(s@),
{
    let v: Vec<char> = chars_of(s);
    let n: usize = leading_space(v.as_slice());
    string_of(v.as_slice(), n, v.len())
}

/// `s` without leading and trailing white space.
pub fn trimmed(s: &str) -> (r: String)
    ensures
        r@ == trim(s@),
{
    let v: Vec<char> = chars_of(s);
    let from: usize = leading_space(v.as_slice());
    let mut to: usize = v.len();
    assert(v@.subrange(from as int, to as int) =~= v@.skip(from as int));
    while from < to && white_space(v[to - 1])
        invariant
            from <= to <= v@.len(),
            trim(s@) == trim_end(v@.subrange(from as int, to as int)),
        decreases to,
    {
        assert(v@.subrange(from as int, to as int).drop_last() =~= v@.subrange(
            from as int,
            to - 1,
        ));
        to = to - 1;
    }
    string_of(v.as_slice(), from, to)
}

/// The decimal numeral of `n`.
pub fn decimal_string(n: u64) -> (r: String)
    ensures
        r@ == decimal(n as nat),
    decreases n,
{
    let mut r: String;
    if n < 10 {
        r = String::new();
    } else {
        r = decimal_string(n / 10);
    }
    let d: u8 = (n % 10) as u8;
    r.push((48 + d) as char);
    assert(r@ =~= decimal(n as nat));
    r
}

/// The decimal numeral of `n`, signed.
pub fn signed_decimal_string(n: i64) -> (r: String)
    ensures
        r@ == signed_decimal(n as int),
{
    if n < 0 {
        let mut r = String::new();
        r.push('-');
        let magnitude: u64 = (-(n as i128)) as u64;
        r.append(decimal_string(magnitude).as_str());
        assert(r@ =~= signed_decimal(n as int));
        r
    } else {
        decimal_string(n as u64)
    }
}

/// The decimal numeral of `n` with at least two digits.
pub fn two_digit_string(n: u64) -> (r: String)
    ensures
        r@ == two_digits(n as nat),
{
    if n < 10 {
        let mut r = String::new();
        r.push('0');
        r.append(decimal_string(n).as_str());
        assert(r@ =~= two_digits(n as nat));
        r
    } else {
        decimal_string(n)
    }
}

proof fn lemma_digits_value_prefix(s: Seq<char>, n: int)
    requires
        0 <= n <= s.len(),
        all_digits(s),
    ensures
        0 <= digits_value(s.take(n)) <= digits_value(s),
    decreases s.len() - n, s.len(),
{
    if n == s.len() {
        assert(s.take(n) =~= s);
        if n > 0 {
            let t = s.drop_last();
            assert(forall|i: int| 0 <= i < t.len() ==> t[i] == s[i]);
            lemma_digits_value_prefix(t, t.len() as int);
            assert(t.take(t.len() as int) =~= t);
            assert(is_digit(s[s.len() - 1]));
        }
    } else {
        lemma_digits_value_prefix(s, n + 1);
        let t = s.take(n + 1);
        assert(t.drop_last() =~= s.take(n));
        assert(is_digit(s[n]));
        assert(forall|i: int| 0 <= i < t.drop_last().len() ==> t.drop_last()[i] == s[i]);
        assert(all_digits(s.take(n)));
        lemma_digits_value_prefix(s.take(n), n);
        assert(s.take(n).take(n) =~= s.take(n));
    }
}

/// Reads an integer in `lo ..= hi`: an optional sign and decimal digits.
pub fn parse_i64(s: &str, lo: i64, hi: i64) -> (r: Option<i64>)
    ensures
        match parse_int(s@, lo as int, hi as int) {
            Some(n) => r matches Some(m) && m == n,
            None => r is None,
        },
{
    let v: Vec<char> = chars_of(s);
    let negative: bool = v.len() > 0 && v[0] == '-';
    let start: usize = if v.len() > 0 && (v[0] == '-' || v[0] == '+') {
        1
    } else {
        0
    };
    let ghost body = unsigned_part(s@);
    assert(body =~= v@.skip(start as int));
    if start == v.len() {
        return None;
    }
    let mut acc: i128 = 0;
    let mut i: usize = start;
    while i < v.len()
        invariant
            start <= i <= v@.len(),
            body == v@.skip(start as int),
            body == unsigned_part(s@),
            body.len() > 0,
            all_digits(body.take(i - start)),
            acc == digits_value(body.take(i - start)),
            0 <= acc <= 0x1_0000_0000_0000_0000,
        decreases v@.len() - i,
    {
        let c: char = v[i];
        assert(body[i - start] == c);
        if !('0' <= c && c <= '9') {
            assert(!is_digit(body[i - start]));
            return None;
        }
        let ghost prefix = body.take(i - start + 1);
        assert(prefix.drop_last() =~= body.take(i - start));
        acc = acc * 10 + (c as u32 as i128 - 48);
        i = i + 1;
        assert(acc == digits_value(prefix));
        assert(all_digits(prefix)) by {
            assert forall|k: int| 0 <= k < prefix.len() implies is_digit(#[trigger] prefix[k]) by {
                if k < prefix.len() - 1 {
                    assert(prefix[k] == body.take(i - 1 - start)[k]);
                }
            }
        }
        if acc > 0x1_0000_0000_0000_0000 {
            proof {
                if all_digits(body) {
                    lemma_digits_value_prefix(body, i - start);
                }
            }
            return None;
        }
    }
    assert(body.take(i - start) =~= body);
    let value: i128 = if negative {
        -acc
    } else {
        acc
    };
    if (lo as i128) <= value && value <= (hi as i128) {
        Some(value as i64)
    } else {
        None
    }
}

/// Whether `p` stands in `v` at position `at`.
pub fn text_at(v: &[char], p: &[char], at: usize) -> (r: bool)
    ensures
        r == occurs_at(v@, p@, at as int),
{
    if p.len() > v.len() || at > v.len() - p.len() {
        return false;
    }
    for i in 0..p.len()
        invariant
            at + p@.len() <= v@.len(),
            v@.len() <= usize::MAX,
            forall|k: int| 0 <= k < i ==> v@[at + k] == p@[k],
    {
        if v[at + i] != p[i] {
            assert(v@.subrange(at as int, at + p@.len())[i as int] != p@[i as int]);
            return false;
        }
    }
    assert(v@.subrange(at as int, at + p@.len()) =~= p@);
    true
}

/// Whether `p` stands anywhere in `s`.
pub fn has_text(s: &str, p: &str) -> (r: bool)
    ensures
        r == contains_text(s@, p@),
{
    let v: Vec<char> = chars_of(s);
    let w: Vec<char> = chars_of(p);
    for at in 0..v.len()
        invariant
            v@ == s@,
            w@ == p@,
            forall|k: int| 0 <= k < at ==> !occurs_at(s@, p@, k),
    {
        if text_at(v.as_slice(), w.as_slice(), at) {
            assert(occurs_at(s@, p@, at as int));
            return true;
        }
    }
    let at_end: bool = text_at(v.as_slice(), w.as_slice(), v.len());
    assert(at_end == occurs_at(s@, p@, s@.len() as int));
    at_end
}

/// What follows the prefix `p` of `s`, if `s` begins with it.
pub fn after_prefix(s: &str, p: &str) -> (r: Option<String>)
    ensures
        opt_view(r) == strip_prefix(s@, p@),
{
    let v: Vec<char> = chars_of(s);
    let p: Vec<char> = chars_of(p);
    if text_at(v.as_slice(), p.as_slice(), 0) {
        let rest: String = string_of(v.as_slice(), p.len(), v.len());
        assert(rest@ =~= v@.skip(p@.len() as int));
        Some(rest)
    } else {
        None
    }
}

// --- Laws --------------------------------------------------------------------

proof fn lemma_decimal(n: nat)
    ensures
        decimal(n).len() > 0,
        all_digits(decimal(n)),
        digits_value(decimal(n)) == n,
    decreases n,
{
    if n < 10 {
        assert(decimal(n).drop_last() =~= Seq::empty());
        assert(digits_value(Seq::<char>::empty()) == 0);
    } else {
        lemma_decimal(n / 10);
        let d = decimal(n);
        assert(d.drop_last() =~= decimal(n / 10));
        assert forall|i: int| 0 <= i < d.len() implies is_digit(#[trigger] d[i]) by {
            if i < d.len() - 1 {
                assert(d[i] == decimal(n / 10)[i]);
            }
        }
    }
}

/// Reading a written number gives it back.
pub proof fn numeral_round_trip(n: int, lo: int, hi: int)
    requires
        lo <= n <= hi,
    ensures
        parse_int(signed_decimal(n), lo, hi) == Some(n),
{
    if n < 0 {
        lemma_decimal((-n) as nat);
        assert(unsigned_part(signed_decimal(n)) =~= decimal((-n) as nat));
    } else {
        lemma_decimal(n as nat);
        assert(is_digit(decimal(n as nat)[0]));
        assert(unsigned_part(signed_decimal(n)) =~= decimal(n as nat));
    }
}

/// What follows a prefix that was put in front is what it was put in front of.
pub proof fn prefix_round_trip(p: Seq<char>, s: Seq<char>)
    ensures
        strip_prefix(p + s, p) == Some(s),
{
    assert((p + s).subrange(0, p.len() as int) =~= p);
    assert((p + s).skip(p.len() as int) =~= s);
}

proof fn lemma_trim_start(s: Seq<char>)
    ensures
        exists|a: int| 0 <= a <= s.len() && trim_start(s) == #[trigger] s.skip(a) && forall|i: int|
            0 <= i < a ==> is_white_space(#[trigger] s[i]),
        trim_start(s).len() > 0 ==> !is_white_space(trim_start(s)[0]),
    decreases s.len(),
{
    if s.len() > 0 && is_white_space(s[0]) {
        let rest = s.drop_first();
        lemma_trim_start(rest);
        let a = choose|a: int|
            0 <= a <= rest.len() && trim_start(rest) == #[trigger] rest.skip(a) && forall|i: int|
                0 <= i < a ==> is_white_space(#[trigger] rest[i]);
        assert(s.skip(a + 1) =~= rest.skip(a));
        assert forall|i: int| 0 <= i < a + 1 implies is_white_space(#[trigger] s[i]) by {
            if i > 0 {
                assert(rest[i - 1] == s[i]);
            }
        }
        assert(trim_start(s) == s.skip(a + 1));
    } else {
        assert(s.skip(0) =~= s);
        assert(trim_start(s) == s.skip(0));
    }
}

proof fn lemma_trim_end(s: Seq<char>)
    ensures
        exists|b: int| 0 <= b <= s.len() && trim_end(s) == #[trigger] s.take(b) && forall|i: int|
            b <= i < s.len() ==> is_white_space(#[trigger] s[i]),
        trim_end(s).len() > 0 ==> !is_white_space(trim_end(s).last()),
    decreases s.len(),
{
    if s.len() > 0 && is_white_space(s.last()) {
        let rest = s.drop_last();
        lemma_trim_end(rest);
        let b = choose|b: int|
            0 <= b <= rest.len() && trim_end(rest) == #[trigger] rest.take(b) && forall|i: int|
                b <= i < rest.len() ==> is_white_space(#[trigger] rest[i]);
        assert(s.take(b) =~= rest.take(b));
        assert forall|i: int| b <= i < s.len() implies is_white_space(#[trigger] s[i]) by {
            if i < rest.len() {
                assert(rest[i] == s[i]);
            }
        }
        assert(trim_end(s) == s.take(b));
    } else {
        assert(s.take(s.len() as int) =~= s);
        assert(trim_end(s) == s.take(s.len() as int));
    }
}

/// Trimming takes the white space off both ends of a text and nothing else:
/// what is left is a part of it in one piece, begins and ends with something
/// visible, and holds everything that is visible.
pub proof fn trim_strips_white_space(s: Seq<char>)
    ensures
        exists|a: int|
            0 <= a && a + trim(s).len() <= s.len() && trim(s) == #[trigger] s.subrange(
                a,
                a + trim(s).len(),
            ) && (forall|i: int| 0 <= i < a ==> is_white_space(#[trigger] s[i])) && (forall|i: int|
                a + trim(s).len() <= i < s.len() ==> is_white_space(#[trigger] s[i])),
        trim(s).len() > 0 ==> !is_white_space(trim(s)[0]) && !is_white_space(trim(s).last()),
{
    lemma_trim_start(s);
    lemma_trim_end(s);
    let front = trim_start(s);
    lemma_trim_end(front);
    lemma_trim_start(trim_end(s));
    let a = choose|a: int|
        0 <= a <= s.len() && front == #[trigger] s.skip(a) && forall|i: int|
            0 <= i < a ==> is_white_space(#[trigger] s[i]);
    let b = choose|b: int|
        0 <= b <= front.len() && trim_end(front) == #[trigger] front.take(b) && forall|i: int|
            b <= i < front.len() ==> is_white_space(#[trigger] front[i]);
    assert(front.take(b) =~= s.subrange(a, a + b));
    assert forall|i: int| a + b <= i < s.len() implies is_white_space(#[trigger] s[i]) by {
        assert(front[i - a] == s[i]);
    }
    if b > 0 {
        assert(front.take(b)[0] == front[0]);
    }
    assert(trim(s) == s.subrange(a, a + b));
}

/// A part of a text that begins and ends with something visible is what trimming
/// leaves, if only white space stands around it. Of white space alone nothing is
/// left.
pub proof fn trim_leaves_the_middle(s: Seq<char>, a: int, b: int)
    requires
        0 <= a <= b <= s.len(),
        forall|i: int| 0 <= i < a ==> is_white_space(#[trigger] s[i]),
        forall|i: int| b <= i < s.len() ==> is_white_space(#[trigger] s[i]),
        a < b ==> !is_white_space(s[a]) && !is_white_space(s[b - 1]),
    ensures
        trim(s) == s.subrange(a, b),
{
    trim_strips_white_space(s);
    let n = trim(s).len() as int;
    let c = choose|c: int|
        0 <= c && c + n <= s.len() && trim(s) == #[trigger] s.subrange(c, c + n) && (forall|i: int|
            0 <= i < c ==> is_white_space(#[trigger] s[i])) && (forall|i: int|
            c + n <= i < s.len() ==> is_white_space(#[trigger] s[i]));
    if n > 0 {
        assert(trim(s)[0] == s[c]);
        assert(trim(s).last() == s[c + n - 1]);
        assert(a <= c < b);
        assert(c <= a);
        assert(a <= c + n - 1 < b);
        assert(b <= c + n);
    } else if a < b {
        assert(is_white_space(s[a]));
    }
    assert(trim(s) =~= s.subrange(a, b));
}

/// The numeral of an integer holds no white space.
pub proof fn numerals_hold_no_white_space(n: int)
    ensures
        signed_decimal(n).len() > 0,
        forall|i: int|
            0 <= i < signed_decimal(n).len() ==> !is_white_space(#[trigger] signed_decimal(n)[i]),
        trim(signed_decimal(n)) == signed_decimal(n),
{
    let s = signed_decimal(n);
    let m = if n < 0 {
        (-n) as nat
    } else {
        n as nat
    };
    lemma_decimal(m);
    assert forall|i: int| 0 <= i < s.len() implies !is_white_space(#[trigger] s[i]) by {
        if n < 0 {
            if i > 0 {
                assert(s[i] == decimal(m)[i - 1]);
                assert(is_digit(decimal(m)[i - 1]));
            }
        } else {
            assert(is_digit(decimal(m)[i]));
        }
    }
    trim_leaves_the_middle(s, 0, s.len() as int);
    assert(s.subrange(0, s.len() as int) =~= s);
}

/// A numeral of two digits reads back, with its leading zero.
pub proof fn two_digits_read_back(n: nat)
    requires
        n < 100,
    ensures
        two_digits(n).len() == 2,
        parse_int(two_digits(n), 0, 99) == Some(n as int),
{
    let s = two_digits(n);
    lemma_decimal(n);
    if n < 10 {
        assert(s.drop_last() =~= seq!['0']);
        assert(seq!['0'].drop_last() =~= Seq::<char>::empty());
        assert(digits_value(Seq::<char>::empty()) == 0);
        assert(digits_value(seq!['0']) == 0);
        assert(digits_value(s) == n);
        assert forall|i: int| 0 <= i < s.len() implies is_digit(#[trigger] s[i]) by {}
    } else {
        assert(decimal(n / 10).len() == 1);
        assert(is_digit(s[0]));
    }
    assert(is_digit(s[0]));
    assert(unsigned_part(s) == s);
}

/// Nothing but a number is read as one: a text that is empty, or holds anything
/// but decimal digits behind its sign, is none, and neither is a number out of
/// range. A leading `+` changes nothing.
pub proof fn only_numbers_are_read(s: Seq<char>, lo: int, hi: int, i: int)
    ensures
        s.len() == 0 ==> parse_int(s, lo, hi) is None,
        0 < i < s.len() && !('0' <= s[i] <= '9') ==> parse_int(s, lo, hi) is None,
        s.len() > 0 && s[0] != '-' && s[0] != '+' && !('0' <= s[0] <= '9') ==> parse_int(
            s,
            lo,
            hi,
        ) is None,
        parse_int(s, lo, hi) matches Some(n) ==> lo <= n <= hi,
        s.len() > 0 && '0' <= s[0] <= '9' ==> parse_int(seq!['+'] + s, lo, hi) == parse_int(
            s,
            lo,
            hi,
        ),
{
    let body = unsigned_part(s);
    if 0 < i < s.len() && !('0' <= s[i] <= '9') {
        if s[0] == '-' || s[0] == '+' {
            assert(body[i - 1] == s[i]);
            assert(!is_digit(body[i - 1]));
        } else {
            assert(!is_digit(body[i]));
        }
    }
    if s.len() > 0 && s[0] != '-' && s[0] != '+' && !('0' <= s[0] <= '9') {
        assert(!is_digit(body[0]));
    }
    assert((seq!['+'] + s).drop_first() =~= s);
}

} // verus!
