//! Message text as Pango markup.
//!
//! Everything a message says is escaped, so that it cannot inject markup; only
//! `http://` and `https://` addresses become links.

use crate::text::{ascii_space, chars_of, is_ascii_space, occurs_at, text_at};
use vstd::prelude::*;

verus! {

/// The lowercase hexadecimal digit of `d`.
pub open spec fn hex_char(d: nat) -> char {
    if d < 10 {
        (48 + d) as char
    } else {
        (87 + d) as char
    }
}

/// The lowercase hexadecimal numeral of a number below 256.
pub open spec fn hex(n: nat) -> Seq<char> {
    if n < 16 {
        seq![hex_char(n)]
    } else {
        seq![hex_char(n / 16), hex_char(n % 16)]
    }
}

/// The control characters that XML 1.1 wants as references.
pub open spec fn is_restricted(c: char) -> bool {
    ||| '\u{1}' <= c <= '\u{8}'
    ||| '\u{b}' <= c <= '\u{c}'
    ||| '\u{e}' <= c <= '\u{1f}'
    ||| '\u{7f}' <= c <= '\u{84}'
    ||| '\u{86}' <= c <= '\u{9f}'
}

/// One character of text as markup.
pub open spec fn escaped_char(c: char) -> Seq<char> {
    if c == '&' {
        "&amp;"@
    } else if c == '<' {
        "&lt;"@
    } else if c == '>' {
        "&gt;"@
    } else if c == '\'' {
        "&#39;"@
    } else if c == '"' {
        "&quot;"@
    } else if is_restricted(c) {
        "&#x"@ + hex(c as nat) + ";"@
    } else {
        seq![c]
    }
}

/// Each character of `s` as markup.
pub open spec fn escaped(s: Seq<char>) -> Seq<char>
    decreases s.len(),
{
    if s.len() == 0 {
        Seq::empty()
    } else {
        escaped(s.drop_last()) + escaped_char(s.last())
    }
}

/// `s` up to its first NUL, which ends a text.
pub open spec fn until_nul(s: Seq<char>) -> Seq<char>
    decreases s.len(),
{
    if s.len() == 0 || s.first() == '\0' {
        Seq::empty()
    } else {
        seq![s.first()] + until_nul(s.drop_first())
    }
}

/// Text as markup.
pub open spec fn escape(s: Seq<char>) -> Seq<char> {
    escaped(until_nul(s))
}

/// Whether an address begins at `at`.
pub open spec fn url_at(s: Seq<char>, at: int) -> bool {
    occurs_at(s, "http://"@, at) || occurs_at(s, "https://"@, at)
}

/// Where the first address at or after `from` begins; the end if there is none.
pub open spec fn next_url(s: Seq<char>, from: int) -> int
    decreases s.len() - from,
{
    if from >= s.len() || url_at(s, from) {
        from
    } else {
        next_url(s, from + 1)
    }
}

/// Where the run without ASCII white space that holds `from` ends.
pub open spec fn url_end(s: Seq<char>, from: int) -> int
    decreases s.len() - from,
{
    if from >= s.len() || is_ascii_space(s[from]) {
        from
    } else {
        url_end(s, from + 1)
    }
}

/// An address as a link.
pub open spec fn link(url: Seq<char>) -> Seq<char> {
    "<a href=\""@ + escape(url) + "\">"@ + escape(url) + "</a>"@
}

/// The next address lies inside the text.
pub proof fn lemma_next_url(s: Seq<char>, from: int)
    requires
        0 <= from <= s.len(),
    ensures
        from <= next_url(s, from) <= s.len(),
        next_url(s, from) < s.len() ==> url_at(s, next_url(s, from)),
        forall|i: int| from <= i < next_url(s, from) ==> !url_at(s, i),
    decreases s.len() - from,
{
    if from < s.len() && !url_at(s, from) {
        lemma_next_url(s, from + 1);
    }
}

/// A run ends inside the text, and an address is not empty.
pub proof fn lemma_url_end(s: Seq<char>, from: int)
    requires
        0 <= from <= s.len(),
    ensures
        from <= url_end(s, from) <= s.len(),
        url_at(s, from) ==> from < url_end(s, from),
    decreases s.len() - from,
{
    reveal_strlit("http://");
    reveal_strlit("https://");
    if from < s.len() && !is_ascii_space(s[from]) {
        lemma_url_end(s, from + 1);
    } else if url_at(s, from) {
        let n = if occurs_at(s, "http://"@, from) {
            7
        } else {
            8int
        };
        assert(s.subrange(from, from + n)[0] == 'h');
    }
}

/// The text from `from` on as markup.
pub open spec fn linked_from(s: Seq<char>, from: int) -> Seq<char>
    decreases s.len() - from,
{
    if 0 <= from <= s.len() {
        let at = next_url(s, from);
        let run = escape(s.subrange(from, at));
        let end = url_end(s, at);
        if at >= s.len() {
            run
        } else {
            proof {
                lemma_next_url(s, from);
                lemma_url_end(s, at);
            }
            run + link(s.subrange(at, end)) + linked_from(s, end)
        }
    } else {
        Seq::empty()
    }
}

/// A text as markup.
pub open spec fn linked(s: Seq<char>) -> Seq<char> {
    linked_from(s, 0)
}

fn push_all(out: &mut String, text: &str)
    ensures
        final(out)@ == old(out)@ + text@,
{
    out.append(text);
}

fn hex_digit(d: u8) -> (c: char)
    requires
        d < 16,
    ensures
        c == hex_char(d as nat),
{
    if d < 10 {
        (48 + d) as char
    } else {
        (87 + d) as char
    }
}

/// Appends one character as markup.
fn push_escaped(out: &mut String, c: char)
    ensures
        final(out)@ == old(out)@ + escaped_char(c),
{
    let ghost before = out@;
    if c == '&' {
        push_all(out, "&amp;");
    } else if c == '<' {
        push_all(out, "&lt;");
    } else if c == '>' {
        push_all(out, "&gt;");
    } else if c == '\'' {
        push_all(out, "&#39;");
    } else if c == '"' {
        push_all(out, "&quot;");
    } else if ('\u{1}' <= c && c <= '\u{8}') || ('\u{b}' <= c && c <= '\u{c}') || ('\u{e}' <= c && c
        <= '\u{1f}') || ('\u{7f}' <= c && c <= '\u{84}') || ('\u{86}' <= c && c <= '\u{9f}') {
        let n: u8 = c as u8;
        push_all(out, "&#x");
        if n < 16 {
            out.push(hex_digit(n));
        } else {
            out.push(hex_digit(n / 16));
            out.push(hex_digit(n % 16));
        }
        push_all(out, ";");
        assert(out@ =~= before + ("&#x"@ + hex(c as nat) + ";"@));
    } else {
        out.push(c);
        assert(out@ =~= before + seq![c]);
    }
}

/// Appends `v[from .. to]` as markup.
fn push_text(out: &mut String, v: &[char], from: usize, to: usize)
    requires
        from <= to <= v@.len(),
    ensures
        final(out)@ == old(out)@ + escape(v@.subrange(from as int, to as int)),
{
    let ghost before = out@;
    let ghost s = v@.subrange(from as int, to as int);
    let mut i: usize = from;
    assert(escaped(s.take(0)) =~= Seq::empty());
    assert(before =~= before + escaped(s.take(0)));
    proof {
        assert(s.skip(0) =~= s);
        assert(s.take(0) + until_nul(s.skip(0)) =~= until_nul(s));
    }
    while i < to && v[i] != '\0'
        invariant
            from <= i <= to <= v@.len(),
            s == v@.subrange(from as int, to as int),
            out@ == before + escaped(s.take(i - from)),
            until_nul(s) == s.take(i - from) + until_nul(s.skip(i - from)),
        decreases to - i,
    {
        let ghost k = i - from;
        push_escaped(out, v[i]);
        assert(s.take(k + 1).drop_last() =~= s.take(k));
        assert(out@ =~= before + escaped(s.take(k + 1)));
        assert(s.skip(k).drop_first() =~= s.skip(k + 1));
        assert(s.take(k) + (seq![s[k]] + until_nul(s.skip(k + 1))) =~= s.take(k + 1) + until_nul(
            s.skip(k + 1),
        ));
        i = i + 1;
    }
    assert(until_nul(s.skip(i - from)) =~= Seq::empty());
    assert(until_nul(s) =~= s.take(i - from));
}

/// Text as markup, with `&`, `<`, `>`, quotes and control characters escaped.
pub fn markup_escape_text(text: &str) -> (r: String)
    ensures
        r@ == escape(text@),
{
    let v: Vec<char> = chars_of(text);
    let mut out = String::new();
    push_text(&mut out, v.as_slice(), 0, v.len());
    assert(v@.subrange(0, v@.len() as int) =~= v@);
    assert(Seq::<char>::empty() + escape(text@) =~= escape(text@));
    out
}

/// Renders `text` as markup with its addresses as links.
pub fn linkify(text: &str) -> (r: String)
    ensures
        r@ == linked(text@),
{
    let v: Vec<char> = chars_of(text);
    let plain: Vec<char> = chars_of("http://");
    let secure: Vec<char> = chars_of("https://");
    let ghost s = v@;
    let mut out = String::new();
    let mut from: usize = 0;
    let mut done: bool = false;
    assert(linked(s) =~= out@ + linked_from(s, 0));
    while !done
        invariant
            s == v@,
            plain@ == "http://"@,
            secure@ == "https://"@,
            from <= v@.len(),
            !done ==> linked(s) == out@ + linked_from(s, from as int),
            done ==> linked(s) == out@,
        decreases v@.len() - from, if done { 0int } else { 1int },
    {
        let ghost before = out@;
        let mut at: usize = from;
        while at < v.len() && !(text_at(v.as_slice(), plain.as_slice(), at) || text_at(
            v.as_slice(),
            secure.as_slice(),
            at,
        ))
            invariant
                s == v@,
                plain@ == "http://"@,
                secure@ == "https://"@,
                from <= at <= v@.len(),
                next_url(s, from as int) == next_url(s, at as int),
            decreases v@.len() - at,
        {
            at = at + 1;
        }
        assert(at == next_url(s, from as int));
        push_text(&mut out, v.as_slice(), from, at);
        if at == v.len() {
            assert(out@ =~= before + linked_from(s, from as int)) by {
                lemma_url_end(s, at as int);
            }
            done = true;
        } else {
            let mut end: usize = at;
            while end < v.len() && !ascii_space(v[end])
                invariant
                    s == v@,
                    at <= end <= v@.len(),
                    url_end(s, at as int) == url_end(s, end as int),
                decreases v@.len() - end,
            {
                end = end + 1;
            }
            proof {
                lemma_url_end(s, at as int);
            }
            push_all(&mut out, "<a href=\"");
            push_text(&mut out, v.as_slice(), at, end);
            push_all(&mut out, "\">");
            push_text(&mut out, v.as_slice(), at, end);
            push_all(&mut out, "</a>");
            assert(out@ =~= before + (escape(s.subrange(from as int, at as int)) + link(
                s.subrange(at as int, end as int),
            )));
            assert(out@ + linked_from(s, end as int) =~= before + linked_from(s, from as int));
            from = end;
        }
    }
    out
}

// --- Laws --------------------------------------------------------------------

/// Escaped characters hold nothing that opens or closes a tag or an attribute.
proof fn lemma_escaped_char_plain(c: char)
    ensures
        forall|i: int|
            0 <= i < escaped_char(c).len() ==> {
                let d = #[trigger] escaped_char(c)[i];
                d != '<' && d != '>' && d != '"' && d != '\''
            },
{
    reveal_strlit("&amp;");
    reveal_strlit("&lt;");
    reveal_strlit("&gt;");
    reveal_strlit("&#39;");
    reveal_strlit("&quot;");
    reveal_strlit("&#x");
    reveal_strlit(";");
}

/// Escaped text holds none of `<`, `>`, `"` and `'`: whatever a message says,
/// it cannot open or close a tag or end an attribute.
pub proof fn escape_leaves_no_markup(s: Seq<char>)
    ensures
        forall|i: int|
            0 <= i < escape(s).len() ==> {
                let d = #[trigger] escape(s)[i];
                d != '<' && d != '>' && d != '"' && d != '\''
            },
{
    lemma_escaped_plain(until_nul(s));
}

proof fn lemma_escaped_plain(s: Seq<char>)
    ensures
        forall|i: int|
            0 <= i < escaped(s).len() ==> {
                let d = #[trigger] escaped(s)[i];
                d != '<' && d != '>' && d != '"' && d != '\''
            },
    decreases s.len(),
{
    if s.len() > 0 {
        lemma_escaped_plain(s.drop_last());
        lemma_escaped_char_plain(s.last());
        let n = escaped(s.drop_last()).len();
        assert forall|i: int| 0 <= i < escaped(s).len() implies {
            let d = #[trigger] escaped(s)[i];
            d != '<' && d != '>' && d != '"' && d != '\''
        } by {
            if i < n {
                assert(escaped(s)[i] == escaped(s.drop_last())[i]);
            } else {
                assert(escaped(s)[i] == escaped_char(s.last())[i - n]);
            }
        }
    }
}

/// A message without an address is just escaped.
pub proof fn plain_text_is_escaped(s: Seq<char>)
    requires
        forall|i: int| 0 <= i < s.len() ==> !url_at(s, i),
    ensures
        linked(s) == escape(s),
{
    lemma_next_url(s, 0);
    assert(next_url(s, 0) == s.len());
    assert(s.subrange(0, s.len() as int) =~= s);
}

/// An address begins wherever `http://` or `https://` stands, and nowhere else.
pub proof fn addresses_begin_with_their_scheme(s: Seq<char>, at: int)
    requires
        0 <= at <= s.len(),
    ensures
        url_at(s, at) <==> {
            ||| at + 7 <= s.len() && s.subrange(at, at + 7) == seq![
                'h',
                't',
                't',
                'p',
                ':',
                '/',
                '/',
            ]
            ||| at + 8 <= s.len() && s.subrange(at, at + 8) == seq![
                'h',
                't',
                't',
                'p',
                's',
                ':',
                '/',
                '/',
            ]
        },
{
    reveal_strlit("http://");
    reveal_strlit("https://");
    assert("http://"@ =~= seq!['h', 't', 't', 'p', ':', '/', '/']);
    assert("https://"@ =~= seq!['h', 't', 't', 'p', 's', ':', '/', '/']);
}

/// The run of an address reaches to the next space, tab or line break.
pub proof fn addresses_end_at_white_space(s: Seq<char>, from: int, to: int)
    requires
        0 <= from <= to <= s.len(),
        forall|i: int|
            from <= i < to ==> !((#[trigger] s[i]) == ' ' || s[i] == '\t' || s[i] == '\n' || s[i]
                == '\u{c}' || s[i] == '\r'),
        to < s.len() ==> s[to] == ' ' || s[to] == '\t' || s[to] == '\n' || s[to] == '\u{c}' || s[to]
            == '\r',
    ensures
        url_end(s, from) == to,
    decreases to - from,
{
    if from < to {
        assert(!is_ascii_space(s[from]));
        addresses_end_at_white_space(s, from + 1, to);
    }
}

/// Whether markup can hold `c` as it stands: a tab, a line break or anything else
/// that is no control character.
pub open spec fn is_printable(c: char) -> bool {
    ||| c == '\u{9}'
    ||| c == '\u{a}'
    ||| c == '\u{d}'
    ||| '\u{20}' <= c <= '\u{7e}'
    ||| c == '\u{85}'
    ||| '\u{a0}' <= c
}

proof fn lemma_hex_char(d: nat)
    ensures
        d < 16 ==> '0' <= hex_char(d) <= '9' || 'a' <= hex_char(d) <= 'f',
{
}

proof fn lemma_escaped_char_printable(c: char)
    requires
        c != '\0',
    ensures
        forall|i: int| 0 <= i < escaped_char(c).len() ==> is_printable(#[trigger] escaped_char(c)[i]),
{
    reveal_strlit("&amp;");
    reveal_strlit("&lt;");
    reveal_strlit("&gt;");
    reveal_strlit("&#39;");
    reveal_strlit("&quot;");
    reveal_strlit("&#x");
    reveal_strlit(";");
    let e = escaped_char(c);
    assert forall|i: int| 0 <= i < e.len() implies is_printable(#[trigger] e[i]) by {
        if is_restricted(c) {
            let h = hex(c as nat);
            assert(e =~= "&#x"@ + h + ";"@);
            if 3 <= i < 3 + h.len() {
                assert(e[i] == h[i - 3]);
                lemma_hex_char(c as nat / 16);
                lemma_hex_char(c as nat % 16);
                lemma_hex_char(c as nat);
            }
        }
    }
}

proof fn lemma_escaped_printable(s: Seq<char>)
    requires
        !s.contains('\0'),
    ensures
        forall|i: int| 0 <= i < escaped(s).len() ==> is_printable(#[trigger] escaped(s)[i]),
    decreases s.len(),
{
    if s.len() > 0 {
        let rest = s.drop_last();
        let c = s.last();
        let n = escaped(rest).len();
        assert forall|i: int| 0 <= i < rest.len() implies rest[i] != '\0' by {
            assert(s.contains(s[i]));
        }
        assert(s.contains(s[s.len() - 1]));
        lemma_escaped_printable(rest);
        lemma_escaped_char_printable(c);
        assert forall|i: int| 0 <= i < escaped(s).len() implies is_printable(
            #[trigger] escaped(s)[i],
        ) by {
            if i < n {
                assert(escaped(s)[i] == escaped(rest)[i]);
            } else {
                assert(escaped(s)[i] == escaped_char(c)[i - n]);
            }
        }
    }
}

proof fn lemma_first_nul(before: Seq<char>, after: Seq<char>)
    requires
        !before.contains('\0'),
    ensures
        until_nul(before) == before,
        until_nul(before.push('\0') + after) == before,
    decreases before.len(),
{
    if before.len() > 0 {
        let rest = before.drop_first();
        assert forall|i: int| 0 <= i < rest.len() implies rest[i] != '\0' by {
            assert(before.contains(before[i + 1]));
        }
        assert(before.contains(before[0]));
        lemma_first_nul(rest, after);
        assert((before.push('\0') + after).drop_first() =~= rest.push('\0') + after);
        assert(seq![before[0]] + rest =~= before);
    }
}

/// Escaped text holds no control character, and text ends where the first NUL
/// stands.
pub proof fn escaped_text_is_printable(before: Seq<char>, after: Seq<char>)
    requires
        !before.contains('\0'),
    ensures
        forall|i: int| 0 <= i < escape(before).len() ==> is_printable(#[trigger] escape(before)[i]),
        escape(before.push('\0') + after) == escape(before),
{
    lemma_first_nul(before, after);
    lemma_escaped_printable(before);
}

} // verus!
