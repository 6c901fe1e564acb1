//! How markup reads: the tags in it, and the text that is left without them.
//!
//! What a message says goes through [`linked`] and is read back here, so that
//! the laws below say what a reader of the markup sees.

use crate::text::is_ascii_space;
use crate::ui::chat_view::markup::{escape, escape_leaves_no_markup, escaped, escaped_char, hex,
    is_restricted, lemma_next_url, lemma_url_end, link, linked, linked_from, next_url, until_nul,
    url_at, url_end};
use vstd::prelude::*;

verus! {

/// How many characters `s` has up to its first `c`, and with it; all of them
/// where there is none.
pub open spec fn up_to(s: Seq<char>, c: char) -> nat
    decreases s.len(),
{
    if s.len() == 0 {
        0
    } else if s.first() == c {
        1
    } else {
        1 + up_to(s.drop_first(), c)
    }
}

/// A run up to a character is not empty, and lies inside the text.
pub proof fn lemma_up_to_range(s: Seq<char>, c: char)
    ensures
        up_to(s, c) <= s.len(),
        s.len() > 0 ==> up_to(s, c) > 0,
    decreases s.len(),
{
    if s.len() > 0 && s.first() != c {
        lemma_up_to_range(s.drop_first(), c);
    }
}

/// The tags of markup, in order: each runs from a `<` to the next `>`.
pub open spec fn tags(m: Seq<char>) -> Seq<Seq<char>>
    decreases m.len(),
{
    if m.len() == 0 {
        Seq::empty()
    } else if m.first() == '<' {
        proof {
            lemma_up_to_range(m, '>');
        }
        let n = up_to(m, '>') as int;
        seq![m.take(n)] + tags(m.skip(n))
    } else {
        tags(m.drop_first())
    }
}

/// Markup without its tags.
pub open spec fn untagged(m: Seq<char>) -> Seq<char>
    decreases m.len(),
{
    if m.len() == 0 {
        Seq::empty()
    } else if m.first() == '<' {
        proof {
            lemma_up_to_range(m, '>');
        }
        untagged(m.skip(up_to(m, '>') as int))
    } else {
        seq![m.first()] + untagged(m.drop_first())
    }
}

/// The value of a lowercase hexadecimal digit.
pub open spec fn hex_value(c: char) -> int {
    if c <= '9' {
        c as int - 48
    } else {
        c as int - 87
    }
}

/// The value of a lowercase hexadecimal numeral.
pub open spec fn hex_number(s: Seq<char>) -> int
    decreases s.len(),
{
    if s.len() == 0 {
        0
    } else {
        16 * hex_number(s.drop_last()) + hex_value(s.last())
    }
}

/// The character that a reference such as `&amp;` or `&#x1f;` stands for.
pub open spec fn referred(e: Seq<char>) -> char {
    if e == "&amp;"@ {
        '&'
    } else if e == "&lt;"@ {
        '<'
    } else if e == "&gt;"@ {
        '>'
    } else if e == "&#39;"@ {
        '\''
    } else if e == "&quot;"@ {
        '"'
    } else {
        hex_number(e.subrange(3, e.len() - 1)) as char
    }
}

/// Text with its references resolved: each runs from a `&` to the next `;`.
pub open spec fn unescaped(s: Seq<char>) -> Seq<char>
    decreases s.len(),
{
    if s.len() == 0 {
        Seq::empty()
    } else if s.first() == '&' {
        proof {
            lemma_up_to_range(s, ';');
        }
        let n = up_to(s, ';') as int;
        seq![referred(s.take(n))] + unescaped(s.skip(n))
    } else {
        seq![s.first()] + unescaped(s.drop_first())
    }
}

/// The addresses of a text from `from` on.
pub open spec fn addresses_from(s: Seq<char>, from: int) -> Seq<Seq<char>>
    decreases s.len() - from,
{
    if 0 <= from <= s.len() {
        let at = next_url(s, from);
        let end = url_end(s, at);
        if at >= s.len() {
            Seq::empty()
        } else {
            proof {
                lemma_next_url(s, from);
                lemma_url_end(s, at);
            }
            seq![s.subrange(at, end)] + addresses_from(s, end)
        }
    } else {
        Seq::empty()
    }
}

/// The addresses of a text, in order.
pub open spec fn addresses(s: Seq<char>) -> Seq<Seq<char>> {
    addresses_from(s, 0)
}

/// The tag that opens the link to `url`.
pub open spec fn opening(url: Seq<char>) -> Seq<char> {
    "<a href=\""@ + escape(url) + "\">"@
}

/// The tags of the links to `urls`: each opens and closes.
pub open spec fn link_tags(urls: Seq<Seq<char>>) -> Seq<Seq<char>>
    decreases urls.len(),
{
    if urls.len() == 0 {
        Seq::empty()
    } else {
        seq![opening(urls.first()), "</a>"@] + link_tags(urls.drop_first())
    }
}

/// Whether `c` opens or closes a tag, or quotes an attribute.
pub open spec fn is_markup(c: char) -> bool {
    c == '<' || c == '>' || c == '"' || c == '\''
}

proof fn lemma_up_to(a: Seq<char>, c: char, b: Seq<char>)
    requires
        forall|i: int| 0 <= i < a.len() ==> (#[trigger] a[i]) != c,
    ensures
        up_to(a + (seq![c] + b), c) == a.len() + 1,
    decreases a.len(),
{
    let all = a + (seq![c] + b);
    if a.len() == 0 {
        assert(all.first() == c);
    } else {
        assert(all.first() == a[0]);
        assert forall|i: int| 0 <= i < a.drop_first().len() implies (#[trigger] a.drop_first()[i])
            != c by {
            assert(a.drop_first()[i] == a[i + 1]);
        }
        lemma_up_to(a.drop_first(), c, b);
        assert(all.drop_first() =~= a.drop_first() + (seq![c] + b));
    }
}

/// A run without tags reads as it stands.
proof fn lemma_plain_run(e: Seq<char>, rest: Seq<char>)
    requires
        forall|i: int| 0 <= i < e.len() ==> (#[trigger] e[i]) != '<',
    ensures
        untagged(e + rest) == e + untagged(rest),
        tags(e + rest) == tags(rest),
    decreases e.len(),
{
    if e.len() == 0 {
        assert(e + rest =~= rest);
        assert(e + untagged(rest) =~= untagged(rest));
    } else {
        let t = e.drop_first();
        assert((e + rest).first() == e[0]);
        assert((e + rest).drop_first() =~= t + rest);
        assert forall|i: int| 0 <= i < t.len() implies (#[trigger] t[i]) != '<' by {
            assert(t[i] == e[i + 1]);
        }
        lemma_plain_run(t, rest);
        assert(seq![e[0]] + (t + untagged(rest)) =~= e + untagged(rest));
    }
}

/// A tag is taken out whole.
proof fn lemma_tag(body: Seq<char>, rest: Seq<char>)
    requires
        body.len() > 0,
        body[0] == '<',
        forall|i: int| 0 <= i < body.len() ==> (#[trigger] body[i]) != '>',
    ensures
        untagged(body.push('>') + rest) == untagged(rest),
        tags(body.push('>') + rest) == seq![body.push('>')] + tags(rest),
{
    let m = body.push('>') + rest;
    assert(m =~= body + (seq!['>'] + rest));
    lemma_up_to(body, '>', rest);
    let n = up_to(m, '>') as int;
    assert(m.take(n) =~= body.push('>'));
    assert(m.skip(n) =~= rest);
    assert(m.first() == '<');
}

proof fn lemma_link(url: Seq<char>, rest: Seq<char>)
    ensures
        untagged(link(url) + rest) == escape(url) + untagged(rest),
        tags(link(url) + rest) == seq![opening(url), "</a>"@] + tags(rest),
{
    reveal_strlit("<a href=\"");
    reveal_strlit("\">");
    reveal_strlit("</a>");
    let e = escape(url);
    escape_leaves_no_markup(url);
    let body = "<a href=\""@ + e + seq!['"'];
    assert(opening(url) =~= body.push('>'));
    assert forall|i: int| 0 <= i < body.len() implies (#[trigger] body[i]) != '>' by {
        if 9 <= i < 9 + e.len() {
            assert(body[i] == e[i - 9]);
        }
    }
    let tail = "</a>"@ + rest;
    let after = e + tail;
    assert(link(url) + rest =~= body.push('>') + after);
    lemma_tag(body, after);
    lemma_plain_run(e, tail);
    let close = "</a"@;
    reveal_strlit("</a");
    assert("</a>"@ =~= close.push('>'));
    lemma_tag(close, rest);
    assert(seq![opening(url)] + (seq!["</a>"@] + tags(rest)) =~= seq![opening(url), "</a>"@] + tags(
        rest,
    ));
}

proof fn lemma_escaped_concat(a: Seq<char>, b: Seq<char>)
    ensures
        escaped(a + b) == escaped(a) + escaped(b),
    decreases b.len(),
{
    if b.len() == 0 {
        assert(a + b =~= a);
        assert(escaped(a) + escaped(b) =~= escaped(a));
    } else {
        lemma_escaped_concat(a, b.drop_last());
        assert((a + b).drop_last() =~= a + b.drop_last());
        assert((a + b).last() == b.last());
        assert(escaped(a) + (escaped(b.drop_last()) + escaped_char(b.last())) =~= (escaped(a)
            + escaped(b.drop_last())) + escaped_char(b.last()));
    }
}

proof fn lemma_until_nul(s: Seq<char>)
    requires
        !s.contains('\0'),
    ensures
        until_nul(s) == s,
    decreases s.len(),
{
    if s.len() > 0 {
        let t = s.drop_first();
        assert(s.contains(s[0]));
        assert(!t.contains('\0')) by {
            if t.contains('\0') {
                let k = choose|k: int| 0 <= k < t.len() && t[k] == '\0';
                assert(s[k + 1] == '\0');
            }
        }
        lemma_until_nul(t);
        assert(seq![s.first()] + t =~= s);
    }
}

proof fn lemma_untagged_from(s: Seq<char>, from: int)
    requires
        0 <= from <= s.len(),
        !s.contains('\0'),
    ensures
        untagged(linked_from(s, from)) == escaped(s.subrange(from, s.len() as int)),
    decreases s.len() - from,
{
    let at = next_url(s, from);
    lemma_next_url(s, from);
    let end = url_end(s, at);
    lemma_url_end(s, at);
    let run = s.subrange(from, at);
    assert forall|a: int, b: int| 0 <= a <= b <= s.len() implies until_nul(
        #[trigger] s.subrange(a, b),
    ) == s.subrange(a, b) by {
        let t = s.subrange(a, b);
        assert(!t.contains('\0')) by {
            if t.contains('\0') {
                let k = choose|k: int| 0 <= k < t.len() && t[k] == '\0';
                assert(s[a + k] == '\0');
            }
        }
        lemma_until_nul(t);
    }
    escape_leaves_no_markup(run);
    if at >= s.len() {
        lemma_plain_run(escape(run), Seq::empty());
        assert(escape(run) + Seq::<char>::empty() =~= escape(run));
        assert(escape(run) + untagged(Seq::empty()) =~= escape(run));
    } else {
        let url = s.subrange(at, end);
        let rest = linked_from(s, end);
        lemma_untagged_from(s, end);
        assert(linked_from(s, from) =~= escape(run) + (link(url) + rest));
        lemma_plain_run(escape(run), link(url) + rest);
        lemma_link(url, rest);
        let left = s.subrange(end, s.len() as int);
        lemma_escaped_concat(url, left);
        lemma_escaped_concat(run, url + left);
        assert(run + (url + left) =~= s.subrange(from, s.len() as int));
    }
}

proof fn lemma_tags_from(s: Seq<char>, from: int)
    requires
        0 <= from <= s.len(),
    ensures
        tags(linked_from(s, from)) == link_tags(addresses_from(s, from)),
        forall|i: int|
            0 <= i < untagged(linked_from(s, from)).len() ==> !is_markup(
                #[trigger] untagged(linked_from(s, from))[i],
            ),
    decreases s.len() - from,
{
    let at = next_url(s, from);
    lemma_next_url(s, from);
    let end = url_end(s, at);
    lemma_url_end(s, at);
    let run = escape(s.subrange(from, at));
    escape_leaves_no_markup(s.subrange(from, at));
    if at >= s.len() {
        lemma_plain_run(run, Seq::empty());
        assert(run + Seq::<char>::empty() =~= run);
        assert(run + untagged(Seq::empty()) =~= run);
    } else {
        let url = s.subrange(at, end);
        let rest = linked_from(s, end);
        lemma_tags_from(s, end);
        escape_leaves_no_markup(url);
        assert(linked_from(s, from) =~= run + (link(url) + rest));
        lemma_plain_run(run, link(url) + rest);
        lemma_link(url, rest);
        let found = addresses_from(s, from);
        assert(found.drop_first() =~= addresses_from(s, end));
        let text = untagged(linked_from(s, from));
        assert(text =~= run + (escape(url) + untagged(rest)));
        assert forall|i: int| 0 <= i < text.len() implies !is_markup(#[trigger] text[i]) by {
            let n = run.len() as int;
            let k = escape(url).len() as int;
            if i < n {
                assert(text[i] == run[i]);
            } else if i < n + k {
                assert(text[i] == escape(url)[i - n]);
            } else {
                assert(text[i] == untagged(rest)[i - n - k]);
            }
        }
    }
}

proof fn lemma_hex(n: nat)
    requires
        n < 256,
    ensures
        hex_number(hex(n)) == n,
        forall|i: int| 0 <= i < hex(n).len() ==> (#[trigger] hex(n)[i]) != ';',
{
    reveal_with_fuel(hex_number, 3);
    if n < 16 {
        assert(hex(n).drop_last() =~= Seq::empty());
    } else {
        assert(hex(n).drop_last() =~= seq![hex(n)[0]]);
        assert(hex(n).drop_last().drop_last() =~= Seq::empty());
    }
}

/// A character reads back from its markup.
proof fn lemma_char_round_trip(c: char, rest: Seq<char>)
    ensures
        unescaped(escaped_char(c) + rest) == seq![c] + unescaped(rest),
{
    reveal_strlit("&amp;");
    reveal_strlit("&lt;");
    reveal_strlit("&gt;");
    reveal_strlit("&#39;");
    reveal_strlit("&quot;");
    reveal_strlit("&#x");
    reveal_strlit(";");
    let e = escaped_char(c);
    let m = e + rest;
    if c == '&' || c == '<' || c == '>' || c == '\'' || c == '"' || is_restricted(c) {
        let body = e.drop_last();
        if is_restricted(c) {
            lemma_hex(c as nat);
            let digits = hex(c as nat);
            assert(body =~= "&#x"@ + digits);
            assert forall|i: int| 0 <= i < body.len() implies (#[trigger] body[i]) != ';' by {
                if i >= 3 {
                    assert(body[i] == digits[i - 3]);
                }
            }
            assert(e.subrange(3, e.len() - 1) =~= digits);
            assert(e[1] == '#' && e[2] == 'x');
            assert(referred(e) == c);
        }
        assert(e =~= body.push(';'));
        assert(m =~= body + (seq![';'] + rest));
        lemma_up_to(body, ';', rest);
        let n = up_to(m, ';') as int;
        assert(m.take(n) =~= e);
        assert(m.skip(n) =~= rest);
        assert(m.first() == '&');
        assert(referred(e) == c) by {
            assert("&amp;"@[1] == 'a' && "&lt;"@[1] == 'l' && "&gt;"@[1] == 'g' && "&#39;"@[1] == '#'
                && "&quot;"@[1] == 'q');
        }
    } else {
        assert(m.first() == c);
        assert(m.drop_first() =~= rest);
    }
}

proof fn lemma_text_round_trip(s: Seq<char>)
    ensures
        unescaped(escaped(s)) == s,
    decreases s.len(),
{
    if s.len() > 0 {
        let head = seq![s.first()];
        let tail = s.drop_first();
        assert(s =~= head + tail);
        lemma_escaped_concat(head, tail);
        assert(head.drop_last() =~= Seq::empty());
        assert(escaped(head) =~= escaped_char(s.first())) by {
            assert(escaped(head.drop_last()) =~= Seq::empty());
        }
        lemma_char_round_trip(s.first(), escaped(tail));
        lemma_text_round_trip(tail);
    }
}

// --- Laws --------------------------------------------------------------------

/// Escaped text reads back as the text.
pub proof fn escaped_text_reads_back(s: Seq<char>)
    requires
        !s.contains('\0'),
    ensures
        unescaped(escape(s)) == s,
{
    lemma_until_nul(s);
    lemma_text_round_trip(s);
}

/// A rendered message reads as the message: without the tags, and with the
/// references resolved, every character is there again.
pub proof fn rendered_message_reads_back(s: Seq<char>)
    requires
        !s.contains('\0'),
    ensures
        unescaped(untagged(linked(s))) == s,
{
    lemma_untagged_from(s, 0);
    assert(s.subrange(0, s.len() as int) =~= s);
    lemma_text_round_trip(s);
}

/// The tags of a rendered message are those of the links to its addresses, two
/// each, in order, and nothing outside them opens or closes a tag or quotes an
/// attribute: a message cannot inject markup.
pub proof fn only_links_are_markup(s: Seq<char>)
    ensures
        tags(linked(s)) == link_tags(addresses(s)),
        forall|i: int|
            0 <= i < untagged(linked(s)).len() ==> !is_markup(#[trigger] untagged(linked(s))[i]),
{
    lemma_tags_from(s, 0);
}

proof fn lemma_run(s: Seq<char>, from: int)
    requires
        0 <= from <= s.len(),
    ensures
        forall|i: int| from <= i < url_end(s, from) ==> !is_ascii_space(#[trigger] s[i]),
        from <= url_end(s, from) <= s.len(),
    decreases s.len() - from,
{
    if from < s.len() && !is_ascii_space(s[from]) {
        lemma_run(s, from + 1);
    }
}

proof fn lemma_whole_prefix(s: Seq<char>, p: Seq<char>, at: int)
    requires
        0 <= at,
        crate::text::occurs_at(s, p, at),
        forall|i: int| 0 <= i < p.len() ==> !is_ascii_space(#[trigger] p[i]),
    ensures
        at + p.len() <= url_end(s, at) <= s.len(),
        crate::text::occurs_at(s.subrange(at, url_end(s, at)), p, 0),
{
    lemma_run(s, at);
    let end = url_end(s, at);
    lemma_stop(s, at);
    if end < at + p.len() {
        assert(s.subrange(at, at + p.len())[end - at] == s[end]);
        assert(!is_ascii_space(p[end - at]));
    }
    let url = s.subrange(at, end);
    assert(url.subrange(0, p.len() as int) =~= s.subrange(at, at + p.len()));
}

proof fn lemma_stop(s: Seq<char>, from: int)
    requires
        0 <= from <= s.len(),
    ensures
        url_end(s, from) < s.len() ==> is_ascii_space(s[url_end(s, from)]),
    decreases s.len() - from,
{
    if from < s.len() && !is_ascii_space(s[from]) {
        lemma_stop(s, from + 1);
    }
}

/// Every address that becomes a link begins with `http://` or `https://`, and
/// holds no ASCII white space.
pub proof fn links_are_web_addresses(s: Seq<char>, from: int, k: int)
    requires
        0 <= from <= s.len(),
        0 <= k < addresses_from(s, from).len(),
    ensures
        url_at(addresses_from(s, from)[k], 0),
        forall|i: int|
            0 <= i < addresses_from(s, from)[k].len() ==> !is_ascii_space(
                #[trigger] addresses_from(s, from)[k][i],
            ),
    decreases s.len() - from,
{
    let at = next_url(s, from);
    lemma_next_url(s, from);
    lemma_url_end(s, at);
    let end = url_end(s, at);
    if k > 0 {
        links_are_web_addresses(s, end, k - 1);
        assert(addresses_from(s, from)[k] == addresses_from(s, end)[k - 1]);
    } else {
        reveal_strlit("http://");
        reveal_strlit("https://");
        if crate::text::occurs_at(s, "http://"@, at) {
            lemma_whole_prefix(s, "http://"@, at);
        } else {
            lemma_whole_prefix(s, "https://"@, at);
        }
        lemma_run(s, at);
        let url = s.subrange(at, end);
        assert(addresses_from(s, from)[0] == url);
        assert forall|i: int| 0 <= i < url.len() implies !is_ascii_space(#[trigger] url[i]) by {
            assert(url[i] == s[at + i]);
        }
    }
}

} // verus!
