//! Display names and one-line snippets.

use crate::text::{all_views, chars_of, is_white_space, string_of, trim, trim_end,
    trim_leaves_the_middle, trim_start, trimmed, white_space};
use vstd::prelude::*;

verus! {

/// The longest snippet, in characters, before it is cut.
pub const SNIPPET_MAX: usize = 80;

/// The number of leading characters of `s` that are not white space.
pub open spec fn word_len(s: Seq<char>) -> nat
    decreases s.len(),
{
    if s.len() == 0 || is_white_space(s.first()) {
        0
    } else {
        1 + word_len(s.drop_first())
    }
}

/// The leading run is inside `s`, holds no white space and cannot be extended.
pub proof fn lemma_word_len(s: Seq<char>)
    ensures
        word_len(s) <= s.len(),
        s.len() > 0 && !is_white_space(s.first()) ==> word_len(s) > 0,
        forall|i: int| 0 <= i < word_len(s) ==> !is_white_space(#[trigger] s[i]),
        word_len(s) < s.len() ==> is_white_space(s[word_len(s) as int]),
    decreases s.len(),
{
    if s.len() > 0 && !is_white_space(s.first()) {
        lemma_word_len(s.drop_first());
        assert forall|i: int| 0 <= i < word_len(s) implies !is_white_space(#[trigger] s[i]) by {
            if i > 0 {
                assert(s[i] == s.drop_first()[i - 1]);
            }
        }
    }
}

/// The maximal runs of `s` that hold no white space, in order.
pub open spec fn words(s: Seq<char>) -> Seq<Seq<char>>
    decreases s.len(),
{
    if s.len() == 0 {
        Seq::empty()
    } else if is_white_space(s.first()) {
        words(s.drop_first())
    } else {
        proof {
            lemma_word_len(s);
        }
        seq![s.take(word_len(s) as int)] + words(s.skip(word_len(s) as int))
    }
}

/// `parts` with one space between neighbours.
pub open spec fn spaced(parts: Seq<Seq<char>>) -> Seq<char>
    decreases parts.len(),
{
    if parts.len() == 0 {
        Seq::empty()
    } else if parts.len() == 1 {
        parts[0]
    } else {
        spaced(parts.drop_last()).push(' ') + parts.last()
    }
}

/// `s` on one line: its words with single spaces between them, cut after
/// [`SNIPPET_MAX`] characters with an ellipsis.
pub open spec fn snippet_text(s: Seq<char>) -> Seq<char> {
    let line = spaced(words(s));
    if line.len() > SNIPPET_MAX {
        line.take(SNIPPET_MAX as int).push('…')
    } else {
        line
    }
}

/// First and last name as one display text; `Unknown` where both are blank.
pub open spec fn full_name(first: Seq<char>, last: Seq<char>) -> Seq<char> {
    let name = trim(first.push(' ') + last);
    if name.len() == 0 {
        "Unknown"@
    } else {
        name
    }
}

/// The words of `s`.
fn split_words(s: &str) -> (r: Vec<String>)
    ensures
        all_views(r@) == words(s@),
{
    let v: Vec<char> = chars_of(s);
    let mut out: Vec<String> = Vec::new();
    let mut i: usize = 0;
    assert(v@.skip(0) =~= v@);
    assert(all_views(out@) + words(v@.skip(0)) =~= words(s@));
    while i < v.len()
        invariant
            i <= v@.len(),
            all_views(out@) + words(v@.skip(i as int)) == words(s@),
        decreases v@.len() - i,
    {
        let ghost rest = v@.skip(i as int);
        if white_space(v[i]) {
            assert(rest.drop_first() =~= v@.skip(i + 1));
            i = i + 1;
        } else {
            let start: usize = i;
            proof {
                lemma_word_len(rest);
            }
            while i < v.len() && !white_space(v[i])
                invariant
                    start <= i <= v@.len(),
                    rest == v@.skip(start as int),
                    i - start <= word_len(rest),
                    word_len(rest) <= rest.len(),
                    forall|k: int| 0 <= k < word_len(rest) ==> !is_white_space(#[trigger] rest[k]),
                    word_len(rest) < rest.len() ==> is_white_space(rest[word_len(rest) as int]),
                decreases v@.len() - i,
            {
                assert(rest[i - start] == v@[i as int]);
                i = i + 1;
            }
            proof {
                if i - start < word_len(rest) {
                    assert(rest[i - start] == v@[i as int]);
                }
            }
            let word: String = string_of(v.as_slice(), start, i);
            let ghost before = out@;
            assert(word@ =~= rest.take(word_len(rest) as int));
            assert(rest.skip(word_len(rest) as int) =~= v@.skip(i as int));
            out.push(word);
            assert(all_views(out@) =~= all_views(before).push(word@));
            assert(all_views(out@) + words(v@.skip(i as int)) =~= all_views(before) + words(rest));
        }
    }
    assert(words(v@.skip(i as int)) =~= Seq::empty());
    assert(all_views(out@) =~= all_views(out@) + words(v@.skip(i as int)));
    out
}

fn join_words(parts: &Vec<String>) -> (r: String)
    ensures
        r@ == spaced(all_views(parts@)),
{
    let mut r = String::new();
    let ghost all = all_views(parts@);
    assert(r@ =~= spaced(all.take(0)));
    for i in 0..parts.len()
        invariant
            all == all_views(parts@),
            r@ == spaced(all.take(i as int)),
    {
        let ghost before = r@;
        if i > 0 {
            r.push(' ');
        }
        r.append(parts[i].as_str());
        assert(all.take(i + 1).drop_last() =~= all.take(i as int));
        assert(r@ =~= spaced(all.take(i + 1)));
    }
    assert(all.take(all.len() as int) =~= all);
    r
}

/// A short single-line snippet of a message body for reply headers and strips.
pub fn snippet(text: &str) -> (r: String)
    ensures
        r@ == snippet_text(text@),
{
    let parts: Vec<String> = split_words(text);
    let line: String = join_words(&parts);
    let v: Vec<char> = chars_of(line.as_str());
    if v.len() > SNIPPET_MAX {
        let mut cut: String = string_of(v.as_slice(), 0, SNIPPET_MAX);
        cut.push('…');
        assert(cut@ =~= snippet_text(text@));
        cut
    } else {
        line
    }
}

/// Combine first and last name into a single display string.
pub fn display_name(first: &str, last: &str) -> (r: String)
    ensures
        r@ == full_name(first@, last@),
{
    let mut name: String = first.to_owned();
    name.push(' ');
    name.append(last);
    let name: String = trimmed(name.as_str());
    if name.as_str().is_empty() {
        "Unknown".to_owned()
    } else {
        name
    }
}

// --- Laws --------------------------------------------------------------------

/// Whether `s` holds no white space but single spaces between words.
pub open spec fn on_one_line(s: Seq<char>) -> bool {
    &&& s.len() > 0 ==> !is_white_space(s.first()) && !is_white_space(s.last())
    &&& forall|i: int| 0 <= i < s.len() && is_white_space(#[trigger] s[i]) ==> s[i] == ' '
    &&& forall|i: int|
        0 <= i < s.len() - 1 && is_white_space(#[trigger] s[i]) ==> !is_white_space(s[i + 1])
}

proof fn lemma_words(s: Seq<char>, k: int)
    requires
        0 <= k < words(s).len(),
    ensures
        forall|i: int| 0 <= i < words(s)[k].len() ==> !is_white_space(#[trigger] words(s)[k][i]),
        words(s)[k].len() > 0,
    decreases s.len(),
{
    if s.len() == 0 {
    } else if is_white_space(s.first()) {
        lemma_words(s.drop_first(), k);
    } else {
        lemma_word_len(s);
        let n = word_len(s) as int;
        if k == 0 {
            assert(words(s)[0] == s.take(n));
            assert forall|i: int| 0 <= i < s.take(n).len() implies !is_white_space(
                #[trigger] s.take(n)[i],
            ) by {
                assert(s.take(n)[i] == s[i]);
            }
        } else {
            lemma_words(s.skip(n), k - 1);
            assert(words(s)[k] == words(s.skip(n))[k - 1]);
        }
    }
}

proof fn lemma_spaced(parts: Seq<Seq<char>>)
    requires
        forall|k: int| 0 <= k < parts.len() ==> (#[trigger] parts[k]).len() > 0,
        forall|k: int, i: int|
            0 <= k < parts.len() && 0 <= i < parts[k].len() ==> !is_white_space(
                #[trigger] parts[k][i],
            ),
    ensures
        on_one_line(spaced(parts)),
        parts.len() > 0 ==> spaced(parts).len() > 0,
    decreases parts.len(),
{
    let all = spaced(parts);
    if parts.len() == 1 {
        assert forall|i: int| 0 <= i < all.len() implies !is_white_space(#[trigger] all[i]) by {
            assert(!is_white_space(parts[0][i]));
        }
    } else if parts.len() > 1 {
        let rest = parts.drop_last();
        let word = parts.last();
        assert forall|k: int, i: int| 0 <= k < rest.len() && 0 <= i < rest[k].len() implies
            !is_white_space(#[trigger] rest[k][i]) by {
            assert(rest[k] == parts[k]);
            assert(!is_white_space(parts[k][i]));
        }
        assert forall|k: int| 0 <= k < rest.len() implies (#[trigger] rest[k]).len() > 0 by {
            assert(rest[k] == parts[k]);
        }
        lemma_spaced(rest);
        let head = spaced(rest);
        let n = head.len() as int;
        assert forall|j: int| 0 <= j < word.len() implies !is_white_space(#[trigger] word[j]) by {
            assert(!is_white_space(parts[parts.len() - 1][j]));
        }
        assert forall|i: int| n < i < all.len() implies !is_white_space(#[trigger] all[i]) by {
            assert(all[i] == word[i - n - 1]);
        }
        assert(all[n] == ' ');
        assert(all.first() == head.first());
        assert(all.last() == all[all.len() - 1]);
        assert(head.last() == head[n - 1]);
        assert forall|i: int| 0 <= i < all.len() && is_white_space(#[trigger] all[i]) implies all[i]
            == ' ' by {
            if i < n {
                assert(all[i] == head[i]);
            }
        }
        assert forall|i: int| 0 <= i < all.len() - 1 && is_white_space(
            #[trigger] all[i],
        ) implies !is_white_space(all[i + 1]) by {
            if i < n {
                assert(all[i] == head[i]);
                if i < n - 1 {
                    assert(all[i + 1] == head[i + 1]);
                }
            }
        }
    }
}

proof fn lemma_line(s: Seq<char>)
    ensures
        on_one_line(spaced(words(s))),
{
    assert forall|k: int, i: int| 0 <= k < words(s).len() && 0 <= i < words(s)[k].len() implies
        !is_white_space(#[trigger] words(s)[k][i]) by {
        lemma_words(s, k);
    }
    assert forall|k: int| 0 <= k < words(s).len() implies (#[trigger] words(s)[k]).len() > 0 by {
        lemma_words(s, k);
    }
    lemma_spaced(words(s));
}

proof fn lemma_cut(line: Seq<char>, n: int)
    requires
        on_one_line(line),
        0 < n <= line.len(),
    ensures
        on_one_line(line.take(n).push('…')),
{
    let cut = line.take(n).push('…');
    assert forall|i: int| 0 <= i < cut.len() && is_white_space(#[trigger] cut[i]) implies cut[i]
        == ' ' by {
        if i < n {
            assert(cut[i] == line[i]);
        }
    }
    assert forall|i: int| 0 <= i < cut.len() - 1 && is_white_space(#[trigger] cut[i]) implies
        !is_white_space(cut[i + 1]) by {
        assert(cut[i] == line[i]);
        if i < n - 1 {
            assert(cut[i + 1] == line[i + 1]);
        }
    }
    assert(cut.first() == line.first());
}

proof fn lemma_spaced_first(word: Seq<char>, parts: Seq<Seq<char>>)
    requires
        parts.len() > 0,
    ensures
        spaced(seq![word] + parts) == word.push(' ') + spaced(parts),
    decreases parts.len(),
{
    let all = seq![word] + parts;
    assert(all.drop_last() =~= seq![word] + parts.drop_last());
    assert(all.last() == parts.last());
    if parts.len() == 1 {
        assert(parts.drop_last() =~= Seq::empty());
        assert(all.drop_last() =~= seq![word]);
        assert(spaced(all.drop_last()) == word);
    } else {
        lemma_spaced_first(word, parts.drop_last());
        assert((word.push(' ') + spaced(parts.drop_last())).push(' ') + parts.last()
            =~= word.push(' ') + (spaced(parts.drop_last()).push(' ') + parts.last()));
    }
}

/// A text on one line is made of its words.
proof fn lemma_line_is_its_words(s: Seq<char>)
    requires
        on_one_line(s),
    ensures
        spaced(words(s)) == s,
        s.len() > 0 ==> words(s).len() > 0,
    decreases s.len(),
{
    if s.len() > 0 {
        lemma_word_len(s);
        let n = word_len(s) as int;
        let word = s.take(n);
        let rest = s.skip(n);
        if n == s.len() {
            assert(words(rest) =~= Seq::empty());
            assert(word =~= s);
            assert(words(s) == seq![word] + words(rest));
            assert(words(s) =~= seq![s]);
        } else {
            assert(rest.first() == s[n]);
            assert(s.last() == s[s.len() - 1]);
            let t = s.skip(n + 1);
            assert(rest.drop_first() =~= t);
            assert forall|i: int| 0 <= i < t.len() && is_white_space(#[trigger] t[i]) implies t[i]
                == ' ' by {
                assert(t[i] == s[n + 1 + i]);
            }
            assert forall|i: int| 0 <= i < t.len() - 1 && is_white_space(
                #[trigger] t[i],
            ) implies !is_white_space(t[i + 1]) by {
                assert(t[i] == s[n + 1 + i]);
                assert(t[i + 1] == s[n + 1 + i + 1]);
            }
            assert(t.first() == s[n + 1]);
            assert(t.last() == s.last());
            lemma_line_is_its_words(t);
            assert(words(rest) == words(t));
            assert(words(s) == seq![word] + words(rest));
            lemma_spaced_first(word, words(t));
            assert(word.push(' ') + t =~= s);
        }
    }
}

/// A snippet is short and stands on one line, whatever the message holds.
pub proof fn snippet_is_short_and_on_one_line(s: Seq<char>)
    ensures
        snippet_text(s).len() <= SNIPPET_MAX + 1,
        on_one_line(snippet_text(s)),
{
    lemma_line(s);
    let line = spaced(words(s));
    if line.len() > SNIPPET_MAX {
        lemma_cut(line, SNIPPET_MAX as int);
    }
}

/// A snippet is its own snippet.
pub proof fn snippet_of_a_snippet(s: Seq<char>)
    ensures
        snippet_text(snippet_text(s)) == snippet_text(s),
{
    snippet_is_short_and_on_one_line(s);
    let cut = snippet_text(s);
    lemma_line_is_its_words(cut);
    let line = spaced(words(s));
    if line.len() > SNIPPET_MAX {
        assert(cut.take(SNIPPET_MAX as int) =~= line.take(SNIPPET_MAX as int));
    }
}

/// A display name is never empty, and has no white space at its ends.
pub proof fn display_name_is_never_blank(first: Seq<char>, last: Seq<char>)
    ensures
        full_name(first, last).len() > 0,
        !is_white_space(full_name(first, last).first()),
        !is_white_space(full_name(first, last).last()),
{
    reveal_strlit("Unknown");
    lemma_trim(first.push(' ') + last);
}

proof fn lemma_trim_start(s: Seq<char>)
    ensures
        trim_start(s).len() > 0 ==> !is_white_space(trim_start(s).first()),
    decreases s.len(),
{
    if s.len() > 0 && is_white_space(s.first()) {
        lemma_trim_start(s.drop_first());
    }
}

proof fn lemma_trim_end(s: Seq<char>)
    ensures
        trim_end(s).len() > 0 ==> !is_white_space(trim_end(s).last()) && trim_end(s).first()
            == s.first(),
    decreases s.len(),
{
    if s.len() > 0 && is_white_space(s.last()) {
        lemma_trim_end(s.drop_last());
    }
}

proof fn lemma_trim(s: Seq<char>)
    ensures
        trim(s).len() > 0 ==> !is_white_space(trim(s).first()) && !is_white_space(trim(s).last()),
{
    lemma_trim_start(s);
    lemma_trim_end(trim_start(s));
}

/// The visible characters of a text, in order.
pub open spec fn visible(s: Seq<char>) -> Seq<char>
    decreases s.len(),
{
    if s.len() == 0 {
        Seq::empty()
    } else if is_white_space(s.first()) {
        visible(s.drop_first())
    } else {
        seq![s.first()] + visible(s.drop_first())
    }
}

proof fn lemma_visible_concat(a: Seq<char>, b: Seq<char>)
    ensures
        visible(a + b) == visible(a) + visible(b),
    decreases a.len(),
{
    if a.len() == 0 {
        assert(a + b =~= b);
        assert(visible(a) + visible(b) =~= visible(b));
    } else {
        assert((a + b).drop_first() =~= a.drop_first() + b);
        lemma_visible_concat(a.drop_first(), b);
        assert(seq![a.first()] + (visible(a.drop_first()) + visible(b)) =~= (seq![a.first()]
            + visible(a.drop_first())) + visible(b));
    }
}

proof fn lemma_visible_line(s: Seq<char>)
    ensures
        visible(spaced(words(s))) == visible(s),
    decreases s.len(),
{
    if s.len() == 0 {
    } else if is_white_space(s.first()) {
        lemma_visible_line(s.drop_first());
    } else {
        lemma_word_len(s);
        let n = word_len(s) as int;
        let word = s.take(n);
        let rest = s.skip(n);
        lemma_visible_line(rest);
        assert(word + rest =~= s);
        lemma_visible_concat(word, rest);
        if words(rest).len() == 0 {
            assert(words(s) =~= seq![word]);
            assert(spaced(words(rest)) =~= Seq::empty());
            assert(visible(word) + visible(rest) =~= visible(word));
        } else {
            lemma_spaced_first(word, words(rest));
            lemma_visible_concat(word.push(' '), spaced(words(rest)));
            assert(word.push(' ') =~= word + seq![' ']);
            lemma_visible_concat(word, seq![' ']);
            assert(visible(seq![' '].drop_first()) =~= Seq::empty());
            assert(visible(seq![' ']) =~= Seq::empty());
            assert(visible(word) + Seq::empty() =~= visible(word));
        }
    }
}

/// A snippet says what the message says: all of it where it is not cut, and
/// otherwise its beginning, up to eighty characters and an ellipsis. What is
/// short and on one line already is its own snippet.
pub proof fn snippet_says_the_message(s: Seq<char>)
    ensures
        snippet_text(s).len() <= 80 ==> visible(snippet_text(s)) == visible(s),
        snippet_text(s).len() > 80 ==> {
            &&& snippet_text(s).len() == 81
            &&& snippet_text(s).last() == '…'
            &&& visible(snippet_text(s).drop_last()).is_prefix_of(visible(s))
        },
        on_one_line(s) && s.len() <= 80 ==> snippet_text(s) == s,
{
    lemma_visible_line(s);
    let line = spaced(words(s));
    if line.len() > SNIPPET_MAX {
        let cut = line.take(SNIPPET_MAX as int);
        assert(snippet_text(s).drop_last() =~= cut);
        assert(line =~= cut + line.skip(SNIPPET_MAX as int));
        lemma_visible_concat(cut, line.skip(SNIPPET_MAX as int));
        assert(visible(s).subrange(0, visible(cut).len() as int) =~= visible(cut));
    }
    if on_one_line(s) {
        lemma_line_is_its_words(s);
    }
}

/// Whether a name holds nothing visible.
pub open spec fn is_blank(s: Seq<char>) -> bool {
    forall|i: int| 0 <= i < s.len() ==> is_white_space(#[trigger] s[i])
}

/// Whether a name begins and ends with something visible.
pub open spec fn is_tidy(s: Seq<char>) -> bool {
    s.len() > 0 && !is_white_space(s[0]) && !is_white_space(s[s.len() - 1])
}

/// A display name is the first and the last name with a space between them, or
/// the one that there is; without either, the user is unknown.
pub proof fn display_name_holds_both_names(first: Seq<char>, last: Seq<char>)
    ensures
        is_tidy(first) && is_tidy(last) ==> full_name(first, last) == first.push(' ') + last,
        is_tidy(first) && is_blank(last) ==> full_name(first, last) == first,
        is_blank(first) && is_tidy(last) ==> full_name(first, last) == last,
        is_blank(first) && is_blank(last) ==> full_name(first, last) == "Unknown"@,
{
    let s = first.push(' ') + last;
    let n = first.len() as int;
    let m = s.len() as int;
    assert(s[n] == ' ');
    if is_tidy(first) && is_tidy(last) {
        assert(s[0] == first[0]);
        assert(s[m - 1] == last[last.len() - 1]);
        trim_leaves_the_middle(s, 0, m);
        assert(s.subrange(0, m) =~= s);
    } else if is_tidy(first) && is_blank(last) {
        assert(s[0] == first[0]);
        assert(s[n - 1] == first[n - 1]);
        assert forall|i: int| n <= i < m implies is_white_space(#[trigger] s[i]) by {
            if i > n {
                assert(s[i] == last[i - n - 1]);
            }
        }
        trim_leaves_the_middle(s, 0, n);
        assert(s.subrange(0, n) =~= first);
    } else if is_blank(first) && is_tidy(last) {
        assert forall|i: int| 0 <= i < n + 1 implies is_white_space(#[trigger] s[i]) by {
            if i < n {
                assert(s[i] == first[i]);
            }
        }
        assert(s[n + 1] == last[0]);
        assert(s[m - 1] == last[last.len() - 1]);
        trim_leaves_the_middle(s, n + 1, m);
        assert(s.subrange(n + 1, m) =~= last);
    } else if is_blank(first) && is_blank(last) {
        assert forall|i: int| 0 <= i < m implies is_white_space(#[trigger] s[i]) by {
            if i < n {
                assert(s[i] == first[i]);
            } else if i > n {
                assert(s[i] == last[i - n - 1]);
            }
        }
        trim_leaves_the_middle(s, 0, 0);
    }
}

} // verus!
