//! Pasted text: when it is folded into a placeholder, and what unfolding the
//! placeholder gives back.
use crate::lang::{pick, Lang};
use crate::placeholder::{
    close_run, digit_run, expanded, expansion, head_len, image_index, lemma_close_run, lemma_digit_run,
    lemma_head_len, lemma_spans_from, opening_len, pasted_index, rewritten, spans, spans_from,
    REPL_PASTE_PLACEHOLDER_MIN_CHARS, REPL_PASTE_PLACEHOLDER_MIN_LINES,
};
use crate::text::{
    all_digits, begins_with, decimal, decimal_text, is_digit, lemma_decimal, split_at_char,
    split_char,
};
use vstd::prelude::*;
use vstd::string::*;

verus! {

/// The number of lines of a paste: none for an empty one.
pub open spec fn line_count(s: Seq<char>) -> nat {
    if s.len() == 0 {
        0
    } else {
        split_at_char(s, '\n').len()
    }
}

pub fn pasted_text_line_count(text: &str) -> (r: usize)
    ensures
        r == line_count(text@),
{
    if text.is_empty() {
        0
    } else {
        let pieces = split_char(text, '\n');
        assert(crate::text::texts(pieces@).len() == pieces@.len());
        pieces.len()
    }
}

/// Whether a paste is long enough to be folded into a placeholder.
pub open spec fn is_long_paste(s: Seq<char>) -> bool {
    s.len() > 0 && (line_count(s) >= REPL_PASTE_PLACEHOLDER_MIN_LINES || s.len()
        > REPL_PASTE_PLACEHOLDER_MIN_CHARS)
}

pub fn should_summarize_pasted_text(text: &str) -> (r: bool)
    ensures
        r == is_long_paste(text@),
{
    !text.is_empty() && (pasted_text_line_count(text) >= REPL_PASTE_PLACEHOLDER_MIN_LINES
        || text.unicode_len() > REPL_PASTE_PLACEHOLDER_MIN_CHARS)
}

/// The placeholder of the paste number `index`.
pub open spec fn pasted_token(lang: Lang, index: nat, lines: nat) -> Seq<char> {
    pick(lang, "[Pasted "@, "[粘贴 "@) + decimal(index) + ": ~"@ + decimal(lines) + pick(
        lang,
        " lines]"@,
        " 行]"@,
    )
}

pub fn pasted_text_placeholder(lang: Lang, index: usize, line_count: usize) -> (r: String)
    ensures
        r@ == pasted_token(lang, index as nat, line_count as nat),
{
    let mut r = crate::lang::t(lang, "[Pasted ", "[粘贴 ").to_owned();
    let number = decimal_text(index as u64);
    let lines = decimal_text(line_count as u64);
    r.append(number.as_str());
    r.append(": ~");
    r.append(lines.as_str());
    r.append(crate::lang::t(lang, " lines]", " 行]"));
    r
}

proof fn lemma_digit_run_local(s: Seq<char>, k: int)
    requires
        0 <= k <= s.len(),
    ensures
        digit_run(s.take(k)) == if digit_run(s) < k {
            digit_run(s)
        } else {
            k as nat
        },
    decreases k,
{
    if k > 0 && is_digit(s[0]) {
        assert(s.take(k).drop_first() =~= s.drop_first().take(k - 1));
        lemma_digit_run_local(s.drop_first(), k - 1);
    }
}

proof fn lemma_close_run_local(s: Seq<char>, k: int)
    requires
        0 <= k <= s.len(),
    ensures
        close_run(s.take(k)) == if close_run(s) < k {
            close_run(s)
        } else {
            k as nat
        },
    decreases k,
{
    if k > 0 && s[0] != ']' {
        assert(s.take(k).drop_first() =~= s.drop_first().take(k - 1));
        lemma_close_run_local(s.drop_first(), k - 1);
    }
}

proof fn lemma_begins_local(s: Seq<char>, k: int, p: Seq<char>)
    requires
        0 <= k <= s.len(),
    ensures
        begins_with(s.take(k), p) == (begins_with(s, p) && p.len() <= k),
{
    if p.len() <= k {
        assert(s.take(k).take(p.len() as int) =~= s.take(p.len() as int));
    }
}

/// Which opening stands at the head depends on the opening alone.
proof fn lemma_opening_local(s: Seq<char>, k: int)
    requires
        0 <= k <= s.len(),
    ensures
        opening_len(s.take(k)) == if opening_len(s) <= k {
            opening_len(s)
        } else {
            0
        },
{
    reveal_strlit("[Image ");
    reveal_strlit("[Pasted ");
    reveal_strlit("[粘贴 ");
    lemma_begins_local(s, k, "[Image "@);
    lemma_begins_local(s, k, "[Pasted "@);
    lemma_begins_local(s, k, "[粘贴 "@);
    if begins_with(s, "[Image "@) {
        assert(s[1] == s.take(7)[1]);
        assert(s[1] == 'I');
        if begins_with(s, "[粘贴 "@) {
            assert(s[1] == s.take(4)[1]);
        }
        if begins_with(s, "[Pasted "@) {
            assert(s[1] == s.take(8)[1]);
        }
    } else if begins_with(s, "[Pasted "@) {
        assert(s[1] == s.take(8)[1]);
        if begins_with(s, "[粘贴 "@) {
            assert(s[1] == s.take(4)[1]);
        }
    }
}

/// A placeholder at the head of a text is one by its own characters: what
/// follows it does not matter.
proof fn lemma_head_local(s: Seq<char>, k: int)
    requires
        0 <= k <= s.len(),
    ensures
        head_len(s.take(k)) > 0 ==> head_len(s) == head_len(s.take(k)),
        0 < head_len(s) <= k ==> head_len(s.take(k)) == head_len(s),
{
    let t = s.take(k);
    lemma_opening_local(s, k);
    lemma_head_len(s);
    lemma_head_len(t);
    let p = opening_len(s);
    if 0 < p <= k {
        assert(t.skip(p as int) =~= s.skip(p as int).take(k - p));
        lemma_digit_run_local(s.skip(p as int), k - p);
        lemma_digit_run(s.skip(p as int));
        let j = p + digit_run(s.skip(p as int));
        if j < k {
            assert(t[j as int] == s[j as int]);
            assert(t.skip(j as int + 1) =~= s.skip(j as int + 1).take(k - j - 1));
            lemma_close_run_local(s.skip(j as int + 1), k - j - 1);
            lemma_close_run(s.skip(j as int + 1));
        }
    }
}

/// No placeholder of `s` begins before index `at` and ends behind it.
pub open spec fn no_placeholder_across(s: Seq<char>, at: int) -> bool {
    no_span_across(spans(s), at)
}

pub open spec fn no_span_across(v: Seq<(int, int)>, at: int) -> bool {
    forall|i: int| 0 <= i < v.len() ==> !((#[trigger] v[i]).0 < at < v[i].1)
}

proof fn lemma_rewrite_splits(
    a: Seq<char>,
    b: Seq<char>,
    offset: int,
    f: spec_fn(Seq<char>) -> Seq<char>,
)
    requires
        no_span_across(spans_from(a + b, offset), offset + a.len()),
    ensures
        rewritten(a + b, f) == rewritten(a, f) + rewritten(b, f),
    decreases a.len(),
{
    let s = a + b;
    if a.len() == 0 {
        assert(s =~= b);
        assert(rewritten(a, f) + rewritten(b, f) =~= rewritten(b, f));
    } else {
        assert(s.take(a.len() as int) =~= a);
        lemma_head_local(s, a.len() as int);
        lemma_head_len(s);
        lemma_head_len(a);
        let h = head_len(s);
        let all = spans_from(s, offset);
        if h > 0 {
            assert(all[0] == (offset, offset + h));
            assert(h <= a.len());
            assert(s.skip(h as int) =~= a.skip(h as int) + b);
            assert(s.take(h as int) =~= a.take(h as int));
            let rest = spans_from(s.skip(h as int), offset + h);
            assert forall|i: int| 0 <= i < rest.len() implies !((#[trigger] rest[i]).0 < offset
                + a.len() < rest[i].1) by {
                assert(all[i + 1] == rest[i]);
            }
            lemma_rewrite_splits(a.skip(h as int), b, offset + h, f);
            assert(f(s.take(h as int)) + (rewritten(a.skip(h as int), f) + rewritten(b, f))
                =~= rewritten(a, f) + rewritten(b, f));
        } else {
            assert(head_len(a) == 0);
            assert(s.drop_first() =~= a.drop_first() + b);
            lemma_rewrite_splits(a.drop_first(), b, offset + 1, f);
            assert(seq![s[0]] + (rewritten(a.drop_first(), f) + rewritten(b, f)) =~= rewritten(
                a,
                f,
            ) + rewritten(b, f));
        }
    }
}

proof fn lemma_digit_run_stops(d: Seq<char>, rest: Seq<char>)
    requires
        all_digits(d),
        rest.len() == 0 || !is_digit(rest[0]),
    ensures
        digit_run(d + rest) == d.len(),
    decreases d.len(),
{
    if d.len() > 0 {
        assert((d + rest)[0] == d[0]);
        assert(is_digit(d[0]));
        assert((d + rest).drop_first() =~= d.drop_first() + rest);
        assert(all_digits(d.drop_first())) by {
            assert forall|i: int| 0 <= i < d.drop_first().len() implies is_digit(
                #[trigger] d.drop_first()[i],
            ) by {
                assert(d.drop_first()[i] == d[i + 1]);
            }
        }
        lemma_digit_run_stops(d.drop_first(), rest);
    } else {
        assert(d + rest =~= rest);
    }
}

proof fn lemma_close_run_stops(a: Seq<char>, rest: Seq<char>)
    requires
        forall|i: int| 0 <= i < a.len() ==> #[trigger] a[i] != ']',
        rest.len() > 0,
        rest[0] == ']',
    ensures
        close_run(a + rest) == a.len(),
    decreases a.len(),
{
    if a.len() > 0 {
        assert((a + rest)[0] == a[0]);
        assert((a + rest).drop_first() =~= a.drop_first() + rest);
        assert forall|i: int| 0 <= i < a.drop_first().len() implies #[trigger] a.drop_first()[i]
            != ']' by {
            assert(a.drop_first()[i] == a[i + 1]);
        }
        lemma_close_run_stops(a.drop_first(), rest);
    } else {
        assert(a + rest =~= rest);
    }
}

/// The placeholder of a paste is recognized as one, whatever follows it, and
/// carries its number.
pub proof fn law_pasted_token_is_a_placeholder(
    lang: Lang,
    index: usize,
    lines: nat,
    post: Seq<char>,
)
    ensures
        head_len(pasted_token(lang, index as nat, lines) + post) == pasted_token(
            lang,
            index as nat,
            lines,
        ).len(),
        pasted_index(pasted_token(lang, index as nat, lines)) == Some(index),
{
    reveal_strlit("[Image ");
    reveal_strlit("[Pasted ");
    reveal_strlit("[粘贴 ");
    reveal_strlit(": ~");
    reveal_strlit(" lines]");
    reveal_strlit(" 行]");
    lemma_decimal(index as nat);
    lemma_decimal(lines);
    let open = pick(lang, "[Pasted "@, "[粘贴 "@);
    let close = pick(lang, " lines]"@, " 行]"@);
    let token = pasted_token(lang, index as nat, lines);
    let s = token + post;
    let p = open.len() as int;
    let d = decimal(index as nat);
    assert(s.take(p) =~= open);
    assert(token.take(p) =~= open);
    assert(s[1] == open[1]);
    assert(token[1] == open[1]);
    if begins_with(s, "[Image "@) {
        assert(s[1] == s.take(7)[1]);
    }
    if begins_with(token, "[Image "@) {
        assert(token[1] == token.take(7)[1]);
    }
    if begins_with(s, "[Pasted "@) {
        assert(s[1] == s.take(8)[1]);
    }
    if begins_with(token, "[Pasted "@) {
        assert(token[1] == token.take(8)[1]);
    }
    assert(opening_len(s) == p);
    let tail = ": ~"@ + decimal(lines) + close;
    assert(token.skip(p) =~= d + tail);
    assert(s.skip(p) =~= d + (tail + post));
    lemma_digit_run_stops(d, tail);
    lemma_digit_run_stops(d, tail + post);
    assert(token.skip(p).take(d.len() as int) =~= d);
    let j = p + d.len();
    assert(s[j] == ':');
    let inner = seq![' ', '~'] + decimal(lines) + close.drop_last();
    let rest = seq![']'] + post;
    assert(s.skip(j + 1) =~= inner + rest);
    assert forall|i: int| 0 <= i < inner.len() implies #[trigger] inner[i] != ']' by {
        if i >= 2 && i < 2 + decimal(lines).len() {
            assert(is_digit(decimal(lines)[i - 2]));
        } else if i >= 2 {
            assert(inner[i] == close[i - 2 - decimal(lines).len()]);
        }
    }
    lemma_close_run_stops(inner, rest);
}

/// Unfolding gives back what folding took away: wherever the placeholder of a
/// paste stands between two texts, expanding the whole puts the pasted text in
/// its place and expands the two texts for themselves. The only inputs left out
/// are those in which an unclosed placeholder before it runs across its start.
pub proof fn law_expansion_restores_paste(
    lang: Lang,
    pre: Seq<char>,
    post: Seq<char>,
    index: usize,
    lines: nat,
    pasted: Seq<Option<Seq<char>>>,
)
    requires
        0 < index <= pasted.len(),
        pasted[index - 1] is Some,
        no_placeholder_across(
            pre + (pasted_token(lang, index as nat, lines) + post),
            pre.len() as int,
        ),
    ensures
        expanded(pre + (pasted_token(lang, index as nat, lines) + post), pasted) == expanded(
            pre,
            pasted,
        ) + pasted[index - 1]->0 + expanded(post, pasted),
{
    let token = pasted_token(lang, index as nat, lines);
    let s = token + post;
    let f = expansion(pasted);
    law_pasted_token_is_a_placeholder(lang, index, lines, post);
    lemma_rewrite_splits(pre, s, 0, f);
    lemma_head_len(s);
    assert(s.take(token.len() as int) =~= token);
    assert(s.skip(token.len() as int) =~= post);
    assert(rewritten(s, f) == f(token) + rewritten(post, f));
    assert(expanded(pre, pasted) + (pasted[index - 1]->0 + expanded(post, pasted)) =~= expanded(
        pre,
        pasted,
    ) + pasted[index - 1]->0 + expanded(post, pasted));
}

/// A text without any opening bracket holds no placeholder, and expanding
/// leaves it as it is.
pub proof fn law_plain_text_expands_to_itself(s: Seq<char>, pasted: Seq<Option<Seq<char>>>)
    requires
        !s.contains('['),
    ensures
        spans(s).len() == 0,
        expanded(s, pasted) == s,
{
    lemma_plain(s, 0, expansion(pasted));
}

proof fn lemma_plain(s: Seq<char>, offset: int, f: spec_fn(Seq<char>) -> Seq<char>)
    requires
        !s.contains('['),
    ensures
        spans_from(s, offset).len() == 0,
        rewritten(s, f) == s,
    decreases s.len(),
{
    if s.len() > 0 {
        assert(s[0] != '[');
        lemma_no_opening(s);
        assert(!s.drop_first().contains('[')) by {
            if s.drop_first().contains('[') {
                let i = choose|i: int| 0 <= i < s.len() - 1 && s.drop_first()[i] == '[';
                assert(s[i + 1] == '[');
            }
        }
        lemma_plain(s.drop_first(), offset + 1, f);
        assert(seq![s[0]] + s.drop_first() =~= s);
    } else {
        assert(rewritten(s, f) =~= s);
    }
}

proof fn lemma_no_opening(s: Seq<char>)
    requires
        s.len() > 0,
        s[0] != '[',
    ensures
        head_len(s) == 0,
{
    reveal_strlit("[Image ");
    reveal_strlit("[Pasted ");
    reveal_strlit("[粘贴 ");
    if begins_with(s, "[Image "@) {
        assert(s[0] == s.take(7)[0]);
    }
    if begins_with(s, "[Pasted "@) {
        assert(s[0] == s.take(8)[0]);
    }
    if begins_with(s, "[粘贴 "@) {
        assert(s[0] == s.take(4)[0]);
    }
}

/// No placeholder begins in text without an opening bracket.
pub proof fn lemma_nothing_across(a: Seq<char>, b: Seq<char>, offset: int)
    requires
        !a.contains('['),
    ensures
        no_span_across(spans_from(a + b, offset), offset + a.len()),
    decreases a.len(),
{
    let s = a + b;
    if a.len() > 0 {
        assert(s[0] == a[0]);
        lemma_no_opening(s);
        assert(s.drop_first() =~= a.drop_first() + b);
        assert(!a.drop_first().contains('[')) by {
            if a.drop_first().contains('[') {
                let i = choose|i: int| 0 <= i < a.len() - 1 && a.drop_first()[i] == '[';
                assert(a[i + 1] == '[');
            }
        }
        lemma_nothing_across(a.drop_first(), b, offset + 1);
    } else {
        lemma_spans_from(s, offset);
    }
}

/// Without pasted texts nothing is replaced.
pub proof fn lemma_nothing_pasted(s: Seq<char>)
    ensures
        expanded(s, Seq::empty()) == s,
    decreases s.len(),
{
    if s.len() > 0 {
        lemma_head_len(s);
        let h = head_len(s);
        let f = expansion(Seq::empty());
        if h > 0 {
            lemma_nothing_pasted(s.skip(h as int));
            assert(f(s.take(h as int)) == s.take(h as int));
            assert(s.take(h as int) + s.skip(h as int) =~= s);
        } else {
            lemma_nothing_pasted(s.drop_first());
            assert(seq![s[0]] + s.drop_first() =~= s);
        }
    } else {
        assert(expanded(s, Seq::empty()) =~= s);
    }
}

/// An image placeholder is recognized as one, whatever name it has and whatever
/// follows it, and carries its number; it stands for no pasted text.
pub proof fn law_image_token_is_a_placeholder(index: usize, name: Seq<char>, post: Seq<char>)
    requires
        !name.contains(']'),
    ensures
        ({
            let token = "[Image "@ + decimal(index as nat) + ": "@ + name + "]"@;
            &&& head_len(token + post) == token.len()
            &&& image_index(token) == Some(index)
            &&& pasted_index(token) is None
        }),
{
    reveal_strlit("[Image ");
    reveal_strlit("[Pasted ");
    reveal_strlit("[粘贴 ");
    reveal_strlit(": ");
    reveal_strlit("]");
    lemma_decimal(index as nat);
    let open = "[Image "@;
    let d = decimal(index as nat);
    let token = open + d + ": "@ + name + "]"@;
    let s = token + post;
    assert(s.take(7) =~= open);
    assert(token.take(7) =~= open);
    assert(token[1] == open[1]);
    if begins_with(token, "[Pasted "@) {
        assert(token[1] == token.take(8)[1]);
    }
    if begins_with(token, "[粘贴 "@) {
        assert(token[1] == token.take(4)[1]);
    }
    assert(opening_len(s) == 7);
    let tail = ": "@ + name + "]"@;
    assert(token.skip(7) =~= d + tail);
    assert(s.skip(7) =~= d + (tail + post));
    lemma_digit_run_stops(d, tail);
    lemma_digit_run_stops(d, tail + post);
    assert(token.skip(7).take(d.len() as int) =~= d);
    let j = 7 + d.len();
    assert(s[j as int] == ':');
    let inner = seq![' '] + name;
    let rest = seq![']'] + post;
    assert(s.skip(j as int + 1) =~= inner + rest);
    assert forall|i: int| 0 <= i < inner.len() implies #[trigger] inner[i] != ']' by {
        if i >= 1 {
            assert(inner[i] == name[i - 1]);
        }
    }
    lemma_close_run_stops(inner, rest);
}

/// A paste is folded from three lines on, or where it has more than 150
/// characters; a text without line feeds is one line, and each line feed is one
/// line more.
pub proof fn law_long_pastes_are_folded(text: &str, folded: bool, lines: usize, more: &str, longer: usize)
    requires
        call_ensures(should_summarize_pasted_text, (text,), folded),
        call_ensures(pasted_text_line_count, (text,), lines),
        call_ensures(pasted_text_line_count, (more,), longer),
    ensures
        text@.len() == 0 ==> !folded && lines == 0,
        text@.len() > 0 ==> (folded <==> lines >= 3 || text@.len() > 150),
        text@.len() > 0 && !text@.contains('\n') ==> lines == 1,
        text@.len() > 0 && more@ == text@.push('\n') ==> longer == lines + 1,
        text@.len() > 0 && more@.len() == text@.len() + 1 && more@.drop_last() == text@
            && more@.last() != '\n' ==> longer == lines,
{
    crate::text::lemma_split_nonempty(text@, '\n');
    if text@.len() > 0 && !text@.contains('\n') {
        crate::text::law_pieces_of_one_line(text@, '\n');
    }
    if more@ == text@.push('\n') {
        assert(more@.drop_last() =~= text@);
    }
}

/// The placeholder of a paste says its number and its lines.
pub proof fn law_placeholder_says_number_and_lines(lang: Lang, index: usize, lines: usize, r: String)
    requires
        call_ensures(pasted_text_placeholder, (lang, index, lines), r),
    ensures
        lang is En ==> r@ == "[Pasted "@ + decimal(index as nat) + ": ~"@ + decimal(lines as nat)
            + " lines]"@,
        lang is Zh ==> r@ == "[粘贴 "@ + decimal(index as nat) + ": ~"@ + decimal(lines as nat)
            + " 行]"@,
{
}

} // verus!
