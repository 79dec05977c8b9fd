//! Placeholders: the bracketed tokens such as `[Image 1: cat.png]` and
//! `[Pasted 2: ~40 lines]` that stand in a line of input for what was pasted.
use crate::text::{
    all_digits, begins_with, digits_number, from_chars, is_digit, matches_at, occurs_at,
    parse_digits, to_chars,
};
use vstd::prelude::*;
use vstd::string::*;

verus! {

/// A paste of at least so many lines is summarized.
pub const REPL_PASTE_PLACEHOLDER_MIN_LINES: usize = 3;

/// A paste of more characters than this is summarized.
pub const REPL_PASTE_PLACEHOLDER_MIN_CHARS: usize = 150;

#[derive(Debug)]
pub struct PastedText {
    pub text: String,
}

#[derive(Debug)]
pub enum PastedImage {
    Binary { mime: String, data: Vec<u8> },
    Path(String),
}

/// The number of characters at the head of `s` that are digits.
pub open spec fn digit_run(s: Seq<char>) -> nat
    decreases s.len(),
{
    if s.len() > 0 && is_digit(s[0]) {
        1 + digit_run(s.drop_first())
    } else {
        0
    }
}

/// The number of characters at the head of `s` before the first `]`.
pub open spec fn close_run(s: Seq<char>) -> nat
    decreases s.len(),
{
    if s.len() > 0 && s[0] != ']' {
        1 + close_run(s.drop_first())
    } else {
        0
    }
}

/// The length of the opening that a placeholder at the head of `s` begins with;
/// none where no placeholder begins there.
pub open spec fn opening_len(s: Seq<char>) -> nat {
    if begins_with(s, "[Image "@) {
        7
    } else if begins_with(s, "[Pasted "@) {
        8
    } else if begins_with(s, "[粘贴 "@) {
        4
    } else {
        0
    }
}

/// The length of the placeholder at the head of `s`; none where there is none.
/// Behind the opening stand digits, and then either `]` or `:` and anything up
/// to the next `]`.
pub open spec fn head_len(s: Seq<char>) -> nat {
    let p = opening_len(s);
    let j = p + digit_run(s.skip(p as int));
    if p == 0 || j >= s.len() {
        0
    } else if s[j as int] == ':' {
        let k = j + 1 + close_run(s.skip(j as int + 1));
        if k < s.len() {
            k + 1
        } else {
            0
        }
    } else if s[j as int] == ']' {
        j + 1
    } else {
        0
    }
}

pub proof fn lemma_digit_run(s: Seq<char>)
    ensures
        digit_run(s) <= s.len(),
        all_digits(s.take(digit_run(s) as int)),
        digit_run(s) < s.len() ==> !is_digit(s[digit_run(s) as int]),
    decreases s.len(),
{
    if s.len() > 0 && is_digit(s[0]) {
        let t = s.drop_first();
        lemma_digit_run(t);
        assert forall|i: int| 0 <= i < digit_run(s) implies is_digit(
            #[trigger] s.take(digit_run(s) as int)[i],
        ) by {
            if i > 0 {
                assert(t.take(digit_run(t) as int)[i - 1] == s[i]);
            }
        }
    }
}

pub proof fn lemma_close_run(s: Seq<char>)
    ensures
        close_run(s) <= s.len(),
        close_run(s) < s.len() ==> s[close_run(s) as int] == ']',
        forall|i: int| 0 <= i < close_run(s) ==> s[i] != ']',
    decreases s.len(),
{
    if s.len() > 0 && s[0] != ']' {
        let t = s.drop_first();
        lemma_close_run(t);
        assert forall|i: int| 0 <= i < close_run(s) implies s[i] != ']' by {
            if i > 0 {
                assert(t[i - 1] == s[i]);
            }
        }
    }
}

proof fn lemma_openings()
    ensures
        "[Image "@.len() == 7,
        "[Pasted "@.len() == 8,
        "[粘贴 "@.len() == 4,
{
    reveal_strlit("[Image ");
    reveal_strlit("[Pasted ");
    reveal_strlit("[粘贴 ");
}

pub proof fn lemma_head_len(s: Seq<char>)
    ensures
        head_len(s) <= s.len(),
        head_len(s) > 0 ==> head_len(s) > opening_len(s) >= 4 && s[head_len(s) - 1] == ']',
{
    lemma_openings();
    let p = opening_len(s);
    if p > 0 {
        lemma_digit_run(s.skip(p as int));
        let j = p + digit_run(s.skip(p as int));
        if j < s.len() {
            lemma_close_run(s.skip(j as int + 1));
        }
    }
}

/// The placeholders of `s` in order, each as its first index and the index
/// behind its last, counted from `offset`.
pub open spec fn spans_from(s: Seq<char>, offset: int) -> Seq<(int, int)>
    decreases s.len(),
{
    let h = head_len(s);
    if s.len() == 0 {
        Seq::empty()
    } else if 0 < h <= s.len() {
        seq![(offset, offset + h)] + spans_from(s.skip(h as int), offset + h)
    } else {
        spans_from(s.drop_first(), offset + 1)
    }
}

/// The placeholders of `s`.
pub open spec fn spans(s: Seq<char>) -> Seq<(int, int)> {
    spans_from(s, 0)
}

/// Ranges of machine integers, as ranges.
pub open spec fn as_spans(v: Seq<(usize, usize)>) -> Seq<(int, int)> {
    v.map_values(|p: (usize, usize)| (p.0 as int, p.1 as int))
}

fn digit_run_at(v: &[char], from: usize) -> (end: usize)
    requires
        from <= v@.len(),
    ensures
        end == from + digit_run(v@.skip(from as int)),
        end <= v@.len(),
{
    let mut j: usize = from;
    while j < v.len() && '0' <= v[j] && v[j] <= '9'
        invariant
            from <= j <= v@.len(),
            digit_run(v@.skip(from as int)) == (j - from) + digit_run(v@.skip(j as int)),
        decreases v@.len() - j,
    {
        assert(v@.skip(j as int).drop_first() =~= v@.skip(j + 1));
        j = j + 1;
    }
    j
}

/// The length of the placeholder that begins at index `i`, or zero.
pub fn placeholder_len_at(v: &[char], i: usize) -> (h: usize)
    requires
        i < v@.len(),
    ensures
        h == head_len(v@.skip(i as int)),
        i + h <= v@.len(),
{
    let ghost s = v@.skip(i as int);
    let n: usize = v.len();
    proof {
        lemma_openings();
        lemma_head_len(s);
        assert(begins_with(s, "[Image "@) == occurs_at(v@, i as int, "[Image "@)) by {
            if i + 7 <= v@.len() {
                assert(s.take(7) =~= v@.subrange(i as int, i + 7));
            }
        }
        assert(begins_with(s, "[Pasted "@) == occurs_at(v@, i as int, "[Pasted "@)) by {
            if i + 8 <= v@.len() {
                assert(s.take(8) =~= v@.subrange(i as int, i + 8));
            }
        }
        assert(begins_with(s, "[粘贴 "@) == occurs_at(v@, i as int, "[粘贴 "@)) by {
            if i + 4 <= v@.len() {
                assert(s.take(4) =~= v@.subrange(i as int, i + 4));
            }
        }
    }
    let p: usize = if matches_at(v, i, "[Image ") {
        7
    } else if matches_at(v, i, "[Pasted ") {
        8
    } else if matches_at(v, i, "[粘贴 ") {
        4
    } else {
        0
    };
    if p == 0 {
        return 0;
    }
    assert(s.skip(p as int) =~= v@.skip(i + p));
    let j = digit_run_at(v, i + p);
    if j >= n {
        return 0;
    }
    assert(s[j - i] == v@[j as int]);
    if v[j] == ':' {
        assert(s.skip(j - i + 1) =~= v@.skip(j + 1));
        let from: usize = j + 1;
        let mut k: usize = from;
        while k < v.len() && v[k] != ']'
            invariant
                from <= k <= v@.len(),
                close_run(v@.skip(from as int)) == (k - from) + close_run(v@.skip(k as int)),
            decreases v@.len() - k,
        {
            assert(v@.skip(k as int).drop_first() =~= v@.skip(k + 1));
            k = k + 1;
        }
        if k < v.len() {
            k + 1 - i
        } else {
            0
        }
    } else if v[j] == ']' {
        j + 1 - i
    } else {
        0
    }
}

pub fn find_repl_placeholders(input: &str) -> (r: Vec<(usize, usize)>)
    ensures
        as_spans(r@) == spans(input@),
{
    let v = to_chars(input);
    let mut out: Vec<(usize, usize)> = Vec::new();
    let mut i: usize = 0;
    assert(v@.skip(0) =~= v@);
    assert(as_spans(out@) + spans(v@) =~= spans(v@));
    while i < v.len()
        invariant
            i <= v@.len(),
            as_spans(out@) + spans_from(v@.skip(i as int), i as int) == spans(v@),
        decreases v@.len() - i,
    {
        let h = placeholder_len_at(&v, i);
        let ghost rest = v@.skip(i as int);
        if h > 0 {
            let ghost was = as_spans(out@);
            out.push((i, i + h));
            assert(as_spans(out@) =~= was.push((i as int, i + h)));
            assert(rest.skip(h as int) =~= v@.skip(i + h));
            assert(was + (seq![(i as int, i + h)] + spans_from(v@.skip(i + h), i + h))
                =~= as_spans(out@) + spans_from(v@.skip(i + h), i + h));
            i = i + h;
        } else {
            assert(rest.drop_first() =~= v@.skip(i + 1));
            i = i + 1;
        }
    }
    assert(v@.skip(v@.len() as int) =~= Seq::empty());
    assert(as_spans(out@) + Seq::<(int, int)>::empty() =~= as_spans(out@));
    out
}

/// Ranges between `low` and `high`, in order, without overlap and none empty.
pub open spec fn disjoint_within(v: Seq<(int, int)>, low: int, high: int) -> bool {
    &&& forall|i: int|
        0 <= i < v.len() ==> low <= (#[trigger] v[i]).0 && v[i].0 < v[i].1 && v[i].1 <= high
    &&& forall|i: int, j: int| 0 <= i < j < v.len() ==> (#[trigger] v[i]).1 <= (#[trigger] v[j]).0
}

pub proof fn lemma_spans_from(s: Seq<char>, offset: int)
    ensures
        disjoint_within(spans_from(s, offset), offset, offset + s.len()),
    decreases s.len(),
{
    if s.len() > 0 {
        lemma_head_len(s);
        let h = head_len(s);
        let all = spans_from(s, offset);
        if h > 0 {
            let rest = spans_from(s.skip(h as int), offset + h);
            lemma_spans_from(s.skip(h as int), offset + h);
            assert forall|i: int| 0 < i < all.len() implies all[i] == rest[i - 1] by {}
            assert(all[0] == (offset, offset + h));
        } else {
            lemma_spans_from(s.drop_first(), offset + 1);
        }
    }
}

/// Placeholders lie inside the text, in order and without overlap, and none is
/// empty.
pub proof fn law_placeholders_are_disjoint(s: Seq<char>)
    ensures
        disjoint_within(spans(s), 0, s.len() as int),
{
    lemma_spans_from(s, 0);
}

/// The number in an image placeholder.
pub open spec fn image_index(segment: Seq<char>) -> Option<usize> {
    if begins_with(segment, "[Image "@) {
        let rest = segment.skip(7);
        digits_number(rest.take(digit_run(rest) as int))
    } else {
        None
    }
}

/// The number in a placeholder for pasted text.
pub open spec fn pasted_index(segment: Seq<char>) -> Option<usize> {
    if begins_with(segment, "[Pasted "@) {
        let rest = segment.skip(8);
        digits_number(rest.take(digit_run(rest) as int))
    } else if begins_with(segment, "[粘贴 "@) {
        let rest = segment.skip(4);
        digits_number(rest.take(digit_run(rest) as int))
    } else {
        None
    }
}

fn leading_number(v: &[char], from: usize) -> (r: Option<usize>)
    requires
        from <= v@.len(),
    ensures
        r == digits_number(v@.skip(from as int).take(digit_run(v@.skip(from as int)) as int)),
{
    let end = digit_run_at(v, from);
    assert(v@.subrange(from as int, end as int) =~= v@.skip(from as int).take(end - from));
    parse_digits(v, from, end)
}

fn begins_chars(v: &[char], p: &str) -> (r: bool)
    ensures
        r == begins_with(v@, p@),
{
    let r = matches_at(v, 0, p);
    assert(p@.len() <= v@.len() ==> v@.take(p@.len() as int) =~= v@.subrange(0, p@.len() as int));
    r
}

fn image_index_of(segment: &[char]) -> (r: Option<usize>)
    ensures
        r == image_index(segment@),
{
    proof {
        lemma_openings();
    }
    if begins_chars(segment, "[Image ") {
        leading_number(segment, 7)
    } else {
        None
    }
}

fn pasted_index_of(segment: &[char]) -> (r: Option<usize>)
    ensures
        r == pasted_index(segment@),
{
    proof {
        lemma_openings();
    }
    if begins_chars(segment, "[Pasted ") {
        leading_number(segment, 8)
    } else if begins_chars(segment, "[粘贴 ") {
        leading_number(segment, 4)
    } else {
        None
    }
}

fn segment_of(input: &str, char_start: usize, char_end: usize) -> (r: Vec<char>)
    requires
        char_start <= char_end <= input@.len(),
    ensures
        r@ == input@.subrange(char_start as int, char_end as int),
{
    to_chars(input.substring_char(char_start, char_end))
}

pub fn parse_image_placeholder_index(input: &str, char_start: usize, char_end: usize) -> (r: Option<
    usize,
>)
    requires
        char_start <= char_end <= input@.len(),
    ensures
        r == image_index(input@.subrange(char_start as int, char_end as int)),
{
    let segment = segment_of(input, char_start, char_end);
    image_index_of(&segment)
}

pub fn parse_pasted_text_placeholder_index(
    input: &str,
    char_start: usize,
    char_end: usize,
) -> (r: Option<usize>)
    requires
        char_start <= char_end <= input@.len(),
    ensures
        r == pasted_index(input@.subrange(char_start as int, char_end as int)),
{
    let segment = segment_of(input, char_start, char_end);
    pasted_index_of(&segment)
}

/// Leaving some ranges out keeps the others in order and apart.
pub proof fn lemma_filter_disjoint(
    v: Seq<(int, int)>,
    keep: spec_fn((int, int)) -> bool,
    low: int,
    high: int,
)
    requires
        disjoint_within(v, low, high),
    ensures
        disjoint_within(v.filter(keep), low, high),
    decreases v.len(),
{
    reveal(Seq::filter);
    if v.len() > 0 {
        let before = v.drop_last();
        lemma_filter_disjoint(before, keep, low, v.last().0);
    }
}

/// The placeholders of `s` that are images.
pub open spec fn image_spans(s: Seq<char>) -> Seq<(int, int)> {
    spans(s).filter(|p: (int, int)| image_index(s.subrange(p.0, p.1)) is Some)
}

pub fn find_image_placeholders(input: &str) -> (r: Vec<(usize, usize)>)
    ensures
        as_spans(r@) == image_spans(input@),
{
    let all = find_repl_placeholders(input);
    let mut out: Vec<(usize, usize)> = Vec::new();
    let mut i: usize = 0;
    let ghost keep = |p: (int, int)| image_index(input@.subrange(p.0, p.1)) is Some;
    proof {
        lemma_spans_from(input@, 0);
        assert(spans(input@).take(0).filter(keep) =~= as_spans(out@));
    }
    while i < all.len()
        invariant
            i <= all@.len(),
            as_spans(all@) == spans(input@),
            keep == (|p: (int, int)| image_index(input@.subrange(p.0, p.1)) is Some),
            disjoint_within(spans(input@), 0, input@.len() as int),
            as_spans(out@) == spans(input@).take(i as int).filter(keep),
        decreases all@.len() - i,
    {
        let (start, end) = all[i];
        assert(spans(input@)[i as int] == (start as int, end as int));
        let ghost was = as_spans(out@);
        let index = parse_image_placeholder_index(input, start, end);
        assert(spans(input@).take(i + 1) =~= spans(input@).take(i as int).push(spans(input@)[i as int]));
        proof {
            reveal(Seq::filter);
            assert(spans(input@).take(i + 1).drop_last() =~= spans(input@).take(i as int));
        }
        if index.is_some() {
            out.push((start, end));
            assert(as_spans(out@) =~= was.push((start as int, end as int)));
        }
        i = i + 1;
    }
    assert(spans(input@).take(spans(input@).len() as int) =~= spans(input@));
    out
}

/// The placeholders of `s` for pasted text, each with its number.
pub open spec fn pasted_spans(s: Seq<char>) -> Seq<(int, int, int)> {
    spans(s).filter(|p: (int, int)| pasted_index(s.subrange(p.0, p.1)) is Some).map_values(
        |p: (int, int)| (p.0, p.1, pasted_index(s.subrange(p.0, p.1))->0 as int),
    )
}

pub fn find_pasted_text_placeholders(input: &str) -> (r: Vec<(usize, usize, usize)>)
    ensures
        r@.map_values(|p: (usize, usize, usize)| (p.0 as int, p.1 as int, p.2 as int))
            == pasted_spans(input@),
{
    let all = find_repl_placeholders(input);
    let mut out: Vec<(usize, usize, usize)> = Vec::new();
    let mut i: usize = 0;
    let ghost keep = |p: (int, int)| pasted_index(input@.subrange(p.0, p.1)) is Some;
    let ghost tag = |p: (int, int)|
        (p.0, p.1, pasted_index(input@.subrange(p.0, p.1))->0 as int);
    let ghost plain = |p: (usize, usize, usize)| (p.0 as int, p.1 as int, p.2 as int);
    proof {
        lemma_spans_from(input@, 0);
        assert(out@.map_values(plain) =~= spans(input@).take(0).filter(keep).map_values(tag));
    }
    while i < all.len()
        invariant
            i <= all@.len(),
            as_spans(all@) == spans(input@),
            keep == (|p: (int, int)| pasted_index(input@.subrange(p.0, p.1)) is Some),
            tag == (|p: (int, int)|
                (p.0, p.1, pasted_index(input@.subrange(p.0, p.1))->0 as int)),
            plain == (|p: (usize, usize, usize)| (p.0 as int, p.1 as int, p.2 as int)),
            disjoint_within(spans(input@), 0, input@.len() as int),
            out@.map_values(plain) == spans(input@).take(i as int).filter(keep).map_values(tag),
        decreases all@.len() - i,
    {
        let (start, end) = all[i];
        assert(spans(input@)[i as int] == (start as int, end as int));
        let ghost was = out@.map_values(plain);
        let index = parse_pasted_text_placeholder_index(input, start, end);
        let ghost kept = spans(input@).take(i as int).filter(keep);
        proof {
            reveal(Seq::filter);
            assert(spans(input@).take(i + 1).drop_last() =~= spans(input@).take(i as int));
        }
        if let Some(n) = index {
            out.push((start, end, n));
            assert(out@.map_values(plain) =~= was.push((start as int, end as int, n as int)));
            assert(kept.push((start as int, end as int)).map_values(tag) =~= kept.map_values(
                tag,
            ).push((start as int, end as int, n as int)));
        }
        i = i + 1;
    }
    assert(spans(input@).take(spans(input@).len() as int) =~= spans(input@));
    out
}

/// The placeholder that the cursor is inside of.
pub fn placeholder_at_cursor(input: &str, cursor: usize) -> (r: Option<(usize, usize)>)
    ensures
        match r {
            Some((start, end)) => spans(input@).contains((start as int, end as int)) && start
                < cursor < end,
            None => forall|i: int|
                0 <= i < spans(input@).len() ==> !((#[trigger] spans(input@)[i]).0 < cursor
                    < spans(input@)[i].1),
        },
{
    let all = find_repl_placeholders(input);
    let mut i: usize = 0;
    while i < all.len()
        invariant
            i <= all@.len(),
            as_spans(all@) == spans(input@),
            forall|k: int|
                0 <= k < i ==> !((#[trigger] spans(input@)[k]).0 < cursor < spans(input@)[k].1),
        decreases all@.len() - i,
    {
        let (start, end) = all[i];
        assert(spans(input@)[i as int] == (start as int, end as int));
        if cursor > start && cursor < end {
            return Some((start, end));
        }
        i = i + 1;
    }
    None
}

/// The placeholder that ends right before the cursor.
pub fn placeholder_before_cursor(input: &str, cursor: usize) -> (r: Option<(usize, usize)>)
    ensures
        match r {
            Some((start, end)) => spans(input@).contains((start as int, end as int)) && end
                == cursor,
            None => forall|i: int|
                0 <= i < spans(input@).len() ==> (#[trigger] spans(input@)[i]).1 != cursor,
        },
{
    let all = find_repl_placeholders(input);
    let mut i: usize = 0;
    while i < all.len()
        invariant
            i <= all@.len(),
            as_spans(all@) == spans(input@),
            forall|k: int| 0 <= k < i ==> (#[trigger] spans(input@)[k]).1 != cursor,
        decreases all@.len() - i,
    {
        let (start, end) = all[i];
        assert(spans(input@)[i as int] == (start as int, end as int));
        if end == cursor {
            return Some((start, end));
        }
        i = i + 1;
    }
    None
}

/// The placeholder that begins right behind the cursor.
pub fn placeholder_after_cursor(input: &str, cursor: usize) -> (r: Option<(usize, usize)>)
    ensures
        match r {
            Some((start, end)) => spans(input@).contains((start as int, end as int)) && start
                == cursor,
            None => forall|i: int|
                0 <= i < spans(input@).len() ==> (#[trigger] spans(input@)[i]).0 != cursor,
        },
{
    let all = find_repl_placeholders(input);
    let mut i: usize = 0;
    while i < all.len()
        invariant
            i <= all@.len(),
            as_spans(all@) == spans(input@),
            forall|k: int| 0 <= k < i ==> (#[trigger] spans(input@)[k]).0 != cursor,
        decreases all@.len() - i,
    {
        let (start, end) = all[i];
        assert(spans(input@)[i as int] == (start as int, end as int));
        if start == cursor {
            return Some((start, end));
        }
        i = i + 1;
    }
    None
}

/// Whether a deletion to the left of `cursor` takes the placeholder `p`: the
/// cursor is inside of it or right behind it.
pub open spec fn touches_left(p: (int, int), cursor: int) -> bool {
    p.0 < cursor <= p.1
}

/// Whether a deletion to the right of `cursor` takes the placeholder `p`.
pub open spec fn touches_right(p: (int, int), cursor: int) -> bool {
    p.0 <= cursor < p.1
}

pub fn placeholder_before_or_at_cursor(input: &str, cursor: usize) -> (r: Option<(usize, usize)>)
    ensures
        match r {
            Some((start, end)) => spans(input@).contains((start as int, end as int))
                && touches_left((start as int, end as int), cursor as int),
            None => forall|i: int|
                0 <= i < spans(input@).len() ==> !touches_left(
                    #[trigger] spans(input@)[i],
                    cursor as int,
                ),
        },
{
    proof {
        law_placeholders_are_disjoint(input@);
    }
    let at = placeholder_at_cursor(input, cursor);
    if at.is_some() {
        at
    } else {
        placeholder_before_cursor(input, cursor)
    }
}

pub fn placeholder_after_or_at_cursor(input: &str, cursor: usize) -> (r: Option<(usize, usize)>)
    ensures
        match r {
            Some((start, end)) => spans(input@).contains((start as int, end as int))
                && touches_right((start as int, end as int), cursor as int),
            None => forall|i: int|
                0 <= i < spans(input@).len() ==> !touches_right(
                    #[trigger] spans(input@)[i],
                    cursor as int,
                ),
        },
{
    proof {
        law_placeholders_are_disjoint(input@);
    }
    let at = placeholder_at_cursor(input, cursor);
    if at.is_some() {
        at
    } else {
        placeholder_after_cursor(input, cursor)
    }
}

/// At most one placeholder touches the cursor from either side, so what the
/// lookups by cursor return is determined.
pub proof fn law_touched_placeholder_is_unique(s: Seq<char>, cursor: int, i: int, j: int)
    requires
        0 <= i < spans(s).len(),
        0 <= j < spans(s).len(),
        (touches_left(spans(s)[i], cursor) && touches_left(spans(s)[j], cursor)) || (touches_right(
            spans(s)[i],
            cursor,
        ) && touches_right(spans(s)[j], cursor)),
    ensures
        i == j,
{
    law_placeholders_are_disjoint(s);
    if i < j {
        assert(spans(s)[i].1 <= spans(s)[j].0);
    }
    if j < i {
        assert(spans(s)[j].1 <= spans(s)[i].0);
    }
}

/// The slot that a placeholder number refers to in a list of `len` slots.
pub open spec fn slot_of(index: Option<usize>, len: int) -> Option<int> {
    match index {
        Some(n) => if 0 < n <= len {
            Some(n - 1)
        } else {
            None
        },
        None => None,
    }
}

/// A list with the slot that a placeholder refers to emptied.
pub open spec fn with_slot_emptied<T>(v: Seq<Option<T>>, index: Option<usize>) -> Seq<Option<T>> {
    match slot_of(index, v.len() as int) {
        Some(k) => v.update(k, None),
        None => v,
    }
}

pub fn clear_placeholder_payload(
    input: &str,
    start: usize,
    end: usize,
    pasted_images: &mut Vec<Option<PastedImage>>,
    pasted_texts: &mut Vec<Option<PastedText>>,
)
    requires
        start <= end <= input@.len(),
    ensures
        final(pasted_images)@ == with_slot_emptied(
            old(pasted_images)@,
            image_index(input@.subrange(start as int, end as int)),
        ),
        final(pasted_texts)@ == with_slot_emptied(
            old(pasted_texts)@,
            pasted_index(input@.subrange(start as int, end as int)),
        ),
{
    if let Some(n) = parse_image_placeholder_index(input, start, end) {
        if n > 0 && n <= pasted_images.len() {
            pasted_images.set(n - 1, None);
        }
    }
    if let Some(n) = parse_pasted_text_placeholder_index(input, start, end) {
        if n > 0 && n <= pasted_texts.len() {
            pasted_texts.set(n - 1, None);
        }
    }
}

/// The pasted texts as character sequences.
pub open spec fn pasted_views(v: Seq<Option<PastedText>>) -> Seq<Option<Seq<char>>> {
    v.map_values(
        |p: Option<PastedText>|
            match p {
                Some(q) => Some(q.text@),
                None => None,
            },
    )
}

/// What a placeholder stands for: the pasted text of its number, or itself
/// where there is none.
pub open spec fn replacement(segment: Seq<char>, pasted: Seq<Option<Seq<char>>>) -> Seq<char> {
    match slot_of(pasted_index(segment), pasted.len() as int) {
        Some(k) => match pasted[k] {
            Some(text) => text,
            None => segment,
        },
        None => segment,
    }
}

/// `s` with every placeholder rewritten by `f` and everything else kept.
pub open spec fn rewritten(s: Seq<char>, f: spec_fn(Seq<char>) -> Seq<char>) -> Seq<char>
    decreases s.len(),
{
    let h = head_len(s);
    if s.len() == 0 {
        Seq::empty()
    } else if 0 < h <= s.len() {
        f(s.take(h as int)) + rewritten(s.skip(h as int), f)
    } else {
        seq![s[0]] + rewritten(s.drop_first(), f)
    }
}

pub open spec fn expansion(pasted: Seq<Option<Seq<char>>>) -> spec_fn(Seq<char>) -> Seq<char> {
    |segment: Seq<char>| replacement(segment, pasted)
}

/// `s` with every placeholder for pasted text replaced by that text.
pub open spec fn expanded(s: Seq<char>, pasted: Seq<Option<Seq<char>>>) -> Seq<char> {
    rewritten(s, expansion(pasted))
}

pub fn expand_pasted_text_placeholders(input: &str, pasted_texts: &Vec<Option<PastedText>>) -> (r:
    String)
    ensures
        r@ == expanded(input@, pasted_views(pasted_texts@)),
{
    let v = to_chars(input);
    let ghost pasted = pasted_views(pasted_texts@);
    let ghost f = expansion(pasted);
    let mut out: String = String::new();
    let mut i: usize = 0;
    assert(v@.skip(0) =~= v@);
    assert(out@ + rewritten(v@, f) =~= rewritten(v@, f));
    while i < v.len()
        invariant
            i <= v@.len(),
            pasted == pasted_views(pasted_texts@),
            f == expansion(pasted),
            out@ + rewritten(v@.skip(i as int), f) == rewritten(v@, f),
        decreases v@.len() - i,
    {
        let h = placeholder_len_at(&v, i);
        let ghost rest = v@.skip(i as int);
        let ghost was = out@;
        if h > 0 {
            let segment = from_chars(&v, i, i + h);
            assert(segment@ =~= rest.take(h as int));
            assert(rest.skip(h as int) =~= v@.skip(i + h));
            let chars = to_chars(segment.as_str());
            let index = pasted_index_of(&chars);
            let mut done: bool = false;
            if let Some(n) = index {
                if n > 0 && n <= pasted_texts.len() {
                    assert(pasted[n - 1] == match pasted_texts@[n - 1] {
                        Some(q) => Some(q.text@),
                        None => None,
                    });
                    if let Some(p) = &pasted_texts[n - 1] {
                        out.append(p.text.as_str());
                        done = true;
                    }
                }
            }
            if !done {
                out.append(segment.as_str());
            }
            assert(out@ == was + f(segment@));
            assert(was + (f(segment@) + rewritten(v@.skip(i + h), f)) =~= out@ + rewritten(
                v@.skip(i + h),
                f,
            ));
            i = i + h;
        } else {
            assert(rest.drop_first() =~= v@.skip(i + 1));
            out.push(v[i]);
            assert(was + (seq![v@[i as int]] + rewritten(v@.skip(i + 1), f)) =~= out@ + rewritten(
                v@.skip(i + 1),
                f,
            ));
            i = i + 1;
        }
    }
    assert(v@.skip(v@.len() as int) =~= Seq::empty());
    assert(out@ + Seq::<char>::empty() =~= out@);
    out
}

/// The colour that placeholders are shown in.
pub open spec fn tinted(segment: Seq<char>) -> Seq<char> {
    "\x1b[35m"@ + segment + "\x1b[0m"@
}

pub open spec fn tint() -> spec_fn(Seq<char>) -> Seq<char> {
    |segment: Seq<char>| tinted(segment)
}

/// `s` with every placeholder coloured.
pub open spec fn colorized(s: Seq<char>) -> Seq<char> {
    rewritten(s, tint())
}

pub fn colorize_repl_placeholders(line: &str) -> (r: String)
    ensures
        r@ == colorized(line@),
{
    let v = to_chars(line);
    let ghost f = tint();
    let mut out: String = String::new();
    let mut i: usize = 0;
    assert(v@.skip(0) =~= v@);
    assert(out@ + rewritten(v@, f) =~= rewritten(v@, f));
    while i < v.len()
        invariant
            i <= v@.len(),
            f == tint(),
            out@ + rewritten(v@.skip(i as int), f) == rewritten(v@, f),
        decreases v@.len() - i,
    {
        let h = placeholder_len_at(&v, i);
        let ghost rest = v@.skip(i as int);
        let ghost was = out@;
        if h > 0 {
            let segment = from_chars(&v, i, i + h);
            assert(segment@ =~= rest.take(h as int));
            assert(rest.skip(h as int) =~= v@.skip(i + h));
            out.append("\x1b[35m");
            out.append(segment.as_str());
            out.append("\x1b[0m");
            assert(out@ =~= was + f(segment@));
            assert(was + (f(segment@) + rewritten(v@.skip(i + h), f)) =~= out@ + rewritten(
                v@.skip(i + h),
                f,
            ));
            i = i + h;
        } else {
            assert(rest.drop_first() =~= v@.skip(i + 1));
            out.push(v[i]);
            assert(was + (seq![v@[i as int]] + rewritten(v@.skip(i + 1), f)) =~= out@ + rewritten(
                v@.skip(i + 1),
                f,
            ));
            i = i + 1;
        }
    }
    assert(v@.skip(v@.len() as int) =~= Seq::empty());
    assert(out@ + Seq::<char>::empty() =~= out@);
    out
}

/// The pasted text that stands behind the placeholder next to the cursor: the
/// one that the cursor is inside of, else the one before it, else the one
/// behind it.
pub fn placeholder_text_near_cursor(
    input: &str,
    cursor: usize,
    pasted_texts: &Vec<Option<PastedText>>,
) -> (r: Option<String>)
    ensures
        match near_cursor(input@, cursor as int) {
            Some(p) => match slot_of(
                pasted_index(input@.subrange(p.0, p.1)),
                pasted_texts@.len() as int,
            ) {
                Some(k) => match (pasted_texts@[k], r) {
                    (Some(q), Some(text)) => text@ == q.text@,
                    (None, None) => true,
                    _ => false,
                },
                None => r is None,
            },
            None => r is None,
        },
{
    proof {
        law_placeholders_are_disjoint(input@);
    }
    let mut found = placeholder_at_cursor(input, cursor);
    if found.is_none() {
        found = placeholder_before_cursor(input, cursor);
    }
    if found.is_none() {
        found = placeholder_after_cursor(input, cursor);
    }
    proof {
        lemma_near_cursor(input@, cursor as int, found);
    }
    if let Some((start, end)) = found {
        if let Some(n) = parse_pasted_text_placeholder_index(input, start, end) {
            if n > 0 && n <= pasted_texts.len() {
                if let Some(p) = &pasted_texts[n - 1] {
                    return Some(p.text.clone());
                }
            }
        }
    }
    None
}

/// The placeholder next to the cursor: the one around it, else the one that
/// ends there, else the one that begins there.
pub open spec fn near_cursor(s: Seq<char>, cursor: int) -> Option<(int, int)> {
    if exists|p: (int, int)| spans(s).contains(p) && p.0 < cursor < p.1 {
        Some(choose|p: (int, int)| spans(s).contains(p) && p.0 < cursor < p.1)
    } else if exists|p: (int, int)| spans(s).contains(p) && p.1 == cursor {
        Some(choose|p: (int, int)| spans(s).contains(p) && p.1 == cursor)
    } else if exists|p: (int, int)| spans(s).contains(p) && p.0 == cursor {
        Some(choose|p: (int, int)| spans(s).contains(p) && p.0 == cursor)
    } else {
        None
    }
}

proof fn lemma_near_cursor(s: Seq<char>, cursor: int, found: Option<(usize, usize)>)
    requires
        match found {
            Some((a, b)) => spans(s).contains((a as int, b as int)) && ({
                ||| a < cursor < b
                ||| b == cursor && forall|i: int|
                    0 <= i < spans(s).len() ==> !((#[trigger] spans(s)[i]).0 < cursor < spans(
                        s,
                    )[i].1)
                ||| a == cursor && forall|i: int|
                    0 <= i < spans(s).len() ==> !((#[trigger] spans(s)[i]).0 < cursor < spans(
                        s,
                    )[i].1) && spans(s)[i].1 != cursor
            }),
            None => forall|i: int|
                0 <= i < spans(s).len() ==> !((#[trigger] spans(s)[i]).0 <= cursor <= spans(
                    s,
                )[i].1),
        },
    ensures
        near_cursor(s, cursor) == match found {
            Some((a, b)) => Some((a as int, b as int)),
            None => None,
        },
{
    law_placeholders_are_disjoint(s);
    match found {
        Some((a, b)) => {
            let p = (a as int, b as int);
            let i = choose|i: int| 0 <= i < spans(s).len() && spans(s)[i] == p;
            assert forall|q: (int, int)|
                spans(s).contains(q) && ((p.0 < cursor < p.1 && q.0 < cursor < q.1) || (p.1
                    == cursor && q.1 == cursor) || (p.0 == cursor && q.0 == cursor)) implies q
                == p by {
                let j = choose|j: int| 0 <= j < spans(s).len() && spans(s)[j] == q;
                law_touched_placeholder_is_unique(s, cursor, i, j);
            }
        },
        None => {},
    }
}

/// Every placeholder that is found is one by its own text: it opens, has digits
/// and closes; and nothing outside the ones that are found is skipped.
pub proof fn law_placeholders_are_found(input: &str, r: Vec<(usize, usize)>, i: int)
    requires
        call_ensures(find_repl_placeholders, (input,), r),
    ensures
        0 <= i < r@.len() ==> r@[i].0 < r@[i].1 <= input@.len() && opening_len(
            input@.skip(r@[i].0 as int),
        ) > 0 && input@[r@[i].1 - 1] == ']',
        (forall|k: int| 0 <= k < input@.len() ==> #[trigger] head_len(input@.skip(k)) == 0)
            ==> r@.len() == 0,
        input@.len() > 0 && head_len(input@) > 0 ==> r@.len() > 0 && r@[0].0 == 0 && r@[0].1
            == head_len(input@),
{
    assert(as_spans(r@).len() == r@.len());
    assert(input@.skip(0) =~= input@);
    lemma_spans_are_heads(input@, input@, 0);
    lemma_head_len(input@);
    if 0 <= i < r@.len() {
        assert(as_spans(r@)[i] == (r@[i].0 as int, r@[i].1 as int));
        let p = spans(input@)[i];
        lemma_head_len(input@.skip(p.0));
    }
    if input@.len() > 0 && head_len(input@) > 0 {
        assert(spans(input@)[0] == (0int, head_len(input@) as int));
        assert(as_spans(r@)[0] == (r@[0].0 as int, r@[0].1 as int));
    }
}

proof fn lemma_spans_are_heads(whole: Seq<char>, s: Seq<char>, offset: int)
    requires
        0 <= offset <= whole.len(),
        s == whole.skip(offset),
    ensures
        forall|i: int|
            0 <= i < spans_from(s, offset).len() ==> {
                let p = #[trigger] spans_from(s, offset)[i];
                &&& offset <= p.0 < p.1 <= whole.len()
                &&& p.1 == p.0 + head_len(whole.skip(p.0))
            },
        (forall|k: int| 0 <= k < whole.len() ==> #[trigger] head_len(whole.skip(k)) == 0)
            ==> spans_from(s, offset).len() == 0,
    decreases s.len(),
{
    let h = head_len(s);
    lemma_head_len(s);
    if s.len() == 0 {
    } else if 0 < h <= s.len() {
        assert(s.skip(h as int) =~= whole.skip(offset + h));
        lemma_spans_are_heads(whole, s.skip(h as int), offset + h);
        let rest = spans_from(s.skip(h as int), offset + h);
        let all = spans_from(s, offset);
        assert forall|i: int| 0 <= i < all.len() implies {
            let p = #[trigger] all[i];
            &&& offset <= p.0 < p.1 <= whole.len()
            &&& p.1 == p.0 + head_len(whole.skip(p.0))
        } by {
            if i > 0 {
                assert(all[i] == rest[i - 1]);
            }
        }
        assert(head_len(whole.skip(offset)) > 0);
    } else {
        assert(s.drop_first() =~= whole.skip(offset + 1));
        lemma_spans_are_heads(whole, s.drop_first(), offset + 1);
        let rest = spans_from(s.drop_first(), offset + 1);
        let all = spans_from(s, offset);
        assert(all == rest);
        assert forall|i: int| 0 <= i < all.len() implies {
            let p = #[trigger] all[i];
            &&& offset <= p.0 < p.1 <= whole.len()
            &&& p.1 == p.0 + head_len(whole.skip(p.0))
        } by {
            assert(all[i] == rest[i]);
        }
    }
}

/// Deleting a placeholder empties the slot of its number and no other.
pub proof fn law_deleted_placeholder_empties_its_slot(
    input: &str,
    start: usize,
    end: usize,
    images: &mut Vec<Option<PastedImage>>,
    pasted: &mut Vec<Option<PastedText>>,
    k: int,
)
    requires
        call_ensures(clear_placeholder_payload, (input, start, end, images, pasted), ()),
        start <= end <= input@.len(),
    ensures
        ({
            let token = input@.subrange(start as int, end as int);
            &&& final(images)@.len() == old(images)@.len()
            &&& final(pasted)@.len() == old(pasted)@.len()
            &&& 0 <= k < old(images)@.len() && image_index(token) == Some((k + 1) as usize)
                ==> final(images)@[k] is None
            &&& 0 <= k < old(images)@.len() && image_index(token) != Some((k + 1) as usize)
                ==> final(images)@[k] == old(images)@[k]
            &&& 0 <= k < old(pasted)@.len() && pasted_index(token) == Some((k + 1) as usize)
                ==> final(pasted)@[k] is None
            &&& 0 <= k < old(pasted)@.len() && pasted_index(token) != Some((k + 1) as usize)
                ==> final(pasted)@[k] == old(pasted)@[k]
        }),
{
    assert(old(images).len() == old(images)@.len());
    assert(old(pasted).len() == old(pasted)@.len());
}

/// A lookup by the cursor finds the placeholder on the side that it asks for.
pub proof fn law_lookups_by_cursor(
    input: &str,
    cursor: usize,
    at: Option<(usize, usize)>,
    before: Option<(usize, usize)>,
    after: Option<(usize, usize)>,
    left: Option<(usize, usize)>,
    right: Option<(usize, usize)>,
)
    requires
        call_ensures(placeholder_at_cursor, (input, cursor), at),
        call_ensures(placeholder_before_cursor, (input, cursor), before),
        call_ensures(placeholder_after_cursor, (input, cursor), after),
        call_ensures(placeholder_before_or_at_cursor, (input, cursor), left),
        call_ensures(placeholder_after_or_at_cursor, (input, cursor), right),
    ensures
        at matches Some((start, end)) ==> start < cursor < end,
        before matches Some((start, end)) ==> end == cursor,
        after matches Some((start, end)) ==> start == cursor,
        left matches Some((start, end)) ==> start < cursor <= end,
        right matches Some((start, end)) ==> start <= cursor < end,
        cursor == 0 ==> at is None && before is None && left is None,
        cursor >= input@.len() ==> at is None && after is None && right is None,
{
    law_placeholders_are_disjoint(input@);
    if let Some((start, end)) = at {
        let k = choose|k: int|
            0 <= k < spans(input@).len() && spans(input@)[k] == (start as int, end as int);
        assert(spans(input@)[k].1 <= input@.len());
    }
    if let Some((start, end)) = before {
        let k = choose|k: int|
            0 <= k < spans(input@).len() && spans(input@)[k] == (start as int, end as int);
        assert(spans(input@)[k].0 < spans(input@)[k].1);
    }
    if let Some((start, end)) = after {
        let k = choose|k: int|
            0 <= k < spans(input@).len() && spans(input@)[k] == (start as int, end as int);
        assert(spans(input@)[k].0 < spans(input@)[k].1 <= input@.len());
    }
    if let Some((start, end)) = right {
        let k = choose|k: int|
            0 <= k < spans(input@).len() && spans(input@)[k] == (start as int, end as int);
        assert(spans(input@)[k].1 <= input@.len());
    }
}

/// Colouring puts the colour around each placeholder and keeps everything else;
/// text without one is left as it is.
pub proof fn law_colouring_keeps_plain_text(line: &str, r: String)
    requires
        call_ensures(colorize_repl_placeholders, (line,), r),
    ensures
        line@.len() > 0 && head_len(line@) == line@.len() ==> r@ == "\x1b[35m"@ + line@
            + "\x1b[0m"@,
        !line@.contains('[') ==> r@ == line@,
{
    if line@.len() > 0 && head_len(line@) == line@.len() {
        reveal_with_fuel(rewritten, 3);
        assert(line@.take(line@.len() as int) =~= line@);
        assert(line@.skip(line@.len() as int) =~= Seq::<char>::empty());
        assert(tinted(line@) + Seq::<char>::empty() =~= tinted(line@));
    }
    if !line@.contains('[') {
        lemma_rewrites_nothing(line@, tint());
    }
}

proof fn lemma_rewrites_nothing(s: Seq<char>, f: spec_fn(Seq<char>) -> Seq<char>)
    requires
        !s.contains('['),
    ensures
        rewritten(s, f) == s,
    decreases s.len(),
{
    if s.len() > 0 {
        reveal_strlit("[Image ");
        reveal_strlit("[Pasted ");
        reveal_strlit("[粘贴 ");
        assert(s.contains(s[0]));
        if begins_with(s, "[Image "@) {
            assert(s.take(7)[0] == s[0]);
        }
        if begins_with(s, "[Pasted "@) {
            assert(s.take(8)[0] == s[0]);
        }
        if begins_with(s, "[粘贴 "@) {
            assert(s.take(4)[0] == s[0]);
        }
        assert(opening_len(s) == 0);
        let rest = s.drop_first();
        assert forall|c: char| rest.contains(c) implies s.contains(c) by {
            let k = choose|k: int| 0 <= k < rest.len() && rest[k] == c;
            assert(s[k + 1] == c);
        }
        lemma_rewrites_nothing(rest, f);
        assert(seq![s[0]] + rest =~= s);
    } else {
        assert(rewritten(s, f) =~= s);
    }
}

} // verus!
