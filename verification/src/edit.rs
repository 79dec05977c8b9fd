//! Editing a line of input at a cursor that counts characters.
use crate::lang::Lang;
use crate::paste::{
    is_long_paste, law_expansion_restores_paste, law_plain_text_expands_to_itself,
    lemma_nothing_across, lemma_nothing_pasted, line_count, pasted_text_line_count,
    pasted_text_placeholder, pasted_token, should_summarize_pasted_text,
};
use crate::placeholder::{expanded, pasted_views, PastedText};
use crate::sanitize::{strip_terminal_control_sequences, stripped};
use crate::text::{from_chars, is_white_space, to_chars, trim_right};
use vstd::prelude::*;
use vstd::string::*;
use vstd::utf8::encode_utf8;

verus! {

/// A character index, clamped to the end of the text.
pub open spec fn clamped(s: Seq<char>, at: int) -> int {
    if at < s.len() {
        at
    } else {
        s.len() as int
    }
}

/// `s` with `text` put in at index `at`, or at the end if `at` lies behind it.
pub open spec fn inserted(s: Seq<char>, at: int, text: Seq<char>) -> Seq<char> {
    s.take(clamped(s, at)) + text + s.skip(clamped(s, at))
}

/// `s` without its characters from index `from` up to index `to`.
pub open spec fn without_range(s: Seq<char>, from: int, to: int) -> Seq<char> {
    s.take(clamped(s, from)) + s.skip(clamped(s, to))
}

/// The byte position of the character with index `char_index`; the length in
/// bytes for an index behind the end.
pub fn byte_index_for_char(value: &str, char_index: usize) -> (r: usize)
    ensures
        r == encode_utf8(value@.take(clamped(value@, char_index as int))).len(),
{
    let n = value.unicode_len();
    let at: usize = if char_index < n {
        char_index
    } else {
        n
    };
    let head = value.substring_char(0, at);
    assert(value@.subrange(0, at as int) =~= value@.take(at as int));
    head.as_bytes().len()
}

pub fn take_chars(value: &str, count: usize) -> (r: String)
    ensures
        r@ == value@.take(clamped(value@, count as int)),
{
    let n = value.unicode_len();
    let at: usize = if count < n {
        count
    } else {
        n
    };
    let head = value.substring_char(0, at);
    assert(value@.subrange(0, at as int) =~= value@.take(at as int));
    head.to_owned()
}

pub fn insert_str_at_cursor(value: &mut String, cursor: &mut usize, text: &str)
    requires
        *old(cursor) + text@.len() <= usize::MAX,
    ensures
        final(value)@ == inserted(old(value)@, *old(cursor) as int, text@),
        *final(cursor) == *old(cursor) + text@.len(),
{
    let v = to_chars(value.as_str());
    let n: usize = v.len();
    let at: usize = if *cursor < n {
        *cursor
    } else {
        n
    };
    let mut out = from_chars(&v, 0, at);
    let tail = from_chars(&v, at, n);
    assert(out@ =~= v@.take(at as int));
    assert(tail@ =~= v@.skip(at as int));
    out.append(text);
    out.append(tail.as_str());
    *value = out;
    *cursor = *cursor + text.unicode_len();
}

pub fn insert_char_at_cursor(value: &mut String, cursor: &mut usize, ch: char)
    requires
        *old(cursor) < usize::MAX,
    ensures
        final(value)@ == inserted(old(value)@, *old(cursor) as int, seq![ch]),
        *final(cursor) == *old(cursor) + 1,
{
    let mut one: String = String::new();
    one.push(ch);
    assert(one@ =~= seq![ch]);
    insert_str_at_cursor(value, cursor, one.as_str());
}

pub fn insert_newline_at_cursor(value: &mut String, cursor: &mut usize)
    requires
        *old(cursor) < usize::MAX,
    ensures
        final(value)@ == inserted(old(value)@, *old(cursor) as int, seq!['\n']),
        *final(cursor) == *old(cursor) + 1,
{
    insert_char_at_cursor(value, cursor, '\n');
}

pub fn remove_range_chars(value: &mut String, char_start: usize, char_end: usize)
    requires
        clamped(old(value)@, char_start as int) <= clamped(old(value)@, char_end as int),
    ensures
        final(value)@ == without_range(old(value)@, char_start as int, char_end as int),
{
    let v = to_chars(value.as_str());
    let n: usize = v.len();
    let from: usize = if char_start < n {
        char_start
    } else {
        n
    };
    let to: usize = if char_end < n {
        char_end
    } else {
        n
    };
    let mut out = from_chars(&v, 0, from);
    let tail = from_chars(&v, to, n);
    assert(out@ =~= v@.take(from as int));
    assert(tail@ =~= v@.skip(to as int));
    out.append(tail.as_str());
    *value = out;
}

pub fn remove_char_before_cursor(value: &mut String, cursor: &mut usize)
    requires
        *old(cursor) > 0,
    ensures
        final(value)@ == without_range(old(value)@, *old(cursor) - 1, *old(cursor) as int),
        *final(cursor) == *old(cursor) - 1,
{
    remove_range_chars(value, *cursor - 1, *cursor);
    *cursor = *cursor - 1;
}

pub fn remove_char_at_cursor(value: &mut String, cursor: usize)
    ensures
        final(value)@ == without_range(old(value)@, cursor as int, cursor + 1),
{
    let n = value.as_str().unicode_len();
    if cursor >= n {
        assert(value@.take(n as int) + value@.skip(n as int) =~= value@);
        return;
    }
    remove_range_chars(value, cursor, cursor + 1);
}

/// `s` without the run of other characters than white space at its end.
pub open spec fn without_last_run(s: Seq<char>) -> Seq<char>
    decreases s.len(),
{
    if s.len() > 0 && !is_white_space(s.last()) {
        without_last_run(s.drop_last())
    } else {
        s
    }
}

/// Where the word before the cursor starts: white space at the cursor counts to
/// the word before it.
pub open spec fn word_start(s: Seq<char>, cursor: int) -> int {
    without_last_run(trim_right(s.take(clamped(s, cursor)))).len() as int
}

pub fn remove_word_before_cursor(value: &mut String, cursor: &mut usize)
    ensures
        *final(cursor) == word_start(old(value)@, *old(cursor) as int),
        *final(cursor) <= *old(cursor),
        final(value)@ == without_range(
            old(value)@,
            *final(cursor) as int,
            *old(cursor) as int,
        ),
{
    let v = to_chars(value.as_str());
    let n: usize = v.len();
    let from: usize = if *cursor < n {
        *cursor
    } else {
        n
    };
    let mut start: usize = from;
    let ghost head = v@.take(from as int);
    while start > 0 && v[start - 1].is_whitespace()
        invariant
            start <= from <= v@.len(),
            head == v@.take(from as int),
            trim_right(v@.take(start as int)) == trim_right(head),
        decreases start,
    {
        assert(v@.take(start as int).drop_last() =~= v@.take(start - 1));
        start = start - 1;
    }
    let ghost trimmed = v@.take(start as int);
    while start > 0 && !v[start - 1].is_whitespace()
        invariant
            start <= from <= v@.len(),
            without_last_run(v@.take(start as int)) == without_last_run(trimmed),
        decreases start,
    {
        assert(v@.take(start as int).drop_last() =~= v@.take(start - 1));
        start = start - 1;
    }
    let end: usize = *cursor;
    remove_range_chars(value, start, end);
    *cursor = start;
}

/// The number that the next paste gets.
pub open spec fn next_paste_index(pasted: Seq<Option<PastedText>>) -> nat {
    pasted.len() + 1
}

/// What a paste puts into the line: itself, freed of control sequences, or its
/// placeholder where it is long.
pub open spec fn paste_insertion(lang: Lang, text: Seq<char>, index: nat) -> Seq<char> {
    if is_long_paste(stripped(text)) {
        pasted_token(lang, index, line_count(stripped(text)))
    } else {
        stripped(text)
    }
}

pub fn insert_pasted_text_at_cursor(
    lang: Lang,
    input: &mut String,
    cursor: &mut usize,
    text: String,
    pasted_texts: &mut Vec<Option<PastedText>>,
)
    requires
        old(pasted_texts)@.len() < usize::MAX,
        *old(cursor) + paste_insertion(
            lang,
            text@,
            next_paste_index(old(pasted_texts)@),
        ).len() <= usize::MAX,
    ensures
        ({
            let put = paste_insertion(lang, text@, next_paste_index(old(pasted_texts)@));
            &&& final(input)@ == inserted(old(input)@, *old(cursor) as int, put)
            &&& *final(cursor) == *old(cursor) + put.len()
        }),
        if is_long_paste(stripped(text@)) {
            &&& final(pasted_texts)@.len() == old(pasted_texts)@.len() + 1
            &&& final(pasted_texts)@.drop_last() == old(pasted_texts)@
            &&& (final(pasted_texts)@.last() matches Some(p) && p.text@ == stripped(text@))
        } else {
            final(pasted_texts)@ == old(pasted_texts)@
        },
        !old(input)@.contains('[') && old(pasted_texts)@.len() == 0 ==> expanded(
            final(input)@,
            pasted_views(final(pasted_texts)@),
        ) == inserted(old(input)@, *old(cursor) as int, stripped(text@)),
{
    proof {
        if !input@.contains('[') {
            law_paste_comes_back(lang, input@, clamped(input@, *cursor as int), text@);
        }
    }
    let clean = strip_terminal_control_sequences(text.as_str());
    if should_summarize_pasted_text(clean.as_str()) {
        let index: usize = pasted_texts.len() + 1;
        let lines = pasted_text_line_count(clean.as_str());
        let token = pasted_text_placeholder(lang, index, lines);
        insert_str_at_cursor(input, cursor, token.as_str());
        pasted_texts.push(Some(PastedText { text: clean }));
        assert(pasted_texts@.drop_last() =~= old(pasted_texts)@);
        proof {
            if old(pasted_texts)@.len() == 0 {
                assert(pasted_views(pasted_texts@) =~= seq![Some(stripped(text@))]);
            }
        }
    } else {
        insert_str_at_cursor(input, cursor, clean.as_str());
        proof {
            if old(pasted_texts)@.len() == 0 {
                assert(pasted_views(pasted_texts@) =~= Seq::empty());
            }
        }
    }
}

/// A paste into a line without brackets comes back where it was put: expanding the
/// line gives the line as it was with the pasted text at the cursor, whether the
/// paste was folded or not. The line grows by what the cursor moves.
pub proof fn law_paste_comes_back(lang: Lang, input: Seq<char>, cursor: int, text: Seq<char>)
    requires
        !input.contains('['),
        0 <= cursor <= input.len(),
    ensures
        ({
            let put = paste_insertion(lang, text, 1);
            let kept = if is_long_paste(stripped(text)) {
                seq![Some(stripped(text))]
            } else {
                Seq::empty()
            };
            &&& expanded(inserted(input, cursor, put), kept) == inserted(
                input,
                cursor,
                stripped(text),
            )
            &&& inserted(input, cursor, put).len() - input.len() == put.len()
        }),
{
    let put = paste_insertion(lang, text, 1);
    let pre = input.take(cursor);
    let post = input.skip(cursor);
    if is_long_paste(stripped(text)) {
        let kept = seq![Some(stripped(text))];
        assert(!pre.contains('[')) by {
            if pre.contains('[') {
                let i = choose|i: int| 0 <= i < pre.len() && pre[i] == '[';
                assert(input[i] == '[');
            }
        }
        assert(!post.contains('[')) by {
            if post.contains('[') {
                let i = choose|i: int| 0 <= i < post.len() && post[i] == '[';
                assert(input[cursor + i] == '[');
            }
        }
        assert(inserted(input, cursor, put) =~= pre + (put + post));
        lemma_nothing_across(pre, put + post, 0);
        law_expansion_restores_paste(
            lang,
            pre,
            post,
            1,
            line_count(stripped(text)),
            kept,
        );
        law_plain_text_expands_to_itself(pre, kept);
        law_plain_text_expands_to_itself(post, kept);
        assert(pre + stripped(text) + post =~= inserted(input, cursor, stripped(text)));
    } else {
        lemma_nothing_pasted(inserted(input, cursor, put));
    }
}

/// Backspace undoes typing: inserting a character and removing the character
/// before the cursor gives the text back.
pub proof fn law_backspace_undoes_insert(s: Seq<char>, cursor: int, ch: char)
    requires
        0 <= cursor <= s.len(),
    ensures
        without_range(inserted(s, cursor, seq![ch]), cursor, cursor + 1) == s,
{
    let t = inserted(s, cursor, seq![ch]);
    assert(t.take(cursor) =~= s.take(cursor));
    assert(t.skip(cursor + 1) =~= s.skip(cursor));
    assert(s.take(cursor) + s.skip(cursor) =~= s);
}

/// Removing what was inserted gives the text back, whatever it was.
pub proof fn law_remove_undoes_insert(s: Seq<char>, cursor: int, text: Seq<char>)
    requires
        0 <= cursor <= s.len(),
    ensures
        without_range(inserted(s, cursor, text), cursor, cursor + text.len()) == s,
{
    let t = inserted(s, cursor, text);
    assert(t.take(cursor) =~= s.take(cursor));
    assert(t.skip(cursor + text.len()) =~= s.skip(cursor));
    assert(s.take(cursor) + s.skip(cursor) =~= s);
}

/// Where the word before the cursor starts is never behind the cursor.
pub proof fn lemma_word_start(s: Seq<char>, cursor: int)
    requires
        0 <= cursor,
    ensures
        0 <= word_start(s, cursor) <= clamped(s, cursor),
{
    lemma_trim_right_shorter(s.take(clamped(s, cursor)));
    lemma_without_last_run_shorter(trim_right(s.take(clamped(s, cursor))));
}

proof fn lemma_trim_right_shorter(s: Seq<char>)
    ensures
        trim_right(s).len() <= s.len(),
    decreases s.len(),
{
    if s.len() > 0 && is_white_space(s.last()) {
        lemma_trim_right_shorter(s.drop_last());
    }
}

proof fn lemma_without_last_run_shorter(s: Seq<char>)
    ensures
        without_last_run(s).len() <= s.len(),
    decreases s.len(),
{
    if s.len() > 0 && !is_white_space(s.last()) {
        lemma_without_last_run_shorter(s.drop_last());
    }
}

/// Text goes in at the cursor, which moves behind it; what stood before and behind
/// the cursor stays in its order.
pub proof fn law_text_goes_in_at_the_cursor(value: &mut String, cursor: &mut usize, text: &str)
    requires
        call_ensures(insert_str_at_cursor, (value, cursor, text), ()),
        *old(cursor) <= old(value)@.len(),
    ensures
        ({
            let at = *old(cursor) as int;
            let n = text@.len() as int;
            &&& final(value)@.len() == old(value)@.len() + n
            &&& final(value)@.take(at) == old(value)@.take(at)
            &&& final(value)@.subrange(at, at + n) == text@
            &&& final(value)@.skip(at + n) == old(value)@.skip(at)
            &&& *final(cursor) == at + n
        }),
{
    let at = *old(cursor) as int;
    let n = text@.len() as int;
    assert(final(value)@.take(at) =~= old(value)@.take(at));
    assert(final(value)@.subrange(at, at + n) =~= text@);
    assert(final(value)@.skip(at + n) =~= old(value)@.skip(at));
}

/// A character and a line feed go in like text.
pub proof fn law_characters_go_in_at_the_cursor(
    value: &mut String,
    cursor: &mut usize,
    ch: char,
    other: &mut String,
    place: &mut usize,
)
    requires
        call_ensures(insert_char_at_cursor, (value, cursor, ch), ()),
        call_ensures(insert_newline_at_cursor, (other, place), ()),
        *old(cursor) <= old(value)@.len(),
        *old(place) <= old(other)@.len(),
    ensures
        final(value)@ == old(value)@.insert(*old(cursor) as int, ch),
        *final(cursor) == *old(cursor) + 1,
        final(other)@ == old(other)@.insert(*old(place) as int, '\n'),
        *final(place) == *old(place) + 1,
{
    assert(final(value)@ =~= old(value)@.insert(*old(cursor) as int, ch));
    assert(final(other)@ =~= old(other)@.insert(*old(place) as int, '\n'));
}

/// Backspace takes the character before the cursor, Delete the one behind it, and
/// neither any other.
pub proof fn law_one_character_goes(
    value: &mut String,
    cursor: &mut usize,
    other: &mut String,
    place: usize,
)
    requires
        call_ensures(remove_char_before_cursor, (value, cursor), ()),
        call_ensures(remove_char_at_cursor, (other, place), ()),
        0 < *old(cursor) <= old(value)@.len(),
    ensures
        final(value)@ == old(value)@.remove(*old(cursor) - 1),
        *final(cursor) == *old(cursor) - 1,
        place < old(other)@.len() ==> final(other)@ == old(other)@.remove(place as int),
        place >= old(other)@.len() ==> final(other)@ == old(other)@,
{
    assert(final(value)@ =~= old(value)@.remove(*old(cursor) - 1));
    if place < old(other)@.len() {
        assert(final(other)@ =~= old(other)@.remove(place as int));
    } else {
        assert(final(other)@ =~= old(other)@);
    }
}

/// A range goes and the rest closes up.
pub proof fn law_a_range_goes(value: &mut String, from: usize, to: usize)
    requires
        call_ensures(remove_range_chars, (value, from, to), ()),
        from <= to <= old(value)@.len(),
    ensures
        final(value)@.len() == old(value)@.len() - (to - from),
        final(value)@.take(from as int) == old(value)@.take(from as int),
        final(value)@.skip(from as int) == old(value)@.skip(to as int),
{
    assert(final(value)@.take(from as int) =~= old(value)@.take(from as int));
    assert(final(value)@.skip(from as int) =~= old(value)@.skip(to as int));
}

/// Deleting a word takes the white space before the cursor and the word before
/// that, up to white space or the start; the rest stays.
pub proof fn law_one_word_goes(value: &mut String, cursor: &mut usize)
    requires
        call_ensures(remove_word_before_cursor, (value, cursor), ()),
        *old(cursor) <= old(value)@.len(),
    ensures
        ({
            let from = *final(cursor) as int;
            let to = *old(cursor) as int;
            &&& from <= to
            &&& final(value)@ == old(value)@.take(from) + old(value)@.skip(to)
            &&& from > 0 ==> is_white_space(old(value)@[from - 1])
            &&& exists|k: int|
                {
                    &&& from <= k <= to
                    &&& #[trigger] old(value)@.subrange(from, k).len() == k - from
                    &&& forall|i: int|
                        from <= i < k ==> !is_white_space(#[trigger] old(value)@[i])
                    &&& forall|i: int| k <= i < to ==> is_white_space(#[trigger] old(value)@[i])
                }
            &&& to > 0 ==> from < to
        }),
{
    let s = old(value)@.take(*old(cursor) as int);
    let trimmed_end = trim_right(s);
    crate::text::lemma_trim_right(s);
    lemma_last_run(trimmed_end);
    let from = *final(cursor) as int;
    let to = *old(cursor) as int;
    let k = trimmed_end.len() as int;
    assert(old(value)@.subrange(from, k).len() == k - from);
    assert forall|i: int| from <= i < k implies !is_white_space(#[trigger] old(value)@[i]) by {
        assert(trimmed_end[i] == s[i]);
    }
    assert forall|i: int| k <= i < to implies is_white_space(#[trigger] old(value)@[i]) by {
        assert(s[i] == old(value)@[i]);
    }
    if from > 0 {
        assert(trimmed_end[from - 1] == s[from - 1]);
    }
}

proof fn lemma_last_run(s: Seq<char>)
    ensures
        without_last_run(s).len() <= s.len(),
        forall|i: int|
            without_last_run(s).len() <= i < s.len() ==> !is_white_space(#[trigger] s[i]),
        without_last_run(s).len() > 0 ==> is_white_space(s[without_last_run(s).len() - 1]),
        s.len() > 0 && !is_white_space(s.last()) ==> without_last_run(s).len() < s.len(),
    decreases s.len(),
{
    if s.len() > 0 && !is_white_space(s.last()) {
        let rest = s.drop_last();
        lemma_last_run(rest);
        assert forall|i: int| without_last_run(s).len() <= i < s.len() implies !is_white_space(
            #[trigger] s[i],
        ) by {
            if i < rest.len() {
                assert(rest[i] == s[i]);
            }
        }
    }
}

/// The first characters of a text, and the byte that they end before.
pub proof fn law_first_characters(value: &str, count: usize, r: String, byte: usize)
    requires
        call_ensures(take_chars, (value, count), r),
        call_ensures(byte_index_for_char, (value, count), byte),
    ensures
        count <= value@.len() ==> r@ == value@.take(count as int),
        count >= value@.len() ==> r@ == value@,
        byte == encode_utf8(r@).len(),
{
    assert(value@.take(value@.len() as int) =~= value@);
}

} // verus!
