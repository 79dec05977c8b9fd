//! Display widths: how many terminal cells a text takes, and cutting, wrapping
//! and padding by cells.
use crate::text::{begins_with, from_chars, repeat_char, run_of, spaces, texts, to_chars};
use vstd::prelude::*;
use vstd::string::*;
use vstd::utf8::{encode_scalar, encode_utf8};

verus! {

/// The cells of one character on its own: none for ESC, two from U+2E80 on.
pub open spec fn cell_width(c: char) -> nat {
    if c == '\x1b' {
        0
    } else if c as u32 >= 0x2e80 {
        2
    } else {
        1
    }
}

/// The cells of the characters of `s`, escape sequences counted like text.
pub open spec fn cells(s: Seq<char>) -> nat
    decreases s.len(),
{
    if s.len() == 0 {
        0
    } else {
        cells(s.drop_last()) + cell_width(s.last())
    }
}

/// Whether an escape sequence is still open at the end of `s`: one opens at ESC
/// and closes behind the next `m`.
pub open spec fn in_escape(s: Seq<char>) -> bool
    decreases s.len(),
{
    if s.len() == 0 {
        false
    } else if in_escape(s.drop_last()) {
        s.last() != 'm'
    } else {
        s.last() == '\x1b'
    }
}

/// The cells that `s` takes on the screen: escape sequences take none.
pub open spec fn width_of(s: Seq<char>) -> nat
    decreases s.len(),
{
    if s.len() == 0 {
        0
    } else {
        width_of(s.drop_last()) + if in_escape(s.drop_last()) {
            0
        } else {
            cell_width(s.last())
        }
    }
}

pub proof fn lemma_cells_add(a: Seq<char>, b: Seq<char>)
    ensures
        cells(a + b) == cells(a) + cells(b),
    decreases b.len(),
{
    if b.len() == 0 {
        assert(a + b =~= a);
    } else {
        assert((a + b).drop_last() =~= a + b.drop_last());
        lemma_cells_add(a, b.drop_last());
    }
}

pub proof fn lemma_cells_prefix(s: Seq<char>, n: int, m: int)
    requires
        0 <= n <= m <= s.len(),
    ensures
        cells(s.take(n)) <= cells(s.take(m)),
{
    assert(s.take(m) =~= s.take(n) + s.subrange(n, m));
    lemma_cells_add(s.take(n), s.subrange(n, m));
}

pub proof fn lemma_cells_take_next(s: Seq<char>, i: int)
    requires
        0 <= i < s.len(),
    ensures
        cells(s.take(i + 1)) == cells(s.take(i)) + cell_width(s[i]),
{
    assert(s.take(i + 1).drop_last() =~= s.take(i));
}

/// A text takes no more cells than bytes.
pub proof fn lemma_cells_within_bytes(s: Seq<char>)
    ensures
        cells(s) <= encode_utf8(s).len(),
    decreases s.len(),
{
    if s.len() > 0 {
        let first = seq![s[0]];
        assert(s =~= first + s.drop_first());
        lemma_cells_add(first, s.drop_first());
        lemma_cells_within_bytes(s.drop_first());
        lemma_cells_one(s[0]);
        assert(cell_width(s[0]) <= encode_scalar(s[0] as u32).len());
    }
}

pub proof fn lemma_width_within_cells(s: Seq<char>)
    ensures
        width_of(s) <= cells(s),
    decreases s.len(),
{
    if s.len() > 0 {
        lemma_width_within_cells(s.drop_last());
    }
}

/// Without ESC, every character shows.
pub proof fn lemma_width_plain(s: Seq<char>)
    requires
        !s.contains('\x1b'),
    ensures
        width_of(s) == cells(s),
        !in_escape(s),
    decreases s.len(),
{
    if s.len() > 0 {
        assert(s[s.len() - 1] == s.last());
        assert(s.drop_last().contains('\x1b') ==> s.contains('\x1b')) by {
            if s.drop_last().contains('\x1b') {
                let i = choose|i: int| 0 <= i < s.len() - 1 && s.drop_last()[i] == '\x1b';
                assert(s[i] == '\x1b');
            }
        }
        lemma_width_plain(s.drop_last());
    }
}

/// Behind a text that leaves no escape sequence open, widths add up.
pub proof fn lemma_width_add(a: Seq<char>, b: Seq<char>)
    requires
        !in_escape(a),
    ensures
        width_of(a + b) == width_of(a) + width_of(b),
        in_escape(a + b) == in_escape(b),
    decreases b.len(),
{
    if b.len() == 0 {
        assert(a + b =~= a);
    } else {
        assert((a + b).drop_last() =~= a + b.drop_last());
        lemma_width_add(a, b.drop_last());
    }
}

/// What is appended to any text adds at most its cells.
pub proof fn lemma_width_append(a: Seq<char>, b: Seq<char>)
    ensures
        width_of(a + b) <= width_of(a) + cells(b),
    decreases b.len(),
{
    if b.len() == 0 {
        assert(a + b =~= a);
    } else {
        assert((a + b).drop_last() =~= a + b.drop_last());
        lemma_width_append(a, b.drop_last());
    }
}

pub proof fn lemma_cells_one(c: char)
    ensures
        cells(seq![c]) == cell_width(c),
{
    assert(seq![c].drop_last() =~= Seq::empty());
    assert(cells(seq![c].drop_last()) == 0);
}

/// A run of narrow characters takes one cell for each.
pub proof fn lemma_cells_run(c: char, n: nat)
    requires
        cell_width(c) == 1,
    ensures
        cells(run_of(c, n)) == n,
    decreases n,
{
    if n > 0 {
        assert(run_of(c, n).drop_last() =~= run_of(c, (n - 1) as nat));
        lemma_cells_run(c, (n - 1) as nat);
    }
}

/// The cells of one character on its own.
pub fn char_cells(c: char) -> (w: usize)
    ensures
        w == cell_width(c),
{
    if c == '\x1b' {
        0
    } else if c as u32 >= 0x2e80 {
        2
    } else {
        1
    }
}

/// The cells of the characters of a text, escape sequences counted like text.
pub fn cell_count(value: &str) -> (n: usize)
    ensures
        n == cells(value@),
{
    let bytes = value.as_bytes();
    let limit: usize = bytes.len();
    let mut n: usize = 0;
    for c in it: value.chars()
        invariant
            it.seq() == value@,
            encode_utf8(value@).len() == limit,
            n == cells(value@.take(it.index() as int)),
    {
        proof {
            let i = it.index() as int;
            lemma_cells_take_next(value@, i);
            lemma_cells_prefix(value@, i + 1, value@.len() as int);
            assert(value@.take(value@.len() as int) =~= value@);
            lemma_cells_within_bytes(value@);
        }
        n = n + char_cells(c);
    }
    assert(value@.take(value@.len() as int) =~= value@);
    n
}

pub fn visible_width(value: &str) -> (width: usize)
    ensures
        width == width_of(value@),
{
    let bytes = value.as_bytes();
    let limit: usize = bytes.len();
    let mut width: usize = 0;
    let mut escape: bool = false;
    for c in it: value.chars()
        invariant
            it.seq() == value@,
            encode_utf8(value@).len() == limit,
            width == width_of(value@.take(it.index() as int)),
            escape == in_escape(value@.take(it.index() as int)),
    {
        proof {
            let i = it.index() as int;
            assert(value@.take(i + 1).drop_last() =~= value@.take(i));
            lemma_width_within_cells(value@.take(i + 1));
            lemma_cells_prefix(value@, i + 1, value@.len() as int);
            assert(value@.take(value@.len() as int) =~= value@);
            lemma_cells_within_bytes(value@);
        }
        if escape {
            if c == 'm' {
                escape = false;
            }
        } else if c == '\x1b' {
            escape = true;
        } else if c as u32 >= 0x2e80 {
            width = width + 2;
        } else {
            width = width + 1;
        }
    }
    assert(value@.take(value@.len() as int) =~= value@);
    width
}

/// The longest prefix of `s` of at most `budget` cells.
pub open spec fn fitting(s: Seq<char>, budget: nat) -> Seq<char>
    decreases s.len(),
{
    if cells(s) <= budget || s.len() == 0 {
        s
    } else {
        fitting(s.drop_last(), budget)
    }
}

pub proof fn lemma_fitting(s: Seq<char>, budget: nat)
    ensures
        cells(fitting(s, budget)) <= budget,
        begins_with(s, fitting(s, budget)),
    decreases s.len(),
{
    if cells(s) <= budget || s.len() == 0 {
        assert(s.take(s.len() as int) =~= s);
    } else {
        lemma_fitting(s.drop_last(), budget);
        let p = fitting(s.drop_last(), budget);
        assert(s.take(p.len() as int) =~= s.drop_last().take(p.len() as int));
    }
}

proof fn lemma_fitting_is(s: Seq<char>, budget: nat, n: int)
    requires
        0 <= n <= s.len(),
        cells(s.take(n)) <= budget,
        n == s.len() || cells(s.take(n + 1)) > budget,
    ensures
        fitting(s, budget) == s.take(n),
    decreases s.len(),
{
    if n == s.len() {
        assert(s.take(n) =~= s);
    } else {
        lemma_cells_prefix(s, n + 1, s.len() as int);
        assert(s.take(s.len() as int) =~= s);
        let r = s.drop_last();
        assert(r.take(n) =~= s.take(n));
        if n < r.len() {
            assert(r.take(n + 1) =~= s.take(n + 1));
        }
        lemma_fitting_is(r, budget, n);
    }
}

/// A text cut to `max_width` cells: as it is where it fits, dots alone where
/// there is room for nothing else, and otherwise as much of its beginning as
/// leaves room for three dots.
pub open spec fn truncated(s: Seq<char>, max_width: nat) -> Seq<char> {
    if width_of(s) <= max_width {
        s
    } else if max_width <= 3 {
        run_of('.', max_width)
    } else {
        fitting(s, (max_width - 3) as nat) + "..."@
    }
}

/// A truncated text never takes more cells than it was given.
pub proof fn lemma_truncated_fits(s: Seq<char>, max_width: nat)
    ensures
        width_of(truncated(s, max_width)) <= max_width,
{
    if width_of(s) <= max_width {
    } else if max_width <= 3 {
        lemma_cells_run('.', max_width);
        lemma_width_within_cells(run_of('.', max_width));
    } else {
        let budget = (max_width - 3) as nat;
        lemma_fitting(s, budget);
        reveal_strlit("...");
        assert("..."@ =~= run_of('.', 3));
        lemma_cells_run('.', 3);
        lemma_width_within_cells(fitting(s, budget));
        lemma_width_append(fitting(s, budget), "..."@);
    }
}

pub fn truncate_visible_width(value: &str, max_width: usize) -> (r: String)
    ensures
        r@ == truncated(value@, max_width as nat),
        width_of(r@) <= max_width,
{
    proof {
        lemma_truncated_fits(value@, max_width as nat);
    }
    if visible_width(value) <= max_width {
        return value.to_owned();
    }
    if max_width <= 3 {
        return repeat_char('.', max_width);
    }
    let budget: usize = max_width - 3;
    let v = to_chars(value);
    let mut width: usize = 0;
    let mut n: usize = 0;
    assert(v@.take(0) =~= Seq::empty());
    while n < v.len()
        invariant
            n <= v@.len(),
            width == cells(v@.take(n as int)),
            width <= budget,
        ensures
            n <= v@.len(),
            cells(v@.take(n as int)) <= budget,
            n == v@.len() || cells(v@.take(n + 1)) > budget,
        decreases v@.len() - n,
    {
        let w = char_cells(v[n]);
        proof {
            lemma_cells_take_next(v@, n as int);
        }
        if w > budget - width {
            break;
        }
        width = width + w;
        n = n + 1;
    }
    proof {
        lemma_fitting_is(v@, budget as nat, n as int);
    }
    let mut r = from_chars(&v, 0, n);
    assert(v@.subrange(0, n as int) =~= v@.take(n as int));
    r.append("...");
    r
}

/// A text cut to `max` characters, the last of them an ellipsis where
/// something was cut off.
pub open spec fn display_cut(s: Seq<char>, max: nat) -> Seq<char> {
    if s.len() <= max {
        s
    } else {
        s.take(if max == 0 {
            0
        } else {
            max - 1
        }) + "…"@
    }
}

pub fn truncate_display(value: &str, max: usize) -> (r: String)
    ensures
        r@ == display_cut(value@, max as nat),
{
    let v = to_chars(value);
    if v.len() <= max {
        value.to_owned()
    } else {
        let keep: usize = if max == 0 {
            0
        } else {
            max - 1
        };
        let mut r = from_chars(&v, 0, keep);
        assert(v@.subrange(0, keep as int) =~= v@.take(keep as int));
        r.append("…");
        r
    }
}

/// A text filled up with spaces to `width` cells.
pub open spec fn padded(s: Seq<char>, width: nat) -> Seq<char> {
    s + run_of(
        ' ',
        if width_of(s) < width {
            (width - width_of(s)) as nat
        } else {
            0
        },
    )
}

pub fn pad_visible_width(value: &str, width: usize) -> (r: String)
    ensures
        r@ == padded(value@, width as nat),
{
    let w = visible_width(value);
    let fill = spaces(width.saturating_sub(w));
    let mut r = value.to_owned();
    r.append(fill.as_str());
    r
}

/// A text cut and then filled up takes exactly the cells it was given.
pub proof fn law_cell_is_exact(s: Seq<char>, width: nat)
    requires
        !s.contains('\x1b'),
    ensures
        width_of(padded(truncated(s, width), width)) == width,
{
    let cut = truncated(s, width);
    lemma_truncated_fits(s, width);
    assert(!cut.contains('\x1b')) by {
        if cut.contains('\x1b') {
            let i = choose|i: int| 0 <= i < cut.len() && cut[i] == '\x1b';
            if width_of(s) <= width {
            } else if width <= 3 {
            } else {
                let p = fitting(s, (width - 3) as nat);
                lemma_fitting(s, (width - 3) as nat);
                reveal_strlit("...");
                if i < p.len() {
                    assert(s.take(p.len() as int)[i] == s[i]);
                    assert(s.contains('\x1b'));
                }
            }
        }
    }
    lemma_width_plain(cut);
    let fill = run_of(' ', (width - width_of(cut)) as nat);
    lemma_width_add(cut, fill);
    lemma_cells_run(' ', fill.len());
    lemma_width_plain(fill);
}

/// `s` broken into rows of at most `max_width` cells, each as long as it can
/// be; a single character wider than that stands alone in its row.
pub open spec fn wrapped(s: Seq<char>, max_width: nat) -> Seq<Seq<char>>
    decreases s.len(),
{
    if s.len() == 0 {
        Seq::empty()
    } else {
        let rows = wrapped(s.drop_last(), max_width);
        let c = s.last();
        if rows.len() == 0 || breaks_before(rows.last(), c, max_width) {
            rows.push(seq![c])
        } else {
            rows.update(rows.len() - 1, rows.last().push(c))
        }
    }
}

/// Whether `c` has to start a new row behind the row `row`.
pub open spec fn breaks_before(row: Seq<char>, c: char, max_width: nat) -> bool {
    cells(row) > 0 && cells(row) + cell_width(c) > max_width
}

pub fn wrap_visible_width(value: &str, max_width: usize) -> (rows: Vec<String>)
    ensures
        texts(rows@) == wrapped(value@, max_width as nat),
{
    let v = to_chars(value);
    let mut rows: Vec<String> = Vec::new();
    let mut current: String = String::new();
    let mut width: usize = 0;
    let mut i: usize = 0;
    assert(texts(rows@) =~= wrapped(v@.take(0), max_width as nat));
    while i < v.len()
        invariant
            i <= v@.len(),
            width == cells(current@),
            width <= max_width || width <= 2,
            i == 0 <==> current@.len() == 0,
            i == 0 ==> rows@.len() == 0,
            i > 0 ==> texts(rows@).push(current@) == wrapped(v@.take(i as int), max_width as nat),
        decreases v@.len() - i,
    {
        let c = v[i];
        let w = char_cells(c);
        assert(v@.take(i + 1).drop_last() =~= v@.take(i as int));
        let ghost before = texts(rows@).push(current@);
        assert(before.last() == current@);
        if width > 0 && (width > max_width || w > max_width - width) {
            proof {
                crate::text::lemma_texts_push(rows@, current);
            }
            rows.push(current);
            current = String::new();
            width = 0;
            current.push(c);
            assert(current@ =~= seq![c]);
            proof {
                lemma_cells_one(c);
            }
            assert(texts(rows@).push(current@) =~= wrapped(v@.take(i + 1), max_width as nat));
        } else {
            let ghost was = current@;
            current.push(c);
            assert(current@.drop_last() =~= was);
            proof {
                let next = wrapped(v@.take(i + 1), max_width as nat);
                if i == 0 {
                    assert(current@ =~= seq![c]);
                    assert(wrapped(v@.take(0), max_width as nat) =~= Seq::empty());
                    assert(next =~= seq![seq![c]]);
                } else {
                    assert(!breaks_before(was, c, max_width as nat));
                    assert(next == before.update(before.len() - 1, was.push(c)));
                }
                assert(texts(rows@).push(current@) =~= next);
            }
        }
        width = width + w;
        i = i + 1;
    }
    assert(v@.take(v@.len() as int) =~= v@);
    if !current.as_str().is_empty() {
        proof {
            crate::text::lemma_texts_push(rows@, current);
        }
        rows.push(current);
    }
    rows
}

/// The concatenation of the rows.
pub open spec fn flat(rows: Seq<Seq<char>>) -> Seq<char>
    decreases rows.len(),
{
    if rows.len() == 0 {
        Seq::empty()
    } else {
        flat(rows.drop_last()) + rows.last()
    }
}

/// Wrapping loses and adds nothing, every row fits unless it starts with a
/// character wider than the row, and no row is empty.
pub proof fn law_wrapping_keeps_text(s: Seq<char>, max_width: nat)
    ensures
        flat(wrapped(s, max_width)) == s,
        forall|i: int|
            0 <= i < wrapped(s, max_width).len() ==> (#[trigger] wrapped(s, max_width)[i]).len() > 0
                && (cells(wrapped(s, max_width)[i]) <= max_width || cells(
                wrapped(s, max_width)[i],
            ) <= 2),
    decreases s.len(),
{
    if s.len() > 0 {
        law_wrapping_keeps_text(s.drop_last(), max_width);
        let rows = wrapped(s.drop_last(), max_width);
        let all = wrapped(s, max_width);
        let c = s.last();
        if rows.len() == 0 || breaks_before(rows.last(), c, max_width) {
            assert(all.drop_last() =~= rows);
            lemma_cells_one(c);
            assert(flat(all) =~= s);
        } else {
            assert(all.drop_last() =~= rows.drop_last());
            assert(all.last() == rows.last().push(c));
            assert(all.last().drop_last() =~= rows.last());
            assert(flat(rows) == flat(rows.drop_last()) + rows.last());
            assert(flat(all) == flat(all.drop_last()) + all.last());
            assert(flat(all) =~= flat(rows).push(c));
            assert(s =~= s.drop_last().push(c));
        }
    } else {
        assert(flat(wrapped(s, max_width)) =~= s);
    }
}

/// The escape character takes no cell, characters from U+2E80 on take two, and
/// all others one.
pub proof fn law_characters_have_their_cells(c: char, w: usize)
    requires
        call_ensures(char_cells, (c,), w),
    ensures
        c == '\x1b' ==> w == 0,
        c != '\x1b' && (c as u32) < 0x2e80 ==> w == 1,
        c as u32 >= 0x2e80 ==> w == 2,
{
}

/// Without escape sequences, one more character adds its cells; an escape sequence
/// adds nothing.
pub proof fn law_escape_sequences_take_no_cells(
    value: &str,
    longer: &str,
    width: usize,
    more: usize,
    c: char,
    code: Seq<char>,
)
    requires
        call_ensures(visible_width, (value,), width),
        call_ensures(visible_width, (longer,), more),
        !value@.contains('\x1b'),
        !code.contains('m'),
    ensures
        value@.len() == 0 ==> width == 0,
        longer@ == value@.push(c) && c != '\x1b' ==> more == width + cell_width(c),
        longer@ == value@ + seq!['\x1b'] + code + seq!['m'] ==> more == width,
{
    lemma_width_plain(value@);
    if longer@ == value@.push(c) {
        assert(longer@.drop_last() =~= value@);
    }
    if longer@ == value@ + seq!['\x1b'] + code + seq!['m'] {
        lemma_escape_open(value@, code);
        assert(longer@.drop_last() =~= value@ + seq!['\x1b'] + code);
    }
}

proof fn lemma_escape_open(a: Seq<char>, code: Seq<char>)
    requires
        !a.contains('\x1b'),
        !code.contains('m'),
    ensures
        in_escape(a + seq!['\x1b'] + code),
        width_of(a + seq!['\x1b'] + code) == width_of(a),
    decreases code.len(),
{
    let s = a + seq!['\x1b'] + code;
    lemma_width_plain(a);
    if code.len() == 0 {
        assert(s.drop_last() =~= a);
    } else {
        assert forall|x: char| code.drop_last().contains(x) implies code.contains(x) by {
            let k = choose|k: int| 0 <= k < code.drop_last().len() && code.drop_last()[k] == x;
            assert(code[k] == x);
        }
        lemma_escape_open(a, code.drop_last());
        assert(s.drop_last() =~= a + seq!['\x1b'] + code.drop_last());
        assert(code[code.len() - 1] != 'm');
    }
}

/// Cutting keeps what fits; else three dots end the text, or dots are all there
/// is, and before them stands as much of the beginning as there is room for.
pub proof fn law_cutting_keeps_the_beginning(value: &str, max_width: usize, r: String)
    requires
        call_ensures(truncate_visible_width, (value, max_width), r),
    ensures
        width_of(value@) <= max_width ==> r@ == value@,
        width_of(value@) > max_width && max_width <= 3 ==> r@.len() == max_width && forall|i: int|
            0 <= i < r@.len() ==> #[trigger] r@[i] == '.',
        width_of(value@) > max_width && max_width > 3 ==> ({
            let n = r@.len() - 3;
            &&& 0 <= n < value@.len()
            &&& r@.take(n) == value@.take(n)
            &&& r@.skip(n) == "..."@
            &&& cells(value@.take(n)) + 3 <= max_width
            &&& cells(value@.take(n + 1)) + 3 > max_width
        }),
{
    reveal_strlit("...");
    if width_of(value@) > max_width && max_width > 3 {
        let budget = (max_width - 3) as nat;
        lemma_fitting(value@, budget);
        lemma_width_within_cells(value@);
        law_fitting_is_the_longest(value@, budget);
        let n = r@.len() - 3;
        assert(r@.take(n) =~= fitting(value@, budget));
        assert(r@.skip(n) =~= "..."@);
    }
}

/// Of the beginnings of a text that fit, the longest is taken.
pub proof fn law_fitting_is_the_longest(s: Seq<char>, budget: nat)
    ensures
        cells(s) <= budget ==> fitting(s, budget) == s,
        cells(s) > budget ==> fitting(s, budget).len() < s.len() && cells(
            s.take(fitting(s, budget).len() as int + 1),
        ) > budget,
    decreases s.len(),
{
    if cells(s) > budget && s.len() > 0 {
        let rest = s.drop_last();
        law_fitting_is_the_longest(rest, budget);
        if cells(rest) <= budget {
            assert(s.take(rest.len() as int + 1) =~= s);
        } else {
            let n = fitting(rest, budget).len() as int + 1;
            assert(rest.take(n) =~= s.take(n));
        }
    }
}

/// A text of more characters than allowed ends in an ellipsis, and has as many as
/// are allowed.
pub proof fn law_cut_names_end_in_an_ellipsis(value: &str, max: usize, r: String)
    requires
        call_ensures(truncate_display, (value, max), r),
    ensures
        value@.len() <= max ==> r@ == value@,
        value@.len() > max && max > 0 ==> r@.len() == max && r@.last() == '…' && r@.take(max - 1)
            == value@.take(max - 1),
        value@.len() > max && max == 0 ==> r@ == "…"@,
{
    reveal_strlit("…");
    if value@.len() > max && max > 0 {
        assert(r@.take(max - 1) =~= value@.take(max - 1));
    }
    if value@.len() > max && max == 0 {
        assert(r@ =~= "…"@);
    }
}

/// Filling up puts spaces behind a text until it is as wide as wanted, and leaves
/// a wider one as it is.
pub proof fn law_filling_up_puts_spaces_behind(value: &str, width: usize, r: String)
    requires
        call_ensures(pad_visible_width, (value, width), r),
    ensures
        begins_with(r@, value@),
        width_of(value@) >= width ==> r@ == value@,
        width_of(value@) < width ==> r@.len() == value@.len() + width - width_of(value@),
        forall|i: int| value@.len() <= i < r@.len() ==> #[trigger] r@[i] == ' ',
{
    assert(r@.take(value@.len() as int) =~= value@);
    if width_of(value@) >= width {
        assert(r@ =~= value@);
    }
}

/// A row is broken off only where the next character has no room in it.
pub proof fn law_rows_are_filled(value: &str, max_width: usize, rows: Vec<String>, i: int)
    requires
        call_ensures(wrap_visible_width, (value, max_width), rows),
        0 <= i,
        i + 1 < rows@.len(),
    ensures
        rows@[i + 1]@.len() > 0,
        cells(rows@[i]@) > 0,
        cells(rows@[i]@) + cell_width(rows@[i + 1]@[0]) > max_width,
{
    lemma_rows_filled(value@, max_width as nat);
    assert(texts(rows@).len() == rows@.len());
    assert(texts(rows@)[i] == rows@[i]@);
    assert(texts(rows@)[i + 1] == rows@[i + 1]@);
    let all = wrapped(value@, max_width as nat);
    assert(all[i + 1].len() > 0);
}

proof fn lemma_rows_filled(s: Seq<char>, max_width: nat)
    ensures
        forall|j: int|
            0 < j < wrapped(s, max_width).len() ==> (#[trigger] wrapped(s, max_width)[j]).len() > 0
                && breaks_before(
                wrapped(s, max_width)[j - 1],
                wrapped(s, max_width)[j][0],
                max_width,
            ),
        forall|j: int|
            0 <= j < wrapped(s, max_width).len() ==> (#[trigger] wrapped(s, max_width)[j]).len()
                > 0,
    decreases s.len(),
{
    if s.len() > 0 {
        let rows = wrapped(s.drop_last(), max_width);
        let all = wrapped(s, max_width);
        let c = s.last();
        lemma_rows_filled(s.drop_last(), max_width);
        if rows.len() == 0 || breaks_before(rows.last(), c, max_width) {
            assert forall|j: int| 0 < j < all.len() implies (#[trigger] all[j]).len() > 0
                && breaks_before(all[j - 1], all[j][0], max_width) by {
                if j < rows.len() {
                    assert(rows[j] == all[j] && rows[j - 1] == all[j - 1]);
                } else {
                    assert(all[j - 1] == rows.last());
                }
            }
        } else {
            assert forall|j: int| 0 < j < all.len() implies (#[trigger] all[j]).len() > 0
                && breaks_before(all[j - 1], all[j][0], max_width) by {
                assert(rows[j - 1] == all[j - 1]);
                assert(rows[j].len() > 0);
                assert(all[j][0] == rows[j][0]);
            }
            assert forall|j: int| 0 <= j < all.len() implies (#[trigger] all[j]).len() > 0 by {
                assert(rows[j].len() > 0);
            }
        }
    }
}

} // verus!
