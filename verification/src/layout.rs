//! The layout of the input box: how a line of input breaks into rows and where
//! on them the cursor stands.
use crate::edit::{clamped, take_chars};
use crate::lang::Lang;
use crate::sanitize::{strip_terminal_control_sequences, stripped};
use crate::text::{decimal, decimal_text, split_at_char, split_char, texts, to_chars};
use crate::width::{
    cell_count, cell_width, cells, char_cells, flat, in_escape, law_wrapping_keeps_text,
    visible_width, width_of, wrap_visible_width, wrapped,
};
use vstd::prelude::*;
use vstd::string::*;

verus! {

/// The input box shows a collapsed paste above this many rows.
pub const REPL_MAX_VISIBLE_INPUT_ROWS: u16 = 12;

pub open spec fn at_least_one(n: int) -> int {
    if n < 1 {
        1
    } else {
        n
    }
}

/// The greater of zero and `n`.
pub open spec fn not_negative(n: int) -> int {
    if n < 0 {
        0
    } else {
        n
    }
}

pub open spec fn capped(n: int, cap: int) -> int {
    if n < cap {
        n
    } else {
        cap
    }
}

/// The columns of the terminal, given what it answered when asked for its size.
pub fn terminal_cols(size: Option<(u16, u16)>) -> (r: usize)
    ensures
        r == match size {
            Some((cols, _)) => at_least_one(cols as int),
            None => 80,
        },
{
    match size {
        Some((cols, _)) => if cols == 0 {
            1
        } else {
            cols as usize
        },
        None => 80,
    }
}

/// The columns that the prompt takes: at least one is left for the text.
pub open spec fn prefix_width(prefix: Seq<char>, cols: int) -> int {
    capped(width_of(prefix) as int, at_least_one(cols) - 1)
}

/// The columns that are left for the text beside the prompt.
pub open spec fn content_width(prefix: Seq<char>, cols: int) -> int {
    at_least_one(at_least_one(cols) - prefix_width(prefix, cols))
}

pub fn repl_prefix_width_for_cols(prefix: &str, cols: usize) -> (r: usize)
    ensures
        r == prefix_width(prefix@, cols as int),
{
    let cols: usize = if cols == 0 {
        1
    } else {
        cols
    };
    let w = visible_width(prefix);
    if w < cols - 1 {
        w
    } else {
        cols - 1
    }
}

pub fn repl_content_width_for_cols(prefix: &str, cols: usize) -> (r: usize)
    ensures
        r == content_width(prefix@, cols as int),
        r >= 1,
{
    let p = repl_prefix_width_for_cols(prefix, cols);
    let cols: usize = if cols == 0 {
        1
    } else {
        cols
    };
    let rest: usize = cols - p;
    if rest == 0 {
        1
    } else {
        rest
    }
}

/// The rows that one line of text is counted as.
pub open spec fn line_rows(prefix: Seq<char>, line: Seq<char>, cols: int) -> int {
    capped(width_of(line) as int / content_width(prefix, cols) + 1, 65535)
}

pub fn repl_line_rows_for_cols(prefix: &str, line: &str, cols: usize) -> (r: u16)
    ensures
        r == line_rows(prefix@, line@, cols as int),
{
    let content = repl_content_width_for_cols(prefix, cols);
    let q: usize = visible_width(line) / content;
    if q >= 65535 {
        65535
    } else {
        (q + 1) as u16
    }
}

/// The rows of the first `n` lines together.
pub open spec fn rows_before(
    prefix: Seq<char>,
    lines: Seq<Seq<char>>,
    n: int,
    cols: int,
) -> int
    decreases n,
{
    if n <= 0 {
        0
    } else {
        rows_before(prefix, lines, n - 1, cols) + line_rows(prefix, lines[n - 1], cols)
    }
}

/// The rows that the lines of a prompt take together; a prompt is never less
/// than one row.
pub open spec fn prompt_rows(prefix: Seq<char>, lines: Seq<Seq<char>>, cols: int) -> int {
    capped(at_least_one(rows_before(prefix, lines, lines.len() as int, cols)), 65535)
}

proof fn lemma_line_rows(prefix: Seq<char>, line: Seq<char>, cols: int)
    ensures
        1 <= line_rows(prefix, line, cols) <= 65535,
{
    let w = width_of(line) as int;
    let c = content_width(prefix, cols);
    assert(w / c >= 0) by (nonlinear_arith)
        requires
            w >= 0,
            c >= 1,
    ;
}

/// The rows of the first `n` lines, counted up to the largest row number.
fn capped_rows(prefix: &str, lines: &[String], n: usize, cols: usize) -> (r: usize)
    requires
        n <= lines@.len(),
    ensures
        r == capped(rows_before(prefix@, texts(lines@), n as int, cols as int), 65535),
        r >= n || r == 65535,
{
    let mut rows: usize = 0;
    let mut i: usize = 0;
    while i < n
        invariant
            i <= n <= lines@.len(),
            rows == capped(rows_before(prefix@, texts(lines@), i as int, cols as int), 65535),
            rows >= i || rows == 65535,
        decreases n - i,
    {
        let k = repl_line_rows_for_cols(prefix, lines[i].as_str(), cols);
        proof {
            lemma_line_rows(prefix@, lines@[i as int]@, cols as int);
            assert(texts(lines@)[i as int] == lines@[i as int]@);
        }
        rows = rows + k as usize;
        if rows > 65535 {
            rows = 65535;
        }
        i = i + 1;
    }
    rows
}

pub fn repl_prompt_rows_for_cols(prefix: &str, lines: &[String], cols: usize) -> (r: u16)
    ensures
        r == prompt_rows(prefix@, texts(lines@), cols as int),
        r >= 1,
{
    assert(texts(lines@).len() == lines@.len());
    let rows = capped_rows(prefix, lines, lines.len(), cols);
    if rows == 0 {
        1
    } else {
        rows as u16
    }
}

pub fn repl_prompt_rows(prefix: &str, lines: &[String], size: Option<(u16, u16)>) -> (r: u16)
    ensures
        r == prompt_rows(
            prefix@,
            texts(lines@),
            match size {
                Some((cols, _)) => at_least_one(cols as int),
                None => 80,
            },
        ),
{
    repl_prompt_rows_for_cols(prefix, lines, terminal_cols(size))
}

/// The lines of the input, freed of control sequences. (Carriage returns go
/// with the control characters, so line feeds alone separate lines.)
pub open spec fn input_lines(s: Seq<char>) -> Seq<Seq<char>> {
    split_at_char(stripped(s), '\n')
}

pub fn repl_input_lines(input: &str) -> (r: Vec<String>)
    ensures
        texts(r@) == input_lines(input@),
        r@.len() > 0,
{
    let clean = strip_terminal_control_sequences(input);
    split_char(clean.as_str(), '\n')
}

/// What stands in the input box for the lines of a paste that are not shown.
pub open spec fn hidden_note(lang: Lang, omitted: nat) -> Seq<char> {
    match lang {
        Lang::Zh => "... 已隐藏 "@ + decimal(omitted) + " 行粘贴内容 ..."@,
        Lang::En => "... "@ + decimal(omitted) + " pasted lines hidden ..."@,
    }
}

/// The lines that the input box shows: a paste that would take more than
/// `max_rows` rows is reduced to its first and last line.
pub open spec fn visible_lines(
    lang: Lang,
    prefix: Seq<char>,
    lines: Seq<Seq<char>>,
    max_rows: int,
    is_pasted: bool,
    cols: int,
) -> Seq<Seq<char>> {
    if prompt_rows(prefix, lines, cols) <= max_rows || lines.len() <= 2 || !is_pasted {
        lines
    } else {
        seq![lines[0], hidden_note(lang, (lines.len() - 2) as nat), lines.last()]
    }
}

pub fn clone_lines(lines: &[String]) -> (r: Vec<String>)
    ensures
        texts(r@) == texts(lines@),
{
    let mut out: Vec<String> = Vec::new();
    let mut i: usize = 0;
    assert(texts(out@) =~= texts(lines@).take(0));
    while i < lines.len()
        invariant
            i <= lines@.len(),
            texts(out@) == texts(lines@).take(i as int),
        decreases lines@.len() - i,
    {
        let line = lines[i].clone();
        proof {
            crate::text::lemma_texts_push(out@, line);
        }
        out.push(line);
        i = i + 1;
        assert(texts(out@) =~= texts(lines@).take(i as int));
    }
    assert(texts(lines@).take(lines@.len() as int) =~= texts(lines@));
    out
}

pub fn repl_visible_input_lines(
    lang: Lang,
    prefix: &str,
    lines: &[String],
    max_rows: u16,
    is_pasted: bool,
    cols: usize,
) -> (r: Vec<String>)
    ensures
        texts(r@) == visible_lines(
            lang,
            prefix@,
            texts(lines@),
            max_rows as int,
            is_pasted,
            cols as int,
        ),
{
    assert(texts(lines@).len() == lines@.len());
    let total = repl_prompt_rows_for_cols(prefix, lines, cols);
    let n: usize = lines.len();
    if total <= max_rows || n <= 2 || !is_pasted {
        return clone_lines(lines);
    }
    let number = decimal_text((n - 2) as u64);
    let mut note = crate::lang::t(lang, "... ", "... 已隐藏 ").to_owned();
    note.append(number.as_str());
    note.append(crate::lang::t(lang, " pasted lines hidden ...", " 行粘贴内容 ..."));
    let first = lines[0].clone();
    let last = lines[n - 1].clone();
    let mut out: Vec<String> = Vec::new();
    out.push(first);
    out.push(note);
    out.push(last);
    assert(texts(out@) =~= seq![
        texts(lines@)[0],
        hidden_note(lang, (n - 2) as nat),
        texts(lines@).last(),
    ]);
    out
}

/// The rows of one line in the input box. A line that exactly fills its last
/// row gets an empty row for the cursor.
pub open spec fn box_rows(line: Seq<char>, width: nat) -> Seq<Seq<char>> {
    let rows = if line.len() == 0 {
        seq![Seq::<char>::empty()]
    } else {
        wrapped(line, width)
    };
    if cells(rows.last()) > 0 && cells(rows.last()) as int % width as int == 0 {
        rows.push(Seq::<char>::empty())
    } else {
        rows
    }
}

/// The rows of the first `n` lines in the input box.
pub open spec fn box_rows_before(lines: Seq<Seq<char>>, n: int, width: nat) -> Seq<Seq<char>>
    decreases n,
{
    if n <= 0 {
        Seq::empty()
    } else {
        box_rows_before(lines, n - 1, width) + box_rows(lines[n - 1], width)
    }
}

/// All rows of the input box; an empty box has one.
pub open spec fn input_rows(lines: Seq<Seq<char>>, width: nat) -> Seq<Seq<char>> {
    if lines.len() == 0 {
        seq![Seq::<char>::empty()]
    } else {
        box_rows_before(lines, lines.len() as int, width)
    }
}

proof fn lemma_wrapped_some(s: Seq<char>, width: nat)
    requires
        s.len() > 0,
    ensures
        wrapped(s, width).len() > 0,
{
}

/// Text of characters that take one cell each.
pub open spec fn is_narrow(s: Seq<char>) -> bool {
    forall|i: int| 0 <= i < s.len() ==> cell_width(#[trigger] s[i]) == 1
}

proof fn lemma_narrow(s: Seq<char>)
    requires
        is_narrow(s),
    ensures
        cells(s) == s.len(),
        width_of(s) == s.len(),
        !in_escape(s),
    decreases s.len(),
{
    if s.len() > 0 {
        assert forall|i: int| 0 <= i < s.drop_last().len() implies cell_width(
            #[trigger] s.drop_last()[i],
        ) == 1 by {
            assert(s.drop_last()[i] == s[i]);
        }
        lemma_narrow(s.drop_last());
        assert(cell_width(s[s.len() - 1]) == 1);
    }
}

/// One more than `n` in rows of `w`: the row goes on, or a new one begins.
proof fn lemma_next_in_row(n: int, w: int)
    requires
        n >= 1,
        w >= 1,
    ensures
        0 <= (n - 1) % w < w,
        (n - 1) % w + 1 == w ==> n / w == (n - 1) / w + 1 && n % w == 0,
        (n - 1) % w + 1 < w ==> n / w == (n - 1) / w && n % w == (n - 1) % w + 1,
{
    let q = (n - 1) / w;
    let r = (n - 1) % w;
    vstd::arithmetic::div_mod::lemma_fundamental_div_mod(n - 1, w);
    vstd::arithmetic::div_mod::lemma_mod_bound(n - 1, w);
    if r + 1 == w {
        assert(n == (q + 1) * w + 0) by (nonlinear_arith)
            requires
                n - 1 == w * q + r,
                r + 1 == w,
        ;
        vstd::arithmetic::div_mod::lemma_fundamental_div_mod_converse(n, w, q + 1, 0);
    } else {
        assert(n == q * w + (r + 1)) by (nonlinear_arith)
            requires
                n - 1 == w * q + r,
        ;
        vstd::arithmetic::div_mod::lemma_fundamental_div_mod_converse(n, w, q, r + 1);
    }
}

/// Narrow text fills every row but the last.
proof fn lemma_narrow_rows(s: Seq<char>, width: nat)
    requires
        is_narrow(s),
        s.len() > 0,
        width >= 1,
    ensures
        wrapped(s, width).len() == (s.len() - 1) / width as int + 1,
        wrapped(s, width).last().len() == (s.len() - 1) % width as int + 1,
        forall|i: int|
            0 <= i < wrapped(s, width).len() ==> is_narrow(#[trigger] wrapped(s, width)[i])
                && wrapped(s, width)[i].len() <= width,
    decreases s.len(),
{
    let head = s.drop_last();
    let c = s.last();
    assert(cell_width(s[s.len() - 1]) == 1);
    if head.len() == 0 {
        assert(wrapped(head, width) =~= Seq::empty());
        assert(wrapped(s, width) =~= seq![seq![c]]);
        vstd::arithmetic::div_mod::lemma_small_mod(0, width);
        vstd::arithmetic::div_mod::lemma_basic_div(0, width as int);
    } else {
        assert forall|i: int| 0 <= i < head.len() implies cell_width(#[trigger] head[i]) == 1 by {
            assert(head[i] == s[i]);
        }
        lemma_narrow_rows(head, width);
        let rows = wrapped(head, width);
        let all = wrapped(s, width);
        lemma_narrow(rows[rows.len() - 1]);
        lemma_next_in_row(head.len() as int, width as int);
        vstd::arithmetic::div_mod::lemma_div_pos_is_pos(head.len() - 1, width as int);
        assert forall|i: int| 0 <= i < all.len() implies is_narrow(#[trigger] all[i])
            && all[i].len() <= width by {
            if i < rows.len() - 1 || (i < rows.len() && all.len() > rows.len()) {
                assert(all[i] == rows[i]);
            } else if all.len() == rows.len() {
                assert(all[i] == rows.last().push(c));
            }
        }
    }
}

proof fn lemma_narrow_box(line: Seq<char>, width: nat)
    requires
        is_narrow(line),
        width >= 1,
    ensures
        box_rows(line, width).len() == line.len() as int / width as int + 1,
        flat(box_rows(line, width)) == line,
        forall|i: int|
            0 <= i < box_rows(line, width).len() ==> width_of(#[trigger] box_rows(line, width)[i])
                <= width,
        line.len() > 0 && line.len() as int % width as int == 0 ==> box_rows(line, width).last()
            == Seq::<char>::empty(),
{
    let rows = if line.len() == 0 {
        seq![Seq::<char>::empty()]
    } else {
        wrapped(line, width)
    };
    let all = box_rows(line, width);
    if line.len() == 0 {
        vstd::arithmetic::div_mod::lemma_basic_div(0, width as int);
        assert(rows.drop_last() =~= Seq::empty());
        assert(flat(rows.drop_last()) =~= Seq::<char>::empty());
        assert(flat(rows) =~= line);
    } else {
        law_wrapping_keeps_text(line, width);
        lemma_narrow_rows(line, width);
        lemma_next_in_row(line.len() as int, width as int);
        vstd::arithmetic::div_mod::lemma_div_pos_is_pos(line.len() - 1, width as int);
        let last = rows.last();
        assert(last == rows[rows.len() - 1]);
        lemma_narrow(last);
        if last.len() == width {
            vstd::arithmetic::div_mod::lemma_mod_self_0(width as int);
            assert(all == rows.push(Seq::<char>::empty()));
            assert(all.drop_last() =~= rows);
            assert(flat(all) =~= flat(rows));
        } else {
            vstd::arithmetic::div_mod::lemma_small_mod(last.len(), width);
            assert(all == rows);
        }
    }
    assert forall|i: int| 0 <= i < all.len() implies width_of(#[trigger] all[i]) <= width by {
        if line.len() > 0 && i < rows.len() {
            assert(all[i] == rows[i]);
            lemma_narrow(rows[i]);
        }
    }
}

proof fn lemma_flat_add(a: Seq<Seq<char>>, b: Seq<Seq<char>>)
    ensures
        flat(a + b) == flat(a) + flat(b),
    decreases b.len(),
{
    if b.len() == 0 {
        assert(a + b =~= a);
        assert(flat(a) + flat(b) =~= flat(a));
    } else {
        assert((a + b).drop_last() =~= a + b.drop_last());
        lemma_flat_add(a, b.drop_last());
        assert(flat(a) + flat(b) =~= (flat(a) + flat(b.drop_last())) + b.last());
    }
}

proof fn lemma_rows_before(prefix: Seq<char>, lines: Seq<Seq<char>>, n: int, m: int, cols: int)
    requires
        0 <= n <= m,
    ensures
        0 <= n <= rows_before(prefix, lines, n, cols) <= rows_before(prefix, lines, m, cols),
    decreases m,
{
    if m > 0 {
        lemma_line_rows(prefix, lines[m - 1], cols);
        if n < m {
            lemma_rows_before(prefix, lines, n, m - 1, cols);
        } else {
            lemma_rows_before(prefix, lines, n - 1, m - 1, cols);
        }
    }
}

proof fn lemma_box_counted(prefix: Seq<char>, lines: Seq<Seq<char>>, n: int, cols: int)
    requires
        0 <= n <= lines.len(),
        forall|i: int| 0 <= i < lines.len() ==> is_narrow(#[trigger] lines[i]),
        rows_before(prefix, lines, lines.len() as int, cols) < 65535,
    ensures
        ({
            let width = content_width(prefix, cols) as nat;
            let rows = box_rows_before(lines, n, width);
            &&& rows.len() == rows_before(prefix, lines, n, cols)
            &&& flat(rows) == flat(lines.take(n))
            &&& forall|i: int| 0 <= i < rows.len() ==> width_of(#[trigger] rows[i]) <= width
        }),
    decreases n,
{
    let width = content_width(prefix, cols) as nat;
    if n > 0 {
        lemma_box_counted(prefix, lines, n - 1, cols);
        let line = lines[n - 1];
        let before = box_rows_before(lines, n - 1, width);
        lemma_narrow_box(line, width);
        lemma_narrow(line);
        lemma_flat_add(before, box_rows(line, width));
        assert(lines.take(n).drop_last() =~= lines.take(n - 1));
        lemma_rows_before(prefix, lines, n - 1, n - 1, cols);
        lemma_rows_before(prefix, lines, n, lines.len() as int, cols);
        assert(line_rows(prefix, line, cols) < 65535);
    } else {
        assert(lines.take(0) =~= Seq::empty());
    }
}

/// The rows of the input box are as many as the prompt is counted to take, for
/// text of narrow characters. They hold the text of the lines and nothing else,
/// fit the box, and a line that fills its last row is followed by an empty row.
pub proof fn law_box_rows_are_counted(prefix: Seq<char>, lines: Seq<Seq<char>>, cols: int)
    requires
        forall|i: int| 0 <= i < lines.len() ==> is_narrow(#[trigger] lines[i]),
        prompt_rows(prefix, lines, cols) < 65535,
    ensures
        ({
            let width = content_width(prefix, cols) as nat;
            let rows = input_rows(lines, width);
            &&& rows.len() == prompt_rows(prefix, lines, cols)
            &&& flat(rows) == flat(lines)
            &&& forall|i: int| 0 <= i < rows.len() ==> width_of(#[trigger] rows[i]) <= width
            &&& forall|i: int|
                0 <= i < lines.len() && (#[trigger] lines[i]).len() > 0 && lines[i].len() as int
                    % width as int == 0 ==> box_rows(lines[i], width).last()
                    == Seq::<char>::empty() && flat(box_rows(lines[i], width)) == lines[i]
        }),
{
    let width = content_width(prefix, cols) as nat;
    let rows = input_rows(lines, width);
    if lines.len() == 0 {
        assert(rows.drop_last() =~= Seq::empty());
        assert(flat(rows.drop_last()) =~= Seq::<char>::empty());
        assert(flat(rows) =~= flat(lines));
    } else {
        lemma_rows_before(prefix, lines, lines.len() as int, lines.len() as int, cols);
        lemma_box_counted(prefix, lines, lines.len() as int, cols);
        assert(lines.take(lines.len() as int) =~= lines);
    }
    assert forall|i: int|
        0 <= i < lines.len() && (#[trigger] lines[i]).len() > 0 && lines[i].len() as int
            % width as int == 0 implies box_rows(lines[i], width).last() == Seq::<char>::empty()
        && flat(box_rows(lines[i], width)) == lines[i] by {
        lemma_narrow_box(lines[i], width);
    }
}

fn box_rows_of(line: &str, width: usize) -> (r: Vec<String>)
    requires
        width >= 1,
    ensures
        texts(r@) == box_rows(line@, width as nat),
        r@.len() > 0,
{
    let mut rows = wrap_visible_width(line, width);
    if line.is_empty() {
        rows = Vec::new();
        rows.push(String::new());
        assert(texts(rows@) =~= seq![Seq::<char>::empty()]);
    } else {
        proof {
            lemma_wrapped_some(line@, width as nat);
        }
    }
    assert(texts(rows@).len() == rows@.len());
    let n: usize = rows.len();
    let last = cell_count(rows[n - 1].as_str());
    assert(texts(rows@).last() == rows@[n - 1]@);
    if last > 0 && last % width == 0 {
        let blank = String::new();
        proof {
            crate::text::lemma_texts_push(rows@, blank);
            assert(blank@ =~= Seq::<char>::empty());
        }
        rows.push(blank);
    }
    rows
}

pub fn repl_wrapped_input_rows_for_cols(prefix: &str, lines: &[String], cols: usize) -> (r: Vec<
    String,
>)
    ensures
        texts(r@) == input_rows(texts(lines@), content_width(prefix@, cols as int) as nat),
        r@.len() > 0,
{
    let width = repl_content_width_for_cols(prefix, cols);
    let mut out: Vec<String> = Vec::new();
    let mut i: usize = 0;
    assert(texts(lines@).len() == lines@.len());
    assert(texts(out@) =~= Seq::empty());
    while i < lines.len()
        invariant
            i <= lines@.len(),
            width >= 1,
            width == content_width(prefix@, cols as int),
            i > 0 ==> out@.len() > 0,
            texts(out@) == box_rows_before(texts(lines@), i as int, width as nat),
        decreases lines@.len() - i,
    {
        let mut rows = box_rows_of(lines[i].as_str(), width);
        let ghost was = out@;
        let ghost new = rows@;
        out.append(&mut rows);
        assert(out@ =~= was + new);
        assert(texts(out@) =~= texts(was) + texts(new));
        assert(texts(lines@)[i as int] == lines@[i as int]@);
        i = i + 1;
    }
    if out.is_empty() {
        out.push(String::new());
        assert(texts(out@) =~= seq![Seq::<char>::empty()]);
    }
    out
}

/// The cells that a character moves the cursor by.
pub open spec fn step_width(c: char) -> int {
    at_least_one(cell_width(c) as int)
}

/// The row and column of the cursor behind one more character.
pub open spec fn step(at: (int, int), c: char, width: int) -> (int, int) {
    let w = step_width(c);
    let (row, col) = if at.1 > 0 && at.1 + w > width {
        (at.0 + 1, 0)
    } else {
        at
    };
    if col + w >= width {
        (row + 1, 0)
    } else {
        (row, col + w)
    }
}

/// The row and column behind the text of one line.
pub open spec fn line_end(s: Seq<char>, width: int) -> (int, int)
    decreases s.len(),
{
    if s.len() == 0 {
        (0, 0)
    } else {
        step(line_end(s.drop_last(), width), s.last(), width)
    }
}

/// The row and column behind a text of several lines.
pub open spec fn text_end(s: Seq<char>, width: int) -> (int, int)
    decreases s.len(),
{
    if s.len() == 0 {
        (0, 0)
    } else {
        let before = text_end(s.drop_last(), width);
        if s.last() == '\n' {
            (before.0 + 1, 0)
        } else {
            step(before, s.last(), width)
        }
    }
}

pub open spec fn reachable(at: (int, int), width: int, n: int) -> bool {
    &&& 0 <= at.0
    &&& 0 <= at.1 < width || at.1 == 0
    &&& at.0 + (if at.1 > 0 {
        1int
    } else {
        0
    }) <= n
}

pub proof fn lemma_line_end(s: Seq<char>, width: int)
    requires
        width >= 1,
    ensures
        reachable(line_end(s, width), width, s.len() as int),
    decreases s.len(),
{
    if s.len() > 0 {
        lemma_line_end(s.drop_last(), width);
    }
}

pub proof fn lemma_text_end(s: Seq<char>, width: int)
    requires
        width >= 1,
    ensures
        reachable(text_end(s, width), width, s.len() as int),
    decreases s.len(),
{
    if s.len() > 0 {
        lemma_text_end(s.drop_last(), width);
    }
}

fn step_cursor(row: usize, col: usize, c: char, width: usize) -> (r: (usize, usize))
    requires
        width >= 1,
        col < width,
        row + 2 <= usize::MAX || (row + 1 <= usize::MAX && col == 0),
    ensures
        (r.0 as int, r.1 as int) == step((row as int, col as int), c, width as int),
{
    let cells = char_cells(c);
    let w: usize = if cells == 0 {
        1
    } else {
        cells
    };
    let mut row: usize = row;
    let mut col: usize = col;
    if col > 0 && w > width - col {
        row = row + 1;
        col = 0;
    }
    if w >= width - col {
        (row + 1, 0)
    } else {
        (row, col + w)
    }
}

/// The cursor on the screen behind the first `cursor` characters of a line.
pub open spec fn cursor_in_line(
    prefix: Seq<char>,
    line: Seq<char>,
    cursor: int,
    cols: int,
) -> (int, int) {
    let end = line_end(line.take(clamped(line, cursor)), content_width(prefix, cols));
    (capped(prefix_width(prefix, cols) + end.1, 65535), capped(end.0, 65535))
}

pub fn repl_cursor_position_for_line_for_cols(
    prefix: &str,
    line: &str,
    cursor: usize,
    cols: usize,
) -> (r: (u16, u16))
    ensures
        (r.0 as int, r.1 as int) == cursor_in_line(prefix@, line@, cursor as int, cols as int),
{
    let p = repl_prefix_width_for_cols(prefix, cols);
    let width = repl_content_width_for_cols(prefix, cols);
    let v = to_chars(line);
    let n: usize = if cursor < v.len() {
        cursor
    } else {
        v.len()
    };
    let mut row: usize = 0;
    let mut col: usize = 0;
    let mut i: usize = 0;
    assert(line@.take(0) =~= Seq::empty());
    while i < n
        invariant
            v@ == line@,
            i <= n <= v@.len(),
            width >= 1,
            (row as int, col as int) == line_end(line@.take(i as int), width as int),
        decreases n - i,
    {
        proof {
            lemma_line_end(line@.take(i as int), width as int);
            assert(line@.take(i + 1).drop_last() =~= line@.take(i as int));
        }
        let (next_row, next_col) = step_cursor(row, col, v[i], width);
        row = next_row;
        col = next_col;
        i = i + 1;
    }
    proof {
        lemma_line_end(line@.take(n as int), width as int);
    }
    let x: usize = p + col;
    (
        if x < 65535 {
            x as u16
        } else {
            65535
        },
        if row < 65535 {
            row as u16
        } else {
            65535
        },
    )
}

/// The cursor on the screen, with the rows of the lines before it above it.
pub open spec fn cursor_on_screen(
    prefix: Seq<char>,
    input: Seq<char>,
    cursor: int,
    cols: int,
) -> (int, int) {
    let lines = input_lines(input.take(clamped(input, cursor)));
    let last = cursor_in_line(prefix, lines.last(), lines.last().len() as int, cols);
    (last.0, capped(rows_before(prefix, lines, lines.len() - 1, cols) + last.1, 65535))
}

pub fn repl_cursor_position_for_cols(
    prefix: &str,
    input: &str,
    cursor: usize,
    cols: usize,
) -> (r: (u16, u16))
    ensures
        (r.0 as int, r.1 as int) == cursor_on_screen(
            prefix@,
            input@,
            cursor as int,
            cols as int,
        ),
{
    let before = take_chars(input, cursor);
    let lines = repl_input_lines(before.as_str());
    let last: usize = lines.len() - 1;
    let rows = capped_rows(prefix, &lines, last, cols);
    let line = lines[last].as_str();
    let (col, row) = repl_cursor_position_for_line_for_cols(
        prefix,
        line,
        line.unicode_len(),
        cols,
    );
    assert(texts(lines@).last() == line@);
    let sum: usize = rows + row as usize;
    (
        col,
        if sum < 65535 {
            sum as u16
        } else {
            65535
        },
    )
}

pub fn repl_cursor_position(
    prefix: &str,
    input: &str,
    cursor: usize,
    size: Option<(u16, u16)>,
) -> (r: (u16, u16))
    ensures
        (r.0 as int, r.1 as int) == cursor_on_screen(
            prefix@,
            input@,
            cursor as int,
            match size {
                Some((cols, _)) => at_least_one(cols as int),
                None => 80,
            },
        ),
{
    repl_cursor_position_for_cols(prefix, input, cursor, terminal_cols(size))
}

/// Every cursor index of the input with the row and column it stands on.
pub fn repl_cursor_layout_positions_for_cols(prefix: &str, input: &str, cols: usize) -> (r: Vec<
    (usize, usize, usize),
>)
    ensures
        r@.len() == input@.len() + 1,
        forall|k: int|
            0 <= k <= input@.len() ==> (#[trigger] r@[k]).0 == k && (
                r@[k].1 as int,
                r@[k].2 as int,
            ) == text_end(input@.take(k), content_width(prefix@, cols as int)),
{
    let width = repl_content_width_for_cols(prefix, cols);
    let v = to_chars(input);
    let mut out: Vec<(usize, usize, usize)> = Vec::new();
    let mut row: usize = 0;
    let mut col: usize = 0;
    let mut i: usize = 0;
    out.push((0, 0, 0));
    assert(input@.take(0) =~= Seq::empty());
    while i < v.len()
        invariant
            v@ == input@,
            i <= v@.len(),
            width >= 1,
            width == content_width(prefix@, cols as int),
            (row as int, col as int) == text_end(input@.take(i as int), width as int),
            out@.len() == i + 1,
            forall|k: int|
                0 <= k <= i ==> (#[trigger] out@[k]).0 == k && (out@[k].1 as int, out@[k].2 as int)
                    == text_end(input@.take(k), width as int),
        decreases v@.len() - i,
    {
        proof {
            lemma_text_end(input@.take(i as int), width as int);
            assert(input@.take(i + 1).drop_last() =~= input@.take(i as int));
        }
        let c = v[i];
        if c == '\n' {
            row = row + 1;
            col = 0;
        } else {
            let (next_row, next_col) = step_cursor(row, col, c, width);
            row = next_row;
            col = next_col;
        }
        i = i + 1;
        out.push((i, row, col));
    }
    out
}

pub open spec fn distance(a: int, b: int) -> int {
    if a < b {
        b - a
    } else {
        a - b
    }
}

/// Whether index `a` is a better target than index `b` when the cursor comes
/// from column `col`: nearer by column, and behind it where both are as near.
pub open spec fn nearer(
    input: Seq<char>,
    width: int,
    col: int,
    a: int,
    b: int,
) -> bool {
    let da = distance(text_end(input.take(a), width).1, col);
    let db = distance(text_end(input.take(b), width).1, col);
    da < db || (da == db && a >= b)
}

/// The row that the cursor moves to.
pub open spec fn target_row(input: Seq<char>, width: int, at: int, up: bool) -> int {
    let row = text_end(input.take(at), width).0;
    let last = text_end(input, width).0;
    if up {
        not_negative(row - 1)
    } else {
        capped(row + 1, last)
    }
}

/// `r` is where the cursor goes from index `at`: on the target row the index
/// nearest by column, or nowhere where the row is the same or no index is on it.
pub open spec fn moved_to(input: Seq<char>, width: int, at: int, up: bool, r: int) -> bool {
    let here = text_end(input.take(at), width);
    let row = target_row(input, width, at, up);
    if row == here.0 || !(exists|k: int|
        0 <= k <= input.len() && (#[trigger] text_end(input.take(k), width)).0 == row) {
        r == at
    } else {
        &&& 0 <= r <= input.len()
        &&& text_end(input.take(r), width).0 == row
        &&& forall|k: int|
            0 <= k <= input.len() && (#[trigger] text_end(input.take(k), width)).0 == row
                ==> nearer(input, width, here.1, r, k)
    }
}

pub fn repl_move_cursor_vertical_for_cols(
    prefix: &str,
    input: &str,
    cursor: usize,
    direction: i32,
    cols: usize,
) -> (r: usize)
    ensures
        moved_to(
            input@,
            content_width(prefix@, cols as int),
            clamped(input@, cursor as int),
            direction < 0,
            r as int,
        ),
        r <= input@.len(),
{
    let positions = repl_cursor_layout_positions_for_cols(prefix, input, cols);
    let ghost width = content_width(prefix@, cols as int);
    let n: usize = positions.len();
    let at: usize = if cursor < n - 1 {
        cursor
    } else {
        n - 1
    };
    let (_, row, col) = positions[at];
    let (_, last_row, _) = positions[n - 1];
    assert(input@.take(input@.len() as int) =~= input@);
    let target: usize = if direction < 0 {
        row.saturating_sub(1)
    } else if row < last_row {
        row + 1
    } else {
        last_row
    };
    assert(target == target_row(input@, width, at as int, direction < 0));
    if target == row {
        return at;
    }
    let mut best: Option<(usize, usize)> = None;
    let mut i: usize = 0;
    while i < n
        invariant
            i <= n,
            n == positions@.len() == input@.len() + 1,
            width == content_width(prefix@, cols as int),
            forall|k: int|
                0 <= k <= input@.len() ==> (#[trigger] positions@[k]).0 == k && (
                    positions@[k].1 as int,
                    positions@[k].2 as int,
                ) == text_end(input@.take(k), width),
            match best {
                None => forall|k: int|
                    0 <= k < i ==> (#[trigger] text_end(input@.take(k), width)).0 != target,
                Some((b, d)) => {
                    &&& b < i
                    &&& text_end(input@.take(b as int), width).0 == target
                    &&& d == distance(text_end(input@.take(b as int), width).1, col as int)
                    &&& forall|k: int|
                        0 <= k < i && (#[trigger] text_end(input@.take(k), width)).0 == target
                            ==> nearer(input@, width, col as int, b as int, k)
                },
            },
        decreases n - i,
    {
        let (_, r, c) = positions[i];
        assert(positions@[i as int].0 == i);
        assert((r as int, c as int) == text_end(input@.take(i as int), width));
        if r == target {
            let d: usize = if c < col {
                col - c
            } else {
                c - col
            };
            match best {
                None => {
                    best = Some((i, d));
                },
                Some((b, e)) => {
                    if d <= e {
                        best = Some((i, d));
                    }
                },
            }
        }
        i = i + 1;
    }
    match best {
        Some((b, _)) => {
            assert(text_end(input@.take(b as int), width).0 == target);
            b
        },
        None => at,
    }
}

/// Where the cursor goes when it moves one row up or down.
pub fn repl_move_cursor_vertical(
    prefix: &str,
    input: &str,
    cursor: usize,
    direction: i32,
    size: Option<(u16, u16)>,
) -> (r: usize)
    ensures
        r <= input@.len(),
        input@.len() == 0 || direction == 0 ==> r == clamped(input@, cursor as int),
        input@.len() > 0 && direction != 0 ==> moved_to(
            input@,
            content_width(
                prefix@,
                match size {
                    Some((cols, _)) => at_least_one(cols as int),
                    None => 80,
                },
            ),
            clamped(input@, cursor as int),
            direction < 0,
            r as int,
        ),
{
    if input.is_empty() || direction == 0 {
        let n = input.unicode_len();
        return if cursor < n {
            cursor
        } else {
            n
        };
    }
    repl_move_cursor_vertical_for_cols(prefix, input, cursor, direction, terminal_cols(size))
}

/// Of some indices up to `n` on the row `row`, one is nearer than all others.
proof fn lemma_nearest(input: Seq<char>, width: int, col: int, row: int, n: int) -> (r: int)
    requires
        0 <= n <= input.len(),
        exists|k: int| 0 <= k <= n && (#[trigger] text_end(input.take(k), width)).0 == row,
    ensures
        0 <= r <= n,
        text_end(input.take(r), width).0 == row,
        forall|k: int|
            0 <= k <= n && (#[trigger] text_end(input.take(k), width)).0 == row ==> nearer(
                input,
                width,
                col,
                r,
                k,
            ),
    decreases n,
{
    if text_end(input.take(n), width).0 == row {
        if n > 0 && exists|k: int|
            0 <= k <= n - 1 && (#[trigger] text_end(input.take(k), width)).0 == row {
            let b = lemma_nearest(input, width, col, row, n - 1);
            if nearer(input, width, col, n, b) {
                n
            } else {
                b
            }
        } else {
            n
        }
    } else {
        lemma_nearest(input, width, col, row, n - 1)
    }
}

/// There is always an index to move to, inside the input.
pub proof fn lemma_vertical_move_exists(input: Seq<char>, width: int, at: int, up: bool)
    requires
        0 <= at <= input.len(),
    ensures
        exists|r: int| moved_to(input, width, at, up, r),
        forall|r: int| #[trigger] moved_to(input, width, at, up, r) ==> 0 <= r <= input.len(),
{
    let here = text_end(input.take(at), width);
    let row = target_row(input, width, at, up);
    if row != here.0 && exists|k: int|
        0 <= k <= input.len() && (#[trigger] text_end(input.take(k), width)).0 == row {
        let r = lemma_nearest(input, width, here.1, row, input.len() as int);
        assert(moved_to(input, width, at, up, r));
    } else {
        assert(moved_to(input, width, at, up, at));
    }
}

/// Where the cursor goes is determined: two indices that both meet the
/// description of the move are the same.
pub proof fn law_vertical_move_is_determined(
    input: Seq<char>,
    width: int,
    at: int,
    up: bool,
    a: int,
    b: int,
)
    requires
        moved_to(input, width, at, up, a),
        moved_to(input, width, at, up, b),
    ensures
        a == b,
{
    let here = text_end(input.take(at), width);
    let row = target_row(input, width, at, up);
    if row != here.0 && exists|k: int|
        0 <= k <= input.len() && (#[trigger] text_end(input.take(k), width)).0 == row {
        assert(nearer(input, width, here.1, a, b));
        assert(nearer(input, width, here.1, b, a));
    }
}

/// The columns are those of the terminal, 80 where it did not answer, and one at
/// least.
pub proof fn law_columns_of_the_terminal(size: Option<(u16, u16)>, r: usize)
    requires
        call_ensures(terminal_cols, (size,), r),
    ensures
        size is None ==> r == 80,
        size matches Some((cols, rows)) ==> cols > 0 ==> r == cols,
        r >= 1,
{
}

/// The prompt and the text share the columns: the prompt has its width as far as
/// one column is left.
pub proof fn law_prompt_and_text_share_the_columns(prefix: &str, cols: usize, p: usize, c: usize)
    requires
        call_ensures(repl_prefix_width_for_cols, (prefix, cols), p),
        call_ensures(repl_content_width_for_cols, (prefix, cols), c),
    ensures
        width_of(prefix@) < cols ==> p == width_of(prefix@),
        cols > 0 && width_of(prefix@) >= cols ==> p == cols - 1,
        cols > 0 ==> p + c == cols,
        c >= 1,
{
}

/// A line takes a row, and one more each time it fills one.
pub proof fn law_lines_take_the_rows_they_fill(prefix: &str, line: &str, cols: usize, r: u16)
    requires
        call_ensures(repl_line_rows_for_cols, (prefix, line, cols), r),
    ensures
        r >= 1,
        ({
            let w = content_width(prefix@, cols as int);
            &&& width_of(line@) < w ==> r == 1
            &&& width_of(line@) == w && w < 65535 ==> r == 2
            &&& r < 65535 ==> (r - 1) * w <= width_of(line@) < r * w
        }),
{
    let w = content_width(prefix@, cols as int);
    let n = width_of(line@) as int;
    vstd::arithmetic::div_mod::lemma_fundamental_div_mod(n, w);
    vstd::arithmetic::mul::lemma_mul_is_commutative(w, n / w);
    vstd::arithmetic::mul::lemma_mul_is_distributive_add_other_way(w, n / w, 1);
    vstd::arithmetic::div_mod::lemma_mod_bound(n, w);
    if n < w {
        vstd::arithmetic::div_mod::lemma_basic_div(n, w);
    }
    if n == w {
        vstd::arithmetic::div_mod::lemma_div_by_self(w);
    }
}

/// Lines take the rows that each of them takes.
pub proof fn law_rows_add_up(prefix: Seq<char>, lines: Seq<Seq<char>>, line: Seq<char>, cols: int)
    ensures
        rows_before(prefix, lines.push(line), lines.len() as int + 1, cols) == rows_before(
            prefix,
            lines,
            lines.len() as int,
            cols,
        ) + line_rows(prefix, line, cols),
        prompt_rows(prefix, Seq::empty(), cols) == 1,
        prompt_rows(prefix, seq![line], cols) == line_rows(prefix, line, cols),
{
    lemma_rows_of_more(prefix, lines, line, lines.len() as int, cols);
    lemma_line_rows(prefix, line, cols);
    reveal_with_fuel(rows_before, 2);
}

proof fn lemma_rows_of_more(prefix: Seq<char>, lines: Seq<Seq<char>>, line: Seq<char>, n: int, cols: int)
    requires
        0 <= n <= lines.len(),
    ensures
        rows_before(prefix, lines.push(line), n, cols) == rows_before(prefix, lines, n, cols),
    decreases n,
{
    if n > 0 {
        lemma_rows_of_more(prefix, lines, line, n - 1, cols);
    }
}

/// A paste that takes too many rows is shown by its first and last line, with a
/// note between them; everything else is shown whole.
pub proof fn law_long_pastes_are_collapsed(
    lang: Lang,
    prefix: &str,
    lines: &[String],
    max_rows: u16,
    pasted: bool,
    cols: usize,
    r: Vec<String>,
)
    requires
        call_ensures(repl_visible_input_lines, (lang, prefix, lines, max_rows, pasted, cols), r),
    ensures
        !pasted || lines@.len() <= 2 || prompt_rows(prefix@, texts(lines@), cols as int) <= max_rows
            ==> texts(r@) == texts(lines@),
        pasted && lines@.len() > 2 && prompt_rows(prefix@, texts(lines@), cols as int) > max_rows
            ==> r@.len() == 3 && r@[0]@ == lines@[0]@ && r@[2]@ == lines@[lines@.len() - 1]@
            && r@[1]@ == hidden_note(lang, (lines@.len() - 2) as nat),
{
    assert(texts(lines@).len() == lines@.len());
    assert(texts(r@).len() == r@.len());
    if pasted && lines@.len() > 2 && prompt_rows(prefix@, texts(lines@), cols as int) > max_rows {
        assert(texts(lines@)[0] == lines@[0]@);
        assert(texts(lines@).last() == lines@[lines@.len() - 1]@);
        assert(texts(r@)[0] == r@[0]@ && texts(r@)[1] == r@[1]@ && texts(r@)[2] == r@[2]@);
    }
}

/// Behind narrow characters the cursor stands as many columns on as there are
/// characters, in rows as wide as the box.
pub proof fn law_cursor_stands_behind_the_text(
    prefix: &str,
    line: &str,
    cursor: usize,
    cols: usize,
    r: (u16, u16),
)
    requires
        call_ensures(repl_cursor_position_for_line_for_cols, (prefix, line, cursor, cols), r),
        cursor <= line@.len(),
        is_narrow(line@),
        cursor + cols < 65535,
    ensures
        ({
            let w = content_width(prefix@, cols as int);
            &&& r.0 == prefix_width(prefix@, cols as int) + cursor as int % w
            &&& r.1 == cursor as int / w
        }),
{
    let w = content_width(prefix@, cols as int);
    let s = line@.take(cursor as int);
    assert forall|i: int| 0 <= i < s.len() implies cell_width(#[trigger] s[i]) == 1 by {
        assert(s[i] == line@[i]);
    }
    lemma_narrow_end(s, w);
    vstd::arithmetic::div_mod::lemma_mod_bound(cursor as int, w);
    vstd::arithmetic::div_mod::lemma_div_is_ordered_by_denominator(cursor as int, 1, w);
    vstd::arithmetic::div_mod::lemma_div_pos_is_pos(cursor as int, w);
}

proof fn lemma_narrow_end(s: Seq<char>, width: int)
    requires
        is_narrow(s),
        width >= 1,
    ensures
        line_end(s, width) == (s.len() as int / width, s.len() as int % width),
    decreases s.len(),
{
    let n = s.len() as int;
    if n == 0 {
        vstd::arithmetic::div_mod::lemma_basic_div(0, width);
        vstd::arithmetic::div_mod::lemma_small_mod(0, width as nat);
    } else {
        let rest = s.drop_last();
        assert forall|i: int| 0 <= i < rest.len() implies cell_width(#[trigger] rest[i]) == 1 by {
            assert(rest[i] == s[i]);
        }
        lemma_narrow_end(rest, width);
        assert(s[n - 1] == s.last());
        assert(step_width(s.last()) == 1);
        lemma_next_in_row(n, width);
    }
}

/// A wide character that has no room goes to the next row whole.
pub proof fn law_wide_characters_are_not_split(at: (int, int), c: char, width: int)
    requires
        cell_width(c) == 2,
        width >= 3,
        0 <= at.1 < width,
    ensures
        at.1 + 2 < width ==> step(at, c, width) == (at.0, at.1 + 2),
        at.1 + 2 == width ==> step(at, c, width) == (at.0 + 1, 0int),
        at.1 + 1 == width ==> step(at, c, width) == (at.0 + 1, 2int),
{
}

/// A line feed starts a new row at its first column.
pub proof fn law_line_feeds_start_a_row(s: Seq<char>, width: int)
    ensures
        text_end(s.push('\n'), width) == (text_end(s, width).0 + 1, 0int),
{
    assert(s.push('\n').drop_last() =~= s);
}

/// The cursor moves to the row above or below where there is a place on it, to the
/// place nearest by column, and stays where there is none.
pub proof fn law_cursor_moves_by_one_row(
    prefix: &str,
    input: &str,
    cursor: usize,
    direction: i32,
    cols: usize,
    r: usize,
    k: int,
)
    requires
        call_ensures(
            repl_move_cursor_vertical_for_cols,
            (prefix, input, cursor, direction, cols),
            r,
        ),
        cursor <= input@.len(),
        0 <= k <= input@.len(),
    ensures
        ({
            let w = content_width(prefix@, cols as int);
            let here = text_end(input@.take(cursor as int), w);
            let there = text_end(input@.take(r as int), w);
            let other = text_end(input@.take(k), w);
            &&& direction < 0 && other.0 == here.0 - 1 && here.0 > 0 ==> there.0 == here.0 - 1
                && distance(there.1, here.1) <= distance(other.1, here.1)
            &&& direction >= 0 && other.0 == here.0 + 1 && here.0 < text_end(input@, w).0
                ==> there.0 == here.0 + 1 && distance(there.1, here.1) <= distance(
                other.1,
                here.1,
            )
            &&& direction < 0 && here.0 == 0 ==> r == cursor
            &&& direction >= 0 && here.0 == text_end(input@, w).0 ==> r == cursor
        }),
{
    let w = content_width(prefix@, cols as int);
    assert(text_end(input@.take(k), w) == text_end(input@.take(k), w));
}

} // verus!
