//! Drawing the input box: bars around the wrapped input, and under it the
//! suggestions or the footer.
use crate::commands::{
    names_of, repl_command_suggestions, repl_command_suggestions_line, strs, suggested,
};
use crate::echo::{
    beside_bar, dim, dim_text, echo_of, input_prompt_bar, prompt_bar, repl_shortcut_hint_line,
    shortcut_hint, submitted_echo_lines, width_beside_bar,
};
use crate::footer::{footer_line, repl_footer_line, ReplFooterStatus};
use crate::lang::Lang;
use crate::layout::{
    at_least_one, content_width, cursor_in_line, cursor_on_screen, input_lines, input_rows,
    not_negative, prompt_rows, repl_cursor_position_for_cols,
    repl_cursor_position_for_line_for_cols, repl_input_lines, repl_prompt_rows_for_cols,
    repl_visible_input_lines, repl_wrapped_input_rows_for_cols, visible_lines,
    REPL_MAX_VISIBLE_INPUT_ROWS,
};
use crate::mode::AgentMode;
use crate::placeholder::{colorize_repl_placeholders, colorized};
use crate::placement::{max_of, row16};
use crate::screen::{add_one, add_op, add_two, lemma_assoc, ops, Op, TerminalOp};
use crate::text::{joined, texts, trim_end, trim_right};
use crate::width::truncated;
use vstd::prelude::*;
use vstd::string::*;

verus! {

/// What the input box is drawn from.
#[derive(Debug)]
pub struct InputBox<'a> {
    pub mode: AgentMode,
    pub input: &'a str,
    pub cursor: usize,
    pub is_pasted: bool,
    pub show_shortcut_hint: bool,
}

/// The same with the input as a sequence.
pub struct BoxShape {
    pub mode: AgentMode,
    pub input: Seq<char>,
    pub cursor: int,
    pub is_pasted: bool,
    pub show_hint: bool,
}

impl<'a> View for InputBox<'a> {
    type V = BoxShape;

    open spec fn view(&self) -> BoxShape {
        BoxShape {
            mode: self.mode,
            input: self.input@,
            cursor: self.cursor as int,
            is_pasted: self.is_pasted,
            show_hint: self.show_shortcut_hint,
        }
    }
}

/// What the box says under the input takes three rows with the bars, four with
/// the hint about keys.
pub open spec fn frame_rows(input: Seq<char>, show_hint: bool) -> int {
    if show_hint && suggested(input).len() == 0 {
        4
    } else {
        3
    }
}

/// The lines of the input that are shown.
pub open spec fn shown_lines(lang: Lang, input: Seq<char>, is_pasted: bool, cols: int) -> Seq<
    Seq<char>,
> {
    visible_lines(
        lang,
        "  "@,
        input_lines(input),
        REPL_MAX_VISIBLE_INPUT_ROWS as int,
        is_pasted,
        cols,
    )
}

/// The rows that the shown lines break into.
pub open spec fn shown_rows(lang: Lang, input: Seq<char>, is_pasted: bool, cols: int) -> Seq<
    Seq<char>,
> {
    input_rows(shown_lines(lang, input, is_pasted, cols), content_width("  "@, cols) as nat)
}

/// The rows that the whole box takes.
pub open spec fn box_height(
    lang: Lang,
    input: Seq<char>,
    is_pasted: bool,
    show_hint: bool,
    cols: int,
) -> int {
    row16(
        row16(at_least_one(shown_rows(lang, input, is_pasted, cols).len() as int)) + frame_rows(
            input,
            show_hint,
        ),
    )
}

fn frame_row_count(input: &str, show_hint: bool) -> (r: u16)
    ensures
        r == frame_rows(input@, show_hint),
{
    let suggestions = repl_command_suggestions(input);
    assert(strs(suggestions@).len() == suggested(input@).len());
    if show_hint && suggestions.is_empty() {
        4
    } else {
        3
    }
}

fn shown(lang: Lang, input: &str, is_pasted: bool, cols: usize) -> (r: (Vec<String>, bool))
    ensures
        texts(r.0@) == shown_lines(lang, input@, is_pasted, cols as int),
        r.1 == (shown_lines(lang, input@, is_pasted, cols as int).len() == input_lines(
            input@,
        ).len()),
{
    let lines = repl_input_lines(input);
    let display = repl_visible_input_lines(
        lang,
        "  ",
        &lines,
        REPL_MAX_VISIBLE_INPUT_ROWS,
        is_pasted,
        cols,
    );
    assert(texts(lines@).len() == lines@.len());
    assert(texts(display@).len() == display@.len());
    let all = display.len() == lines.len();
    (display, all)
}

pub fn repl_input_rendered_rows(
    lang: Lang,
    input: &str,
    is_pasted: bool,
    show_shortcut_hint: bool,
    cols: usize,
) -> (r: u16)
    ensures
        r == box_height(lang, input@, is_pasted, show_shortcut_hint, cols as int),
{
    let (display, _) = shown(lang, input, is_pasted, cols);
    let rows = repl_wrapped_input_rows_for_cols("  ", &display, cols);
    assert(texts(rows@).len() == rows@.len());
    let n: usize = rows.len();
    let n: u16 = if n < 65535 {
        n as u16
    } else {
        65535
    };
    n.saturating_add(frame_row_count(input, show_shortcut_hint))
}

/// `n` line feeds.
pub open spec fn feeds(n: int) -> Seq<Op>
    decreases n,
{
    if n <= 0 {
        Seq::empty()
    } else {
        feeds(n - 1).push(Op::Print("\n"@))
    }
}

pub fn add_feeds(list: &mut Vec<TerminalOp>, n: u16)
    ensures
        ops(final(list)@) == ops(old(list)@) + feeds(n as int),
{
    let ghost before = ops(list@);
    let mut i: u16 = 0;
    assert(before + feeds(0) =~= before);
    while i < n
        invariant
            i <= n,
            ops(list@) == before + feeds(i as int),
        decreases n - i,
    {
        add_op(list, TerminalOp::Print("\n".to_owned()));
        i = i + 1;
        assert(ops(list@) =~= before + feeds(i as int));
    }
}

/// `n` rows from `row` on, emptied.
pub open spec fn cleared_rows(row: int, n: int) -> Seq<Op>
    decreases n,
{
    if n <= 0 {
        Seq::empty()
    } else {
        cleared_rows(row, n - 1).push(Op::MoveTo(0, row16(row + n - 1))).push(Op::ClearLine)
    }
}

pub fn add_cleared_rows(list: &mut Vec<TerminalOp>, row: u16, n: u16)
    ensures
        ops(final(list)@) == ops(old(list)@) + cleared_rows(row as int, n as int),
{
    let ghost before = ops(list@);
    let mut i: u16 = 0;
    assert(before + cleared_rows(row as int, 0) =~= before);
    while i < n
        invariant
            i <= n,
            ops(list@) == before + cleared_rows(row as int, i as int),
        decreases n - i,
    {
        add_op(list, TerminalOp::MoveTo(0, row.saturating_add(i)));
        add_op(list, TerminalOp::ClearLine);
        i = i + 1;
        assert(ops(list@) =~= before + cleared_rows(row as int, i as int));
    }
}

/// The row of the box after the screen was scrolled to make room for `needed`
/// rows, and by how much it was.
pub open spec fn scroll_for(input_row: int, needed: int, terminal_rows: int) -> int {
    let rows = at_least_one(terminal_rows);
    if row16(input_row + needed) < rows {
        0
    } else {
        not_negative(row16(input_row + needed) - (rows - 1))
    }
}

pub open spec fn space_ops(input_row: int, needed: int, terminal_rows: int) -> Seq<Op> {
    let rows = at_least_one(terminal_rows);
    if row16(input_row + needed) < rows {
        Seq::empty()
    } else {
        seq![Op::MoveTo(0, rows - 1)] + feeds(scroll_for(input_row, needed, terminal_rows))
    }
}

/// Scrolls the screen until `needed_rows` rows fit below `input_row`; returns
/// where the box then starts.
pub fn ensure_repl_space(
    list: &mut Vec<TerminalOp>,
    input_row: u16,
    needed_rows: u16,
    terminal_rows: u16,
) -> (r: u16)
    ensures
        ops(final(list)@) == ops(old(list)@) + space_ops(
            input_row as int,
            needed_rows as int,
            terminal_rows as int,
        ),
        r == not_negative(
            input_row - scroll_for(input_row as int, needed_rows as int, terminal_rows as int),
        ),
{
    let rows: u16 = if terminal_rows == 0 {
        1
    } else {
        terminal_rows
    };
    let ghost before = ops(list@);
    let end: u16 = input_row.saturating_add(needed_rows);
    if end < rows {
        assert(before + Seq::<Op>::empty() =~= before);
        return input_row;
    }
    let overflow: u16 = end.saturating_sub(rows - 1);
    add_op(list, TerminalOp::MoveTo(0, rows - 1));
    add_feeds(list, overflow);
    assert(ops(list@) =~= before + space_ops(
        input_row as int,
        needed_rows as int,
        terminal_rows as int,
    ));
    input_row.saturating_sub(overflow)
}

/// The first `n` rows of the input behind the bar.
pub open spec fn barred_rows(bar: Seq<char>, rows: Seq<Seq<char>>, row: int, n: int) -> Seq<Op>
    decreases n,
{
    if n <= 0 {
        Seq::empty()
    } else {
        barred_rows(bar, rows, row, n - 1).push(Op::MoveTo(0, row16(row + n))).push(
            Op::Print(bar),
        ).push(Op::Print(colorized(rows[n - 1])))
    }
}

fn add_barred_rows(list: &mut Vec<TerminalOp>, bar: &str, rows: &Vec<String>, row: u16)
    ensures
        ops(final(list)@) == ops(old(list)@) + barred_rows(
            bar@,
            texts(rows@),
            row as int,
            rows@.len() as int,
        ),
{
    let ghost before = ops(list@);
    let mut i: usize = 0;
    let mut offset: u16 = 1;
    assert(before + barred_rows(bar@, texts(rows@), row as int, 0) =~= before);
    while i < rows.len()
        invariant
            i <= rows@.len(),
            offset == row16(i + 1),
            ops(list@) == before + barred_rows(bar@, texts(rows@), row as int, i as int),
        decreases rows@.len() - i,
    {
        let text = colorize_repl_placeholders(rows[i].as_str());
        assert(texts(rows@)[i as int] == rows@[i as int]@);
        add_op(list, TerminalOp::MoveTo(0, row.saturating_add(offset)));
        add_op(list, TerminalOp::Print(bar.to_owned()));
        add_op(list, TerminalOp::Print(text));
        offset = offset.saturating_add(1);
        i = i + 1;
        assert(ops(list@) =~= before + barred_rows(bar@, texts(rows@), row as int, i as int));
    }
}

/// What stands under the input, in the row `row`: the suggestions where there
/// are any, else the footer and the hint about keys.
pub open spec fn under_input(
    lang: Lang,
    mode: AgentMode,
    input: Seq<char>,
    footer: ReplFooterStatus,
    show_hint: bool,
    row: int,
    height: int,
    cols: int,
) -> Seq<Op> {
    let found = suggested(input);
    let at = row16(row + row16(height));
    if found.len() > 0 {
        seq![
            Op::MoveTo(0, at),
            Op::Print(prompt_bar(mode)),
            Op::Print(
                dim(truncated(joined(names_of(found), "  "@), beside_bar(mode, cols))),
            ),
        ]
    } else {
        seq![Op::MoveTo(0, at), Op::Print(footer_line(lang, mode, footer, cols))] + if show_hint {
            seq![
                Op::MoveTo(0, row16(row + row16(height + 1))),
                Op::Print(
                    prompt_bar(mode) + dim(
                        truncated(shortcut_hint(lang), beside_bar(mode, cols)),
                    ),
                ),
            ]
        } else {
            Seq::empty()
        }
    }
}

#[verifier::rlimit(40)]
#[verifier::spinoff_prover]
fn add_under_input(
    list: &mut Vec<TerminalOp>,
    lang: Lang,
    shape: &InputBox<'_>,
    footer: &ReplFooterStatus,
    row: u16,
    offset: u16,
    cols: usize,
)
    ensures
        ops(final(list)@) == ops(old(list)@) + under_input(
            lang,
            shape.mode,
            shape.input@,
            *footer,
            shape.show_shortcut_hint,
            row as int,
            offset as int,
            cols as int,
        ),
{
    let ghost before = ops(list@);
    let suggestions = repl_command_suggestions(shape.input);
    assert(strs(suggestions@).len() == suggested(shape.input@).len());
    let at: u16 = row.saturating_add(offset);
    add_op(list, TerminalOp::MoveTo(0, at));
    if !suggestions.is_empty() {
        let width = width_beside_bar(shape.mode, cols);
        let line = repl_command_suggestions_line(&suggestions, width);
        add_op(list, TerminalOp::Print(input_prompt_bar(shape.mode)));
        add_op(list, TerminalOp::Print(dim_text(line.as_str())));
    } else {
        let line = repl_footer_line(lang, shape.mode, footer, cols);
        add_op(list, TerminalOp::Print(line));
        if shape.show_shortcut_hint {
            let next: u16 = offset.saturating_add(1);
            let hint = repl_shortcut_hint_line(lang, shape.mode, cols);
            add_op(list, TerminalOp::MoveTo(0, row.saturating_add(next)));
            add_op(list, TerminalOp::Print(hint));
        }
    }
    assert(ops(list@) =~= before + under_input(
        lang,
        shape.mode,
        shape.input@,
        *footer,
        shape.show_shortcut_hint,
        row as int,
        offset as int,
        cols as int,
    ));
}

/// Where the cursor stands in the box: at its place in the input, or at the end
/// of the last shown line where lines are hidden.
pub open spec fn box_cursor(
    lang: Lang,
    input: Seq<char>,
    cursor: int,
    is_pasted: bool,
    cols: int,
) -> (int, int) {
    let display = shown_lines(lang, input, is_pasted, cols);
    if display.len() == input_lines(input).len() {
        cursor_on_screen("  "@, input, cursor, cols)
    } else {
        let last = display.last();
        (
            cursor_in_line("  "@, last, last.len() as int, cols).0,
            prompt_rows("  "@, display, cols) - 1,
        )
    }
}

fn cursor_in_box(lang: Lang, input: &str, cursor: usize, is_pasted: bool, cols: usize) -> (r: (
    u16,
    u16,
))
    ensures
        (r.0 as int, r.1 as int) == box_cursor(
            lang,
            input@,
            cursor as int,
            is_pasted,
            cols as int,
        ),
{
    let (display, all) = shown(lang, input, is_pasted, cols);
    if all {
        return repl_cursor_position_for_cols("  ", input, cursor, cols);
    }
    assert(texts(display@).len() == display@.len());
    proof {
        crate::text::lemma_split_nonempty(crate::sanitize::stripped(input@), '\n');
    }
    let n: usize = display.len();
    let last = display[n - 1].as_str();
    assert(texts(display@).last() == last@);
    let (col, _) = repl_cursor_position_for_line_for_cols("  ", last, last.unicode_len(), cols);
    let rows = repl_prompt_rows_for_cols("  ", &display, cols);
    (col, rows - 1)
}

/// Everything that is drawn for the box: room is made, old rows are emptied,
/// the input stands between bars, and the cursor goes to its place.
pub open spec fn box_ops(
    lang: Lang,
    shape: BoxShape,
    footer: ReplFooterStatus,
    input_row: int,
    drawn_before: int,
    terminal_rows: int,
    cols: int,
) -> Seq<Op> {
    let height = box_height(lang, shape.input, shape.is_pasted, shape.show_hint, cols);
    let emptied = at_least_one(max_of(drawn_before, height));
    let row = not_negative(input_row - scroll_for(input_row, emptied, terminal_rows));
    let bar = prompt_bar(shape.mode);
    let rows = shown_rows(lang, shape.input, shape.is_pasted, cols);
    let at = box_cursor(lang, shape.input, shape.cursor, shape.is_pasted, cols);
    space_ops(input_row, emptied, terminal_rows) + cleared_rows(row, emptied) + seq![
        Op::MoveTo(0, row),
        Op::Print(bar),
    ] + barred_rows(bar, rows, row, rows.len() as int) + seq![
        Op::MoveTo(0, row16(row + row16(rows.len() as int + 1))),
        Op::Print(bar),
    ] + under_input(
        lang,
        shape.mode,
        shape.input,
        footer,
        shape.show_hint,
        row,
        row16(rows.len() as int + 2),
        cols,
    ) + seq![Op::MoveTo(at.0, row16(row16(row + 1) + at.1))]
}

/// Draws the box; returns where it starts and how many rows it takes.
pub fn render_repl_input_with_footer(
    list: &mut Vec<TerminalOp>,
    lang: Lang,
    shape: &InputBox<'_>,
    footer: &ReplFooterStatus,
    input_row: u16,
    rendered_rows: u16,
    terminal_rows: u16,
    cols: usize,
) -> (r: (u16, u16))
    ensures
        ops(final(list)@) == ops(old(list)@) + box_ops(
            lang,
            shape@,
            *footer,
            input_row as int,
            rendered_rows as int,
            terminal_rows as int,
            cols as int,
        ),
        r.1 == box_height(
            lang,
            shape.input@,
            shape.is_pasted,
            shape.show_shortcut_hint,
            cols as int,
        ),
        r.0 == not_negative(
            input_row - scroll_for(
                input_row as int,
                at_least_one(max_of(rendered_rows as int, r.1 as int)),
                terminal_rows as int,
            ),
        ),
{
    let ghost before = ops(list@);
    let height = repl_input_rendered_rows(
        lang,
        shape.input,
        shape.is_pasted,
        shape.show_shortcut_hint,
        cols,
    );
    let emptied: u16 = if rendered_rows > height {
        rendered_rows
    } else {
        height
    };
    let row = ensure_repl_space(list, input_row, emptied, terminal_rows);
    let ghost p1 = space_ops(input_row as int, emptied as int, terminal_rows as int);
    add_cleared_rows(list, row, emptied);
    let ghost n2 = cleared_rows(row as int, emptied as int);
    let ghost p2 = p1 + n2;
    proof {
        lemma_assoc(before, p1, n2);
    }
    let bar = input_prompt_bar(shape.mode);
    add_two(list, TerminalOp::MoveTo(0, row), TerminalOp::Print(bar.clone()));
    let ghost n3 = seq![Op::MoveTo(0, row as int), Op::Print(bar@)];
    let ghost p3 = p2 + n3;
    proof {
        lemma_assoc(before, p2, n3);
    }
    let (display, _) = shown(lang, shape.input, shape.is_pasted, cols);
    let rows = repl_wrapped_input_rows_for_cols("  ", &display, cols);
    assert(texts(rows@).len() == rows@.len());
    add_barred_rows(list, bar.as_str(), &rows, row);
    let ghost n4 = barred_rows(bar@, texts(rows@), row as int, rows@.len() as int);
    let ghost p4 = p3 + n4;
    proof {
        lemma_assoc(before, p3, n4);
    }
    let n: u16 = if rows.len() < 65535 {
        rows.len() as u16
    } else {
        65535
    };
    let offset: u16 = n.saturating_add(1);
    add_two(
        list,
        TerminalOp::MoveTo(0, row.saturating_add(offset)),
        TerminalOp::Print(bar),
    );
    let ghost n5 = seq![
        Op::MoveTo(0, row16(row + row16(rows@.len() as int + 1))),
        Op::Print(bar@),
    ];
    let ghost p5 = p4 + n5;
    proof {
        lemma_assoc(before, p4, n5);
    }
    add_under_input(list, lang, shape, footer, row, offset.saturating_add(1), cols);
    let ghost n6 = under_input(
        lang,
        shape.mode,
        shape.input@,
        *footer,
        shape.show_shortcut_hint,
        row as int,
        row16(rows@.len() as int + 2),
        cols as int,
    );
    let ghost p6 = p5 + n6;
    proof {
        lemma_assoc(before, p5, n6);
    }
    let (x, y) = cursor_in_box(lang, shape.input, shape.cursor, shape.is_pasted, cols);
    add_one(list, TerminalOp::MoveTo(x, row.saturating_add(1).saturating_add(y)));
    proof {
        lemma_assoc(before, p6, seq![Op::MoveTo(x as int, row16(row16(row + 1) + y))]);
    }
    (row, height)
}

/// Moves the cursor below the box.
pub fn move_after_repl_input(list: &mut Vec<TerminalOp>, input_row: u16, rendered_rows: u16)
    ensures
        ops(final(list)@) == ops(old(list)@).push(
            Op::MoveTo(0, row16(input_row + at_least_one(rendered_rows as int))),
        ),
{
    let rows: u16 = if rendered_rows == 0 {
        1
    } else {
        rendered_rows
    };
    add_op(list, TerminalOp::MoveTo(0, input_row.saturating_add(rows)));
}

/// The first `n` lines, each on a row of its own from `row` on.
pub open spec fn printed_lines(lines: Seq<Seq<char>>, row: int, n: int) -> Seq<Op>
    decreases n,
{
    if n <= 0 {
        Seq::empty()
    } else {
        printed_lines(lines, row, n - 1).push(Op::MoveTo(0, row16(row + row16(n - 1)))).push(
            Op::Print(lines[n - 1]),
        )
    }
}

fn add_printed_lines(list: &mut Vec<TerminalOp>, lines: &Vec<String>, row: u16)
    ensures
        ops(final(list)@) == ops(old(list)@) + printed_lines(
            texts(lines@),
            row as int,
            lines@.len() as int,
        ),
{
    let ghost before = ops(list@);
    let mut i: usize = 0;
    assert(before + printed_lines(texts(lines@), row as int, 0) =~= before);
    while i < lines.len()
        invariant
            i <= lines@.len(),
            ops(list@) == before + printed_lines(texts(lines@), row as int, i as int),
        decreases lines@.len() - i,
    {
        let offset: u16 = if i < 65535 {
            i as u16
        } else {
            65535
        };
        assert(texts(lines@)[i as int] == lines@[i as int]@);
        add_op(list, TerminalOp::MoveTo(0, row.saturating_add(offset)));
        add_op(list, TerminalOp::Print(lines[i].clone()));
        i = i + 1;
        assert(ops(list@) =~= before + printed_lines(texts(lines@), row as int, i as int));
    }
}

/// The box gives way to the echo of what was submitted in it.
pub open spec fn echo_ops(
    mode: AgentMode,
    input: Seq<char>,
    input_row: int,
    drawn_before: int,
    cols: int,
) -> Seq<Op> {
    let lines = echo_of(mode, trim_right(input), cols);
    let rows = row16(lines.len() as int);
    cleared_rows(input_row, at_least_one(max_of(drawn_before, rows))) + printed_lines(
        lines,
        input_row,
        lines.len() as int,
    ) + seq![Op::MoveTo(0, row16(row16(input_row + rows) + 1))]
}

pub fn replace_repl_input_with_user_echo(
    list: &mut Vec<TerminalOp>,
    input_row: u16,
    rendered_rows: u16,
    mode: AgentMode,
    input: &str,
    cols: usize,
)
    ensures
        ops(final(list)@) == ops(old(list)@) + echo_ops(
            mode,
            input@,
            input_row as int,
            rendered_rows as int,
            cols as int,
        ),
{
    let ghost before = ops(list@);
    let lines = submitted_echo_lines(mode, trim_end(input), cols);
    assert(texts(lines@).len() == lines@.len());
    let rows: u16 = if lines.len() < 65535 {
        lines.len() as u16
    } else {
        65535
    };
    let emptied: u16 = if rendered_rows > rows {
        rendered_rows
    } else {
        rows
    };
    let emptied: u16 = if emptied == 0 {
        1
    } else {
        emptied
    };
    add_cleared_rows(list, input_row, emptied);
    add_printed_lines(list, &lines, input_row);
    add_op(list, TerminalOp::MoveTo(0, input_row.saturating_add(rows).saturating_add(1)));
    assert(ops(list@) =~= before + echo_ops(
        mode,
        input@,
        input_row as int,
        rendered_rows as int,
        cols as int,
    ));
}

/// Each row of the input is drawn behind the bar on a row of its own, one below
/// the other, under the bar at the top.
pub proof fn law_rows_are_drawn_one_below_the_other(
    bar: Seq<char>,
    rows: Seq<Seq<char>>,
    row: int,
    i: int,
    n: int,
)
    requires
        0 <= i < n <= rows.len(),
        0 <= row,
        row + n <= 65535,
    ensures
        barred_rows(bar, rows, row, n).len() == 3 * n,
        barred_rows(bar, rows, row, n)[3 * i] == Op::MoveTo(0, row + i + 1),
        barred_rows(bar, rows, row, n)[3 * i + 1] == Op::Print(bar),
        barred_rows(bar, rows, row, n)[3 * i + 2] == Op::Print(colorized(rows[i])),
    decreases n,
{
    lemma_barred_len(bar, rows, row, n - 1);
    if i < n - 1 {
        law_rows_are_drawn_one_below_the_other(bar, rows, row, i, n - 1);
    }
}

proof fn lemma_barred_len(bar: Seq<char>, rows: Seq<Seq<char>>, row: int, n: int)
    requires
        0 <= n,
    ensures
        barred_rows(bar, rows, row, n).len() == 3 * n,
    decreases n,
{
    if n > 0 {
        lemma_barred_len(bar, rows, row, n - 1);
    }
}

/// Emptying rows empties each of them once, from the first on.
pub proof fn law_rows_are_emptied_in_order(row: int, i: int, n: int)
    requires
        0 <= i < n,
        0 <= row,
        row + n <= 65536,
    ensures
        cleared_rows(row, n).len() == 2 * n,
        cleared_rows(row, n)[2 * i] == Op::MoveTo(0, row + i),
        cleared_rows(row, n)[2 * i + 1] is ClearLine,
    decreases n,
{
    lemma_cleared_len(row, n - 1);
    if i < n - 1 {
        law_rows_are_emptied_in_order(row, i, n - 1);
    }
}

proof fn lemma_cleared_len(row: int, n: int)
    requires
        0 <= n,
    ensures
        cleared_rows(row, n).len() == 2 * n,
    decreases n,
{
    if n > 0 {
        lemma_cleared_len(row, n - 1);
    }
}

/// So many line feeds are so many, and nothing else.
pub proof fn law_feeds_are_counted(n: int, i: int)
    requires
        0 <= i < n,
    ensures
        feeds(n).len() == n,
        feeds(n)[i] == Op::Print("\n"@),
    decreases n,
{
    reveal_with_fuel(feeds, 2);
    if n > 1 {
        law_feeds_are_counted(n - 1, 0);
        if i < n - 1 {
            law_feeds_are_counted(n - 1, i);
        }
    }
}

/// The screen scrolls only where the box does not fit below its row, and then by
/// what it lacks: behind that it ends above the bottom row.
pub proof fn law_room_is_made_for_the_box(
    list: &mut Vec<TerminalOp>,
    input_row: u16,
    needed: u16,
    terminal_rows: u16,
    r: u16,
)
    requires
        call_ensures(ensure_repl_space, (list, input_row, needed, terminal_rows), r),
        terminal_rows >= 1,
        needed < terminal_rows,
        input_row + needed <= 65535,
    ensures
        input_row + needed < terminal_rows ==> r == input_row && ops(final(list)@) == ops(
            old(list)@,
        ),
        r + needed <= terminal_rows - 1,
        input_row + needed >= terminal_rows ==> r + needed == terminal_rows - 1,
{
    assert(ops(old(list)@) + Seq::<Op>::empty() =~= ops(old(list)@));
}

/// The box takes three rows beside those of the input, a fourth for the hint
/// about keys where no suggestions stand in its place, and at least one row of
/// input.
pub proof fn law_box_rows_add_up(
    lang: Lang,
    input: &str,
    is_pasted: bool,
    hint: bool,
    cols: usize,
    r: u16,
)
    requires
        call_ensures(repl_input_rendered_rows, (lang, input, is_pasted, hint, cols), r),
        shown_rows(lang, input@, is_pasted, cols as int).len() < 1000,
    ensures
        ({
            let rows = shown_rows(lang, input@, is_pasted, cols as int).len();
            let held = if rows == 0 {
                1
            } else {
                rows as int
            };
            &&& !hint ==> r == held + 3
            &&& hint && suggested(input@).len() == 0 ==> r == held + 4
            &&& hint && suggested(input@).len() > 0 ==> r == held + 3
        }),
{
}

} // verus!
