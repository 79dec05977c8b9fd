//! Echoes: how a submitted or queued message is shown above the prompt.
use crate::lang::{pick, t, Lang};
use crate::layout::{at_least_one, not_negative};
use crate::mode::AgentMode;
use crate::placeholder::{colorize_repl_placeholders, colorized};
use crate::text::{split_at_char, split_char, texts};
use crate::width::{
    truncate_visible_width, truncated, visible_width, width_of, wrap_visible_width, wrapped,
};
use vstd::prelude::*;
use vstd::string::*;

verus! {

/// Text in the colour of the interface.
pub open spec fn primary(s: Seq<char>) -> Seq<char> {
    "\x1b[1m\x1b[34m"@ + s + "\x1b[0m"@
}

/// Faint text.
pub open spec fn dim(s: Seq<char>) -> Seq<char> {
    "\x1b[2m"@ + s + "\x1b[0m"@
}

/// Text of a failure.
pub open spec fn red(s: Seq<char>) -> Seq<char> {
    "\x1b[31m"@ + s + "\x1b[0m"@
}

/// Text in bold type.
pub open spec fn bold(s: Seq<char>) -> Seq<char> {
    "\x1b[1m"@ + s + "\x1b[0m"@
}

/// The text of the entry that has the focus.
pub open spec fn focused_text(s: Seq<char>) -> Seq<char> {
    "\x1b[1m\x1b[35m"@ + s + "\x1b[0m"@
}

/// The text of an entry that is checked.
pub open spec fn checked_text(s: Seq<char>) -> Seq<char> {
    "\x1b[1m\x1b[32m"@ + s + "\x1b[0m"@
}

/// `text` between `before` and `after`.
pub fn enclosed(before: &str, text: &str, after: &str) -> (r: String)
    ensures
        r@ == before@ + text@ + after@,
{
    let mut r = before.to_owned();
    r.append(text);
    r.append(after);
    r
}

pub fn primary_footer_text(text: &str) -> (r: String)
    ensures
        r@ == primary(text@),
{
    enclosed("\x1b[1m\x1b[34m", text, "\x1b[0m")
}

pub fn dim_text(text: &str) -> (r: String)
    ensures
        r@ == dim(text@),
{
    enclosed("\x1b[2m", text, "\x1b[0m")
}

pub fn red_text(text: &str) -> (r: String)
    ensures
        r@ == red(text@),
{
    enclosed("\x1b[31m", text, "\x1b[0m")
}

pub fn bold_text(text: &str) -> (r: String)
    ensures
        r@ == bold(text@),
{
    enclosed("\x1b[1m", text, "\x1b[0m")
}

/// A menu entry: in focus, checked, or neither.
pub open spec fn entry_text(s: Seq<char>, focused: bool, checked: bool) -> Seq<char> {
    if focused {
        focused_text(s)
    } else if checked {
        checked_text(s)
    } else {
        dim(s)
    }
}

pub fn style_entry(text: &str, focused: bool, checked: bool) -> (r: String)
    ensures
        r@ == entry_text(text@, focused, checked),
{
    if focused {
        enclosed("\x1b[1m\x1b[35m", text, "\x1b[0m")
    } else if checked {
        enclosed("\x1b[1m\x1b[32m", text, "\x1b[0m")
    } else {
        dim_text(text)
    }
}

/// The bar at the left edge of a message, in the colour of its mode.
pub open spec fn bar_of(mode: AgentMode) -> Seq<char> {
    match mode {
        AgentMode::Normal => "\x1b[1m\x1b[34m┃\x1b[0m"@,
        AgentMode::Plan => "\x1b[1m\x1b[35m┃\x1b[0m"@,
        AgentMode::Chat => "\x1b[1m\x1b[32m┃\x1b[0m"@,
    }
}

pub fn submitted_echo_bar(mode: AgentMode) -> (r: String)
    ensures
        r@ == bar_of(mode),
{
    match mode {
        AgentMode::Normal => "\x1b[1m\x1b[34m┃\x1b[0m".to_owned(),
        AgentMode::Plan => "\x1b[1m\x1b[35m┃\x1b[0m".to_owned(),
        AgentMode::Chat => "\x1b[1m\x1b[32m┃\x1b[0m".to_owned(),
    }
}

/// The bar and the space behind it, as the input box shows them.
pub open spec fn prompt_bar(mode: AgentMode) -> Seq<char> {
    bar_of(mode) + " "@
}

pub fn input_prompt_bar(mode: AgentMode) -> (r: String)
    ensures
        r@ == prompt_bar(mode),
{
    let mut r = submitted_echo_bar(mode);
    r.append(" ");
    r
}

/// The rows of one line of a message; an empty line is one empty row.
pub open spec fn echo_rows(line: Seq<char>, width: nat) -> Seq<Seq<char>> {
    if line.len() == 0 {
        seq![Seq::<char>::empty()]
    } else {
        wrapped(line, width)
    }
}

/// A row of a message behind the bar.
pub open spec fn echo_row(mode: AgentMode, row: Seq<char>) -> Seq<char> {
    bar_of(mode) + " "@ + colorized(row)
}

/// The rows of the first `n` lines, each behind the bar.
pub open spec fn echo_rows_before(
    mode: AgentMode,
    lines: Seq<Seq<char>>,
    n: int,
    width: nat,
) -> Seq<Seq<char>>
    decreases n,
{
    if n <= 0 {
        Seq::empty()
    } else {
        echo_rows_before(mode, lines, n - 1, width) + echo_rows(lines[n - 1], width).map_values(
            |row: Seq<char>| echo_row(mode, row),
        )
    }
}

/// The columns that a message has for its text.
pub open spec fn echo_width(cols: int) -> nat {
    at_least_one(not_negative(cols - 3)) as nat
}

/// A message as it is echoed: a bar, its rows behind bars, and a bar.
pub open spec fn echo_of(mode: AgentMode, input: Seq<char>, cols: int) -> Seq<Seq<char>> {
    let lines = split_at_char(input, '\n');
    seq![bar_of(mode)] + echo_rows_before(mode, lines, lines.len() as int, echo_width(cols))
        + seq![bar_of(mode)]
}

fn push_echo_rows(out: &mut Vec<String>, mode: AgentMode, line: &str, width: usize)
    ensures
        texts(final(out)@) == texts(old(out)@) + echo_rows(line@, width as nat).map_values(
            |row: Seq<char>| echo_row(mode, row),
        ),
{
    let mut rows = wrap_visible_width(line, width);
    let ghost want = echo_rows(line@, width as nat);
    if rows.is_empty() {
        rows.push(String::new());
        proof {
            if line@.len() > 0 {
                assert(wrapped(line@, width as nat).len() > 0);
                assert(texts(Seq::<String>::empty()).len() == 0);
            }
        }
        assert(texts(rows@) =~= want);
    } else {
        assert(texts(rows@).len() == rows@.len());
        assert(line@.len() > 0);
    }
    let ghost f = |row: Seq<char>| echo_row(mode, row);
    let ghost before = texts(out@);
    let mut i: usize = 0;
    assert(before + want.map_values(f).take(0) =~= before);
    while i < rows.len()
        invariant
            i <= rows@.len(),
            texts(rows@) == want,
            f == (|row: Seq<char>| echo_row(mode, row)),
            texts(out@) == before + want.map_values(f).take(i as int),
        decreases rows@.len() - i,
    {
        let mut row = submitted_echo_bar(mode);
        row.append(" ");
        let text = colorize_repl_placeholders(rows[i].as_str());
        row.append(text.as_str());
        assert(want[i as int] == rows@[i as int]@);
        assert(row@ == f(want[i as int]));
        proof {
            crate::text::lemma_texts_push(out@, row);
        }
        out.push(row);
        i = i + 1;
        assert(texts(out@) =~= before + want.map_values(f).take(i as int));
    }
    assert(texts(rows@).len() == rows@.len());
    assert(want.map_values(f).take(want.len() as int) =~= want.map_values(f));
}

pub fn submitted_echo_lines(mode: AgentMode, input: &str, cols: usize) -> (r: Vec<String>)
    ensures
        texts(r@) == echo_of(mode, input@, cols as int),
{
    let width: usize = if cols > 4 {
        cols - 3
    } else {
        1
    };
    let lines = split_char(input, '\n');
    let ghost all = split_at_char(input@, '\n');
    let mut out: Vec<String> = Vec::new();
    out.push(submitted_echo_bar(mode));
    assert(texts(out@) =~= seq![bar_of(mode)] + echo_rows_before(mode, all, 0, width as nat));
    let mut i: usize = 0;
    while i < lines.len()
        invariant
            i <= lines@.len(),
            texts(lines@) == all,
            texts(out@) == seq![bar_of(mode)] + echo_rows_before(
                mode,
                all,
                i as int,
                width as nat,
            ),
        decreases lines@.len() - i,
    {
        let ghost before = echo_rows_before(mode, all, i as int, width as nat);
        push_echo_rows(&mut out, mode, lines[i].as_str(), width);
        assert(all[i as int] == lines@[i as int]@);
        i = i + 1;
        assert(texts(out@) =~= seq![bar_of(mode)] + echo_rows_before(
            mode,
            all,
            i as int,
            width as nat,
        ));
    }
    assert(all.len() == lines@.len());
    let last = submitted_echo_bar(mode);
    proof {
        crate::text::lemma_texts_push(out@, last);
    }
    out.push(last);
    assert(texts(out@) =~= echo_of(mode, input@, cols as int));
    out
}

/// The lines one under the other, each ended by a line feed.
pub open spec fn ended_lines(lines: Seq<Seq<char>>) -> Seq<char>
    decreases lines.len(),
{
    if lines.len() == 0 {
        Seq::empty()
    } else {
        ended_lines(lines.drop_last()) + lines.last() + seq!['\n']
    }
}

/// The first `n` messages, each echoed, with an empty line between each two.
pub open spec fn messages_before(
    messages: Seq<(Seq<char>, AgentMode)>,
    n: int,
    cols: int,
) -> Seq<char>
    decreases n,
{
    if n <= 0 {
        Seq::empty()
    } else {
        messages_before(messages, n - 1, cols) + (if n > 1 {
            seq!['\n']
        } else {
            Seq::empty()
        }) + ended_lines(echo_of(messages[n - 1].1, messages[n - 1].0, cols))
    }
}

/// Messages as they are written into the scrollback: an empty line before them
/// where it is asked for, and always one behind them.
pub open spec fn committed_text(
    messages: Seq<(Seq<char>, AgentMode)>,
    leading_gap: bool,
    cols: int,
) -> Seq<char> {
    (if leading_gap {
        seq!['\n']
    } else {
        Seq::empty()
    }) + messages_before(messages, messages.len() as int, cols) + seq!['\n']
}

pub open spec fn message_views(v: Seq<(&str, AgentMode)>) -> Seq<(Seq<char>, AgentMode)> {
    v.map_values(|m: (&str, AgentMode)| (m.0@, m.1))
}

fn append_ended(out: &mut String, lines: &Vec<String>)
    ensures
        final(out)@ == old(out)@ + ended_lines(texts(lines@)),
{
    let ghost before = out@;
    let mut i: usize = 0;
    assert(before + ended_lines(texts(lines@).take(0)) =~= before);
    while i < lines.len()
        invariant
            i <= lines@.len(),
            out@ == before + ended_lines(texts(lines@).take(i as int)),
        decreases lines@.len() - i,
    {
        out.append(lines[i].as_str());
        out.push('\n');
        assert(texts(lines@).take(i + 1).drop_last() =~= texts(lines@).take(i as int));
        assert(out@ =~= before + ended_lines(texts(lines@).take(i + 1)));
        i = i + 1;
    }
    assert(texts(lines@).take(lines@.len() as int) =~= texts(lines@));
}

pub fn committed_user_messages_text(
    messages: &[(&str, AgentMode)],
    leading_gap: bool,
    cols: usize,
) -> (r: String)
    ensures
        r@ == committed_text(message_views(messages@), leading_gap, cols as int),
{
    let ghost all = message_views(messages@);
    let mut out: String = String::new();
    if leading_gap {
        out.push('\n');
    }
    let ghost start = out@;
    assert(start =~= if leading_gap {
        seq!['\n']
    } else {
        Seq::empty()
    });
    let mut i: usize = 0;
    assert(start + messages_before(all, 0, cols as int) =~= start);
    while i < messages.len()
        invariant
            i <= messages@.len(),
            all == message_views(messages@),
            out@ == start + messages_before(all, i as int, cols as int),
        decreases messages@.len() - i,
    {
        let ghost was = out@;
        if i > 0 {
            out.push('\n');
        }
        let (content, mode) = messages[i];
        assert(all[i as int] == (content@, mode));
        let lines = submitted_echo_lines(mode, content, cols);
        append_ended(&mut out, &lines);
        i = i + 1;
        assert(out@ =~= start + messages_before(all, i as int, cols as int));
    }
    out.push('\n');
    assert(out@ =~= committed_text(all, leading_gap, cols as int));
    out
}

/// An attachment of a message that waits.
#[derive(Debug)]
pub enum QueuedPromptAttachment {
    Binary { mime: String, data_base64: String },
    Path { path: String },
}

/// A message that waits for the running reply.
#[derive(Debug)]
pub struct QueuedPrompt {
    pub prompt_id: String,
    pub seq: i64,
    pub content: String,
    pub display_content: String,
    pub attachments: Vec<QueuedPromptAttachment>,
    pub uploaded_attachments: Vec<String>,
    pub submitted_at: String,
}

pub open spec fn queued_mark(lang: Lang, mode: AgentMode) -> Seq<char> {
    bar_of(mode) + " "@ + primary(pick(lang, "Queued"@, "排队中"@))
}

/// The lines of the first `n` messages that wait: each echoed, with its mark
/// under it and an empty line between each two.
pub open spec fn queued_before(
    lang: Lang,
    prompts: Seq<QueuedPrompt>,
    n: int,
    mode: AgentMode,
    cols: int,
) -> Seq<Seq<char>>
    decreases n,
{
    if n <= 0 {
        Seq::empty()
    } else {
        queued_before(lang, prompts, n - 1, mode, cols) + (if n > 1 {
            seq![Seq::<char>::empty()]
        } else {
            Seq::empty()
        }) + echo_of(mode, prompts[n - 1].display_content@, cols) + seq![queued_mark(lang, mode)]
    }
}

pub fn queued_prompt_lines(
    lang: Lang,
    prompts: &Vec<QueuedPrompt>,
    mode: AgentMode,
    cols: usize,
) -> (r: Vec<String>)
    ensures
        texts(r@) == queued_before(lang, prompts@, prompts@.len() as int, mode, cols as int),
        r@.len() > 0 <==> prompts@.len() > 0,
{
    let mut out: Vec<String> = Vec::new();
    let mut i: usize = 0;
    assert(texts(out@) =~= queued_before(lang, prompts@, 0, mode, cols as int));
    while i < prompts.len()
        invariant
            i <= prompts@.len(),
            out@.len() > 0 <==> i > 0,
            texts(out@) == queued_before(lang, prompts@, i as int, mode, cols as int),
        decreases prompts@.len() - i,
    {
        let ghost was = texts(out@);
        if i > 0 {
            let blank = String::new();
            proof {
                crate::text::lemma_texts_push(out@, blank);
            }
            out.push(blank);
        }
        let ghost gap = if i > 0 {
            seq![Seq::<char>::empty()]
        } else {
            Seq::empty()
        };
        assert(texts(out@) =~= was + gap);
        let mut lines = submitted_echo_lines(mode, prompts[i].display_content.as_str(), cols);
        let ghost before = out@;
        let ghost added = lines@;
        out.append(&mut lines);
        assert(texts(out@) =~= texts(before) + texts(added));
        let label = primary_footer_text(t(lang, "Queued", "排队中"));
        let mut mark = submitted_echo_bar(mode);
        mark.append(" ");
        mark.append(label.as_str());
        proof {
            crate::text::lemma_texts_push(out@, mark);
        }
        out.push(mark);
        i = i + 1;
        assert(texts(out@) =~= queued_before(lang, prompts@, i as int, mode, cols as int));
    }
    out
}

/// What the line under the input box says about keys.
pub open spec fn shortcut_hint(lang: Lang) -> Seq<char> {
    pick(
        lang,
        "Tab switch mode; Shift+Enter newline; Ctrl+J newline; Ctrl+V paste clipboard"@,
        "Tab 切换模式；Shift+Enter 换行；Ctrl+J 换行；Ctrl+V 粘贴剪贴板"@,
    )
}

/// The columns that are left beside the prompt bar.
pub open spec fn beside_bar(mode: AgentMode, cols: int) -> nat {
    at_least_one(not_negative(cols - width_of(prompt_bar(mode)))) as nat
}

pub fn width_beside_bar(mode: AgentMode, cols: usize) -> (r: usize)
    ensures
        r == beside_bar(mode, cols as int),
{
    let bar = input_prompt_bar(mode);
    let w = cols.saturating_sub(visible_width(bar.as_str()));
    if w == 0 {
        1
    } else {
        w
    }
}

pub fn repl_shortcut_hint_line(lang: Lang, mode: AgentMode, cols: usize) -> (r: String)
    ensures
        r@ == prompt_bar(mode) + dim(truncated(shortcut_hint(lang), beside_bar(mode, cols as int))),
{
    let width = width_beside_bar(mode, cols);
    let text = truncate_visible_width(
        t(
            lang,
            "Tab switch mode; Shift+Enter newline; Ctrl+J newline; Ctrl+V paste clipboard",
            "Tab 切换模式；Shift+Enter 换行；Ctrl+J 换行；Ctrl+V 粘贴剪贴板",
        ),
        width,
    );
    let hint = dim_text(text.as_str());
    let mut r = input_prompt_bar(mode);
    r.append(hint.as_str());
    r
}

/// Every colour is switched on before the text and off behind it, and each stands
/// for one thing.
pub proof fn law_colours_go_around_the_text(
    text: &str,
    primary_text: String,
    faint: String,
    failure: String,
    strong: String,
)
    requires
        call_ensures(primary_footer_text, (text,), primary_text),
        call_ensures(dim_text, (text,), faint),
        call_ensures(red_text, (text,), failure),
        call_ensures(bold_text, (text,), strong),
    ensures
        primary_text@ == "\x1b[1m\x1b[34m"@ + text@ + "\x1b[0m"@,
        faint@ == "\x1b[2m"@ + text@ + "\x1b[0m"@,
        failure@ == "\x1b[31m"@ + text@ + "\x1b[0m"@,
        strong@ == "\x1b[1m"@ + text@ + "\x1b[0m"@,
{
}

/// An entry is purple in focus, else green where it is checked, else faint.
pub proof fn law_entries_show_their_state(text: &str, focused: bool, checked: bool, r: String)
    requires
        call_ensures(style_entry, (text, focused, checked), r),
    ensures
        focused ==> r@ == "\x1b[1m\x1b[35m"@ + text@ + "\x1b[0m"@,
        !focused && checked ==> r@ == "\x1b[1m\x1b[32m"@ + text@ + "\x1b[0m"@,
        !focused && !checked ==> r@ == "\x1b[2m"@ + text@ + "\x1b[0m"@,
{
}

/// The bar is blue, purple while planning, and green while chatting.
pub proof fn law_bars_show_the_mode(mode: AgentMode, bar: String, prompt: String)
    requires
        call_ensures(submitted_echo_bar, (mode,), bar),
        call_ensures(input_prompt_bar, (mode,), prompt),
    ensures
        mode is Normal ==> bar@ == "\x1b[1m\x1b[34m┃\x1b[0m"@,
        mode is Plan ==> bar@ == "\x1b[1m\x1b[35m┃\x1b[0m"@,
        mode is Chat ==> bar@ == "\x1b[1m\x1b[32m┃\x1b[0m"@,
        prompt@ == bar@ + " "@,
{
}

/// A message stands between two bars, and each of its rows behind one; a message
/// of one short line is three rows.
pub proof fn law_messages_stand_between_bars(mode: AgentMode, input: &str, cols: usize, r: Vec<String>)
    requires
        call_ensures(submitted_echo_lines, (mode, input, cols), r),
    ensures
        r@.len() >= 2,
        r@[0]@ == bar_of(mode),
        r@[r@.len() - 1]@ == bar_of(mode),
        input@.len() == 0 ==> r@.len() == 3 && r@[1]@ == bar_of(mode) + " "@ + colorized(
            Seq::<char>::empty(),
        ),
        cols > 4 && wrapped(input@, (cols - 3) as nat) == seq![input@] && !input@.contains('\n')
            && input@.len() > 0 ==> r@.len() == 3 && r@[1]@ == bar_of(mode) + " "@ + colorized(
            input@,
        ),
{
    let lines = split_at_char(input@, '\n');
    let n = r@.len() as int;
    assert(texts(r@).len() == n);
    assert(texts(r@)[0] == r@[0]@);
    assert(texts(r@)[n - 1] == r@[n - 1]@);
    if !input@.contains('\n') {
        crate::text::law_pieces_of_one_line(input@, '\n');
        reveal_with_fuel(echo_rows_before, 2);
        let rows = echo_rows(input@, echo_width(cols as int));
        let shown = rows.map_values(|row: Seq<char>| echo_row(mode, row));
        assert(echo_rows_before(mode, lines, 1, echo_width(cols as int)) =~= shown);
        if rows.len() == 1 {
            assert(texts(r@) =~= seq![bar_of(mode), shown[0], bar_of(mode)]);
            assert(texts(r@)[1] == r@[1]@);
        }
    }
}

/// Messages are written with an empty line before them on demand, one between
/// each two, and one behind them.
pub proof fn law_messages_are_set_apart(first: (Seq<char>, AgentMode), second: (Seq<char>, AgentMode), cols: int)
    ensures
        committed_text(seq![first], false, cols) == ended_lines(echo_of(first.1, first.0, cols))
            + seq!['\n'],
        committed_text(seq![first], true, cols) == seq!['\n'] + ended_lines(
            echo_of(first.1, first.0, cols),
        ) + seq!['\n'],
        committed_text(seq![first, second], false, cols) == ended_lines(
            echo_of(first.1, first.0, cols),
        ) + seq!['\n'] + ended_lines(echo_of(second.1, second.0, cols)) + seq!['\n'],
{
    reveal_with_fuel(messages_before, 3);
    let one = ended_lines(echo_of(first.1, first.0, cols));
    assert(Seq::<char>::empty() + Seq::<char>::empty() + one =~= one);
    assert(Seq::<char>::empty() + one =~= one);
    assert(messages_before(seq![first], 1, cols) =~= one);
    assert(messages_before(seq![first, second], 1, cols) =~= one);
    assert(Seq::<char>::empty() + messages_before(seq![first, second], 2, cols)
        =~= messages_before(seq![first, second], 2, cols));
}

/// Each line is ended by a line feed.
pub proof fn law_lines_are_ended(lines: Seq<Seq<char>>, line: Seq<char>)
    ensures
        ended_lines(Seq::empty()).len() == 0,
        ended_lines(lines.push(line)) == ended_lines(lines) + line + seq!['\n'],
{
    assert(lines.push(line).drop_last() =~= lines);
}

/// A message that waits is echoed with its mark under it; the next one follows
/// behind an empty line.
pub proof fn law_waiting_messages_carry_a_mark(
    lang: Lang,
    prompts: Seq<QueuedPrompt>,
    n: int,
    mode: AgentMode,
    cols: int,
)
    requires
        0 < n <= prompts.len(),
    ensures
        n == 1 ==> queued_before(lang, prompts, n, mode, cols) == echo_of(
            mode,
            prompts[0].display_content@,
            cols,
        ) + seq![bar_of(mode) + " "@ + primary(pick(lang, "Queued"@, "排队中"@))],
        n > 1 ==> queued_before(lang, prompts, n, mode, cols) == queued_before(
            lang,
            prompts,
            n - 1,
            mode,
            cols,
        ) + seq![Seq::<char>::empty()] + echo_of(mode, prompts[n - 1].display_content@, cols)
            + seq![bar_of(mode) + " "@ + primary(pick(lang, "Queued"@, "排队中"@))],
{
    if n == 1 {
        let none = Seq::<Seq<char>>::empty();
        let shown = echo_of(mode, prompts[0].display_content@, cols);
        assert(queued_before(lang, prompts, 0, mode, cols) == none);
        assert(none + none + shown =~= shown);
    }
}

/// The hint about keys stands faint behind the bar, cut to the room beside it.
pub proof fn law_hint_stands_beside_the_bar(lang: Lang, mode: AgentMode, cols: usize, r: String, room: usize)
    requires
        call_ensures(repl_shortcut_hint_line, (lang, mode, cols), r),
        call_ensures(width_beside_bar, (mode, cols), room),
    ensures
        room >= 1,
        cols > width_of(bar_of(mode) + " "@) ==> room == cols - width_of(bar_of(mode) + " "@),
        r@ == bar_of(mode) + " "@ + ("\x1b[2m"@ + truncated(
            pick(
                lang,
                "Tab switch mode; Shift+Enter newline; Ctrl+J newline; Ctrl+V paste clipboard"@,
                "Tab 切换模式；Shift+Enter 换行；Ctrl+J 换行；Ctrl+V 粘贴剪贴板"@,
            ),
            room as nat,
        ) + "\x1b[0m"@),
{
}

} // verus!
