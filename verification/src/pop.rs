//! Popping turns out of the context: how many, which, and the menu to choose
//! them in.
use crate::clock::{is_local_time, is_rfc3339, local_time};
use crate::echo::{dim, dim_text, enclosed, entry_text, style_entry};
use crate::json::{flag_member, member, Json};
use crate::lang::{pick, t, Lang};
use crate::layout::{at_least_one, capped, not_negative};
use crate::menu::{
    draw_menu, menu_columns, menu_ops, menu_width, nothing_found, shown_count, Menu, MenuState,
};
use crate::remote::{count_or, count_or_zero};
use crate::sanitize::{strip_terminal_control_sequences, stripped};
use crate::screen::{ops, TerminalOp};
use crate::text::{
    decimal, decimal_text, join, joined, lines, lines_of, number_of, parse_number, run_of, spaces,
    texts, trim, trimmed, words, words_of,
};
use crate::width::{truncate_visible_width, truncated, visible_width, width_of};
use vstd::prelude::*;
use vstd::string::*;

verus! {

/// What popping came to.
#[derive(Clone, Copy, Debug, PartialEq, Eq, Structural)]
pub struct PopOutcome {
    pub turns: usize,
    pub archived: bool,
}

pub open spec fn zero_count_note(lang: Lang) -> Seq<char> {
    pick(lang, "pop count must be greater than zero"@, "pop 数量必须大于 0"@)
}

pub fn validate_pop_count(lang: Lang, count: usize) -> (r: Result<usize, String>)
    ensures
        match r {
            Ok(n) => count > 0 && n == count,
            Err(note) => count == 0 && note@ == zero_count_note(lang),
        },
{
    if count == 0 {
        return Err(
            t(lang, "pop count must be greater than zero", "pop 数量必须大于 0").to_owned(),
        );
    }
    Ok(count)
}

pub open spec fn no_number_note(lang: Lang) -> Seq<char> {
    pick(lang, "pop count must be a positive integer"@, "pop 数量必须是正整数"@)
}

/// What a count reads as, or why it does not.
pub open spec fn is_count_result(lang: Lang, value: Seq<char>, r: Result<usize, String>) -> bool {
    match (number_of(value), r) {
        (Some(n), Ok(m)) => n > 0 && m == n,
        (Some(n), Err(note)) => n == 0 && note@ == zero_count_note(lang),
        (None, Err(note)) => note@ == no_number_note(lang),
        (None, Ok(_)) => false,
    }
}

pub fn parse_positive_pop_count(lang: Lang, value: &str) -> (r: Result<usize, String>)
    ensures
        is_count_result(lang, value@, r),
{
    match parse_number(value) {
        Some(count) => validate_pop_count(lang, count),
        None => Err(
            t(lang, "pop count must be a positive integer", "pop 数量必须是正整数").to_owned(),
        ),
    }
}

/// The argument of `/pop`: none, or one count, or why it is neither.
pub open spec fn pop_argument(lang: Lang, args: Seq<char>) -> Result<Option<usize>, Seq<char>> {
    let parts = words_of(args);
    if parts.len() == 0 {
        Ok(None)
    } else if parts.len() > 1 {
        Err(pick(lang, "usage: /pop [positive integer]"@, "用法：/pop [正整数]"@))
    } else {
        match number_of(parts[0]) {
            Some(n) => if n > 0 {
                Ok(Some(n))
            } else {
                Err(zero_count_note(lang))
            },
            None => Err(no_number_note(lang)),
        }
    }
}

pub fn parse_repl_pop_count(lang: Lang, args: &str) -> (r: Result<Option<usize>, String>)
    ensures
        match (r, pop_argument(lang, args@)) {
            (Ok(a), Ok(b)) => a == b,
            (Err(a), Err(b)) => a@ == b,
            _ => false,
        },
{
    let parts = words(args);
    assert(texts(parts@).len() == parts@.len());
    if parts.len() == 0 {
        return Ok(None);
    }
    if parts.len() > 1 {
        return Err(
            t(lang, "usage: /pop [positive integer]", "用法：/pop [正整数]").to_owned(),
        );
    }
    assert(texts(parts@)[0] == parts@[0]@);
    match parse_positive_pop_count(lang, parts[0].as_str()) {
        Ok(count) => Ok(Some(count)),
        Err(note) => Err(note),
    }
}

/// What the daemon says that popping came to.
pub open spec fn daemon_outcome(data: Json) -> Option<PopOutcome> {
    let turns = count_or_zero(data, "turns"@);
    if turns > 0 {
        Some(PopOutcome { turns: turns as usize, archived: flag_member(data, "archived"@) })
    } else {
        None
    }
}

pub fn run_pop_via_daemon(data: &Json) -> (r: Option<PopOutcome>)
    ensures
        r == daemon_outcome(*data),
{
    let turns = count_or(data, "turns");
    if turns > 0 {
        Some(PopOutcome { turns: turns as usize, archived: data.flag("archived") })
    } else {
        None
    }
}

/// Which turns a request is for.
#[derive(Debug)]
pub enum PopRequest {
    /// The oldest, at most so many.
    Oldest(usize),
    /// Those that are chosen in the menu.
    Choose,
}

/// A count pops the oldest turns; without one they are chosen in the menu,
/// which takes a terminal.
pub fn execute_pop(lang: Lang, count: Option<usize>, interactive: bool) -> (r: Result<
    PopRequest,
    String,
>)
    ensures
        match (count, r) {
            (Some(n), Ok(PopRequest::Oldest(m))) => n > 0 && m == n,
            (Some(n), Err(note)) => n == 0 && note@ == zero_count_note(lang),
            (None, Ok(PopRequest::Choose)) => interactive,
            (None, Err(note)) => !interactive && note@ == pick(
                lang,
                "interactive pop requires a terminal; use `laozhou pop <count>`"@,
                "交互 pop 需要终端；请使用 `laozhou pop <数量>`"@,
            ),
            _ => false,
        },
{
    match count {
        Some(n) => match validate_pop_count(lang, n) {
            Ok(n) => Ok(PopRequest::Oldest(n)),
            Err(note) => Err(note),
        },
        None => if interactive {
            Ok(PopRequest::Choose)
        } else {
            Err(
                t(
                    lang,
                    "interactive pop requires a terminal; use `laozhou pop <count>`",
                    "交互 pop 需要终端；请使用 `laozhou pop <数量>`",
                ).to_owned(),
            )
        },
    }
}

/// The entries among the first `n` whose mark is set.
pub open spec fn marked_among(ids: Seq<Seq<char>>, active: Seq<bool>, n: int) -> Seq<Seq<char>>
    decreases n,
{
    if n <= 0 {
        Seq::empty()
    } else if active[n - 1] {
        marked_among(ids, active, n - 1).push(ids[n - 1])
    } else {
        marked_among(ids, active, n - 1)
    }
}

/// The turns that were chosen, oldest first.
pub fn chosen_turns(ids: &Vec<String>, active: &Vec<bool>) -> (r: Vec<String>)
    ensures
        texts(r@) == marked_turns(texts(ids@), active@),
{
    let ghost all = texts(ids@);
    let mut out: Vec<String> = Vec::new();
    let mut i: usize = 0;
    assert(texts(out@) =~= marked_among(all, active@, 0));
    while i < ids.len() && i < active.len()
        invariant
            i <= ids@.len(),
            i <= active@.len(),
            all == texts(ids@),
            texts(out@) == marked_among(all, active@, i as int),
        decreases ids@.len() - i,
    {
        assert(all[i as int] == ids@[i as int]@);
        if active[i] {
            let id = ids[i].clone();
            proof {
                crate::text::lemma_texts_push(out@, id);
            }
            out.push(id);
        }
        i = i + 1;
    }
    out
}

/// Where turns are popped: in a process without a daemon, from the command line
/// through the daemon, or at the prompt.
#[derive(Clone, Copy, Debug, PartialEq, Eq, Structural)]
pub enum PopPath {
    Direct,
    Daemon,
    Prompt,
}

/// What popping goes on with.
#[derive(Debug)]
pub enum PopStep {
    /// Say that there is nothing to pop.
    NothingToPop,
    /// Let turns be marked in the menu.
    OpenMenu,
    Leave,
    Pop(Vec<String>),
}

/// What popping goes on with, as text.
pub enum PopMove {
    NothingToPop,
    OpenMenu,
    Leave,
    Pop(Seq<Seq<char>>),
}

pub open spec fn move_of(step: PopStep) -> PopMove {
    match step {
        PopStep::NothingToPop => PopMove::NothingToPop,
        PopStep::OpenMenu => PopMove::OpenMenu,
        PopStep::Leave => PopMove::Leave,
        PopStep::Pop(ids) => PopMove::Pop(texts(ids@)),
    }
}

/// The turns with a mark, oldest first.
pub open spec fn marked_turns(ids: Seq<Seq<char>>, marks: Seq<bool>) -> Seq<Seq<char>> {
    marked_among(ids, marks, capped(ids.len() as int, marks.len() as int))
}

/// What a request goes on with, given the turns that there are and what the menu
/// ended with: `None` before it was opened, `Some(None)` where it was left. Only
/// the prompt passes on that no turns are meant; a menu closed without a mark is
/// left in silence where there is no daemon.
pub open spec fn pop_move(
    request: PopRequest,
    ids: Seq<Seq<char>>,
    marks: Option<Option<Vec<bool>>>,
    path: PopPath,
) -> PopMove {
    match request {
        PopRequest::Oldest(_) => if ids.len() == 0 && path != PopPath::Prompt {
            PopMove::NothingToPop
        } else {
            PopMove::Pop(ids)
        },
        PopRequest::Choose => if ids.len() == 0 {
            PopMove::NothingToPop
        } else {
            match marks {
                None => PopMove::OpenMenu,
                Some(None) => PopMove::Leave,
                Some(Some(marks)) => {
                    let chosen = marked_turns(ids, marks@);
                    if chosen.len() > 0 {
                        PopMove::Pop(chosen)
                    } else {
                        match path {
                            PopPath::Direct => PopMove::Leave,
                            PopPath::Daemon => PopMove::NothingToPop,
                            PopPath::Prompt => PopMove::Pop(chosen),
                        }
                    }
                },
            }
        },
    }
}

/// Takes a request one step on, before the menu and behind it.
pub fn pop_step(
    request: &PopRequest,
    ids: Vec<String>,
    marks: Option<Option<Vec<bool>>>,
    path: PopPath,
) -> (r: PopStep)
    ensures
        move_of(r) == pop_move(*request, texts(ids@), marks, path),
{
    assert(texts(ids@).len() == ids@.len());
    match request {
        PopRequest::Oldest(_) => if ids.len() == 0 && path != PopPath::Prompt {
            PopStep::NothingToPop
        } else {
            PopStep::Pop(ids)
        },
        PopRequest::Choose => {
            if ids.len() == 0 {
                return PopStep::NothingToPop;
            }
            match marks {
                None => PopStep::OpenMenu,
                Some(None) => PopStep::Leave,
                Some(Some(marks)) => {
                    let chosen = chosen_turns(&ids, &marks);
                    assert(texts(chosen@).len() == chosen@.len());
                    if chosen.len() > 0 {
                        PopStep::Pop(chosen)
                    } else {
                        match path {
                            PopPath::Direct => PopStep::Leave,
                            PopPath::Daemon => PopStep::NothingToPop,
                            PopPath::Prompt => PopStep::Pop(chosen),
                        }
                    }
                },
            }
        },
    }
}

/// What popping so many turns came to; nothing where there were none. Popped
/// turns are archived where both settings are on.
pub fn pop_outcome(turns: usize, memory_enabled: bool, evicted_context_enabled: bool) -> (r: Option<
    PopOutcome,
>)
    ensures
        r == if turns == 0 {
            None
        } else {
            Some(PopOutcome { turns, archived: memory_enabled && evicted_context_enabled })
        },
{
    if turns == 0 {
        None
    } else {
        Some(PopOutcome { turns, archived: memory_enabled && evicted_context_enabled })
    }
}

/// What the user is told about popped turns.
pub open spec fn outcome_note(lang: Lang, outcome: PopOutcome) -> Seq<char> {
    match lang {
        Lang::Zh => "已弹出 "@ + decimal(outcome.turns as nat) + if outcome.archived {
            " 轮 · 已归档"@
        } else {
            " 轮 · 未归档（弹出上下文归档已关闭）"@
        },
        Lang::En => "popped "@ + decimal(outcome.turns as nat) + (if outcome.turns == 1 {
            " turn"@
        } else {
            " turns"@
        }) + if outcome.archived {
            " · archived"@
        } else {
            " · not archived (evicted-context archiving is disabled)"@
        },
    }
}

pub fn repl_pop_outcome_text(lang: Lang, outcome: PopOutcome) -> (r: String)
    ensures
        r@ == dim(outcome_note(lang, outcome)) + "\n"@,
{
    let number = decimal_text(outcome.turns as u64);
    let mut note = t(lang, "popped ", "已弹出 ").to_owned();
    note.append(number.as_str());
    match lang {
        Lang::Zh => {
            note.append(
                if outcome.archived {
                    " 轮 · 已归档"
                } else {
                    " 轮 · 未归档（弹出上下文归档已关闭）"
                },
            );
        },
        Lang::En => {
            note.append(
                if outcome.turns == 1 {
                    " turn"
                } else {
                    " turns"
                },
            );
            note.append(
                if outcome.archived {
                    " · archived"
                } else {
                    " · not archived (evicted-context archiving is disabled)"
                },
            );
        },
    }
    let mut r = dim_text(note.as_str());
    r.append("\n");
    r
}

pub fn repl_nothing_to_pop_text(lang: Lang) -> (r: String)
    ensures
        r@ == dim(
            pick(
                lang,
                "no conversation turns are available to pop"@,
                "没有可弹出的上下文轮次"@,
            ),
        ) + "\n"@,
{
    let mut r = dim_text(
        t(
            lang,
            "no conversation turns are available to pop",
            "没有可弹出的上下文轮次",
        ),
    );
    r.append("\n");
    r
}

/// What `pop` prints at its end.
pub fn run_pop(lang: Lang, outcome: Option<PopOutcome>) -> (r: Option<String>)
    ensures
        match (outcome, r) {
            (Some(outcome), Some(text)) => text@ == dim(outcome_note(lang, outcome)) + "\n"@,
            (None, None) => true,
            _ => false,
        },
{
    match outcome {
        Some(outcome) => Some(repl_pop_outcome_text(lang, outcome)),
        None => None,
    }
}

#[derive(Clone, Copy, Debug, PartialEq, Eq, Structural)]
pub enum TurnStatus {
    Running,
    Completed,
    Interrupted,
}

/// A turn of a conversation, as far as the menu shows it.
#[derive(Debug)]
pub struct Turn {
    pub turn_id: String,
    pub user_timestamp: String,
    pub user_content: String,
    pub assistant_content: String,
    pub status: TurnStatus,
}

/// The first line that is not blank, without the white space around it.
pub open spec fn first_line(lines: Seq<Seq<char>>) -> Option<Seq<char>>
    decreases lines.len(),
{
    if lines.len() == 0 {
        None
    } else if trimmed(lines[0]).len() > 0 {
        Some(trimmed(lines[0]))
    } else {
        first_line(lines.drop_first())
    }
}

/// A text on one line: the words of its first line that is not blank.
pub open spec fn summary_of(lang: Lang, content: Seq<char>) -> Seq<char> {
    let line = match first_line(lines_of(stripped(content))) {
        Some(line) => line,
        None => pick(lang, "(empty)"@, "（空）"@),
    };
    joined(words_of(line), " "@)
}

pub fn pop_menu_summary(lang: Lang, content: &str) -> (r: String)
    ensures
        r@ == summary_of(lang, content@),
{
    let clean = strip_terminal_control_sequences(content);
    let all = lines(clean.as_str());
    let ghost want = lines_of(stripped(content@));
    let mut i: usize = 0;
    assert(want.skip(0) =~= want);
    while i < all.len()
        invariant
            i <= all@.len(),
            texts(all@) == want,
            want == lines_of(stripped(content@)),
            first_line(want) == first_line(want.skip(i as int)),
        decreases all@.len() - i,
    {
        assert(want.skip(i as int)[0] == all@[i as int]@);
        assert(want.skip(i as int).drop_first() =~= want.skip(i + 1));
        let line = trim(all[i].as_str());
        if !line.is_empty() {
            let parts = words(line);
            return join(&parts, " ");
        }
        i = i + 1;
    }
    assert(texts(all@).len() == all@.len());
    let parts = words(t(lang, "(empty)", "（空）"));
    join(&parts, " ")
}

/// What is shown of the reply of a turn.
pub open spec fn reply_summary(lang: Lang, turn: Turn) -> Seq<char> {
    if turn.status == TurnStatus::Interrupted {
        pick(lang, "(reply interrupted)"@, "（回复已中断）"@)
    } else {
        summary_of(lang, turn.assistant_content@)
    }
}

pub fn pop_menu_assistant_summary(lang: Lang, turn: &Turn) -> (r: String)
    ensures
        r@ == reply_summary(lang, *turn),
{
    if turn.status == TurnStatus::Interrupted {
        t(lang, "(reply interrupted)", "（回复已中断）").to_owned()
    } else {
        pop_menu_summary(lang, turn.assistant_content.as_str())
    }
}

/// `r` is how a time is shown: a date and time as it is in the time zone of the
/// machine, to the minute, and anything else like any text.
pub open spec fn is_shown_time(lang: Lang, timestamp: Seq<char>, r: Seq<char>) -> bool {
    if is_rfc3339(timestamp) {
        is_local_time(timestamp, "%Y-%m-%d %H:%M"@, r)
    } else {
        r == summary_of(lang, timestamp)
    }
}

pub fn pop_menu_timestamp(lang: Lang, timestamp: &str) -> (r: String)
    ensures
        is_shown_time(lang, timestamp@, r@),
{
    match local_time(timestamp, "%Y-%m-%d %H:%M") {
        Some(time) => time,
        None => pop_menu_summary(lang, timestamp),
    }
}

/// The three lines of a turn, given the time to show for it.
pub open spec fn turn_lines(
    lang: Lang,
    turn: Turn,
    time: Seq<char>,
    focused: bool,
    checked: bool,
    width: nat,
) -> Seq<Seq<char>> {
    let first = (if focused {
        "›"@
    } else {
        " "@
    }) + " "@ + (if checked {
        "[*]"@
    } else {
        "[ ]"@
    }) + " "@ + time;
    let second = "      "@ + pick(lang, "You: "@, "你："@) + summary_of(lang, turn.user_content@);
    let third = "      "@ + pick(lang, "AI: "@, "AI："@) + reply_summary(lang, turn);
    seq![
        entry_text(truncated(first, width), focused, checked),
        entry_text(truncated(second, width), focused, checked),
        entry_text(truncated(third, width), focused, checked),
    ]
}

pub fn turn_lines_at(
    lang: Lang,
    turn: &Turn,
    time: &str,
    focused: bool,
    checked: bool,
    width: usize,
) -> (r: Vec<String>)
    ensures
        texts(r@) == turn_lines(lang, *turn, time@, focused, checked, width as nat),
        r@.len() == 3,
{
    let mut first = (if focused {
        "›"
    } else {
        " "
    }).to_owned();
    first.append(" ");
    first.append(
        if checked {
            "[*]"
        } else {
            "[ ]"
        },
    );
    first.append(" ");
    first.append(time);
    let said = pop_menu_summary(lang, turn.user_content.as_str());
    let second = enclosed("      ", t(lang, "You: ", "你："), said.as_str());
    let replied = pop_menu_assistant_summary(lang, turn);
    let third = enclosed("      ", t(lang, "AI: ", "AI："), replied.as_str());
    let a = truncate_visible_width(first.as_str(), width);
    let b = truncate_visible_width(second.as_str(), width);
    let c = truncate_visible_width(third.as_str(), width);
    let mut out: Vec<String> = Vec::new();
    out.push(style_entry(a.as_str(), focused, checked));
    out.push(style_entry(b.as_str(), focused, checked));
    out.push(style_entry(c.as_str(), focused, checked));
    assert(texts(out@) =~= turn_lines(lang, *turn, time@, focused, checked, width as nat));
    out
}

/// `r` holds the lines of a turn, with whatever time the machine shows for it.
pub open spec fn are_turn_lines(
    lang: Lang,
    turn: Turn,
    focused: bool,
    checked: bool,
    width: nat,
    r: Seq<Seq<char>>,
) -> bool {
    exists|time: Seq<char>| #[trigger]
        is_shown_time(lang, turn.user_timestamp@, time) && r == turn_lines(
            lang,
            turn,
            time,
            focused,
            checked,
            width,
        )
}

pub fn pop_menu_turn_lines(lang: Lang, turn: &Turn, focused: bool, checked: bool, width: usize) -> (r:
    Vec<String>)
    ensures
        are_turn_lines(lang, *turn, focused, checked, width as nat, texts(r@)),
        r@.len() == 3,
{
    let time = pop_menu_timestamp(lang, turn.user_timestamp.as_str());
    let r = turn_lines_at(lang, turn, time.as_str(), focused, checked, width);
    assert(is_shown_time(lang, turn.user_timestamp@, time@));
    r
}

/// What a turn is searched by.
pub fn pop_search_text(lang: Lang, turn: &Turn) -> (r: String)
    ensures
        exists|time: Seq<char>| #[trigger]
            is_shown_time(lang, turn.user_timestamp@, time) && r@ == time + " "@ + summary_of(
                lang,
                turn.user_content@,
            ) + " "@ + reply_summary(lang, *turn),
{
    let time = pop_menu_timestamp(lang, turn.user_timestamp.as_str());
    let said = pop_menu_summary(lang, turn.user_content.as_str());
    let replied = pop_menu_assistant_summary(lang, turn);
    let mut r = time.clone();
    r.append(" ");
    r.append(said.as_str());
    r.append(" ");
    r.append(replied.as_str());
    assert(is_shown_time(lang, turn.user_timestamp@, time@));
    r
}

pub open spec fn pop_title(lang: Lang, query: Seq<char>) -> Seq<char> {
    let title = pick(lang, "Pop context"@, "弹出上下文"@);
    if trimmed(query).len() == 0 {
        title
    } else {
        title + " · "@ + pick(lang, "Search"@, "搜索"@) + ": "@ + trimmed(query)
    }
}

pub open spec fn pop_count(lang: Lang, selected: nat, total: nat) -> Seq<char> {
    pick(lang, "selected "@, "已选 "@) + decimal(selected) + " / "@ + decimal(total)
}

/// The title line: the count at the right edge, and as much of the title before
/// it as fits.
pub open spec fn pop_header(lang: Lang, query: Seq<char>, selected: nat, total: nat, width: int) -> Seq<
    char,
> {
    let count = pop_count(lang, selected, total);
    if width_of(count) >= width {
        dim(truncated(count, width as nat))
    } else {
        let title = truncated(pop_title(lang, query), (width - (width_of(count) + 1)) as nat);
        let gap = at_least_one(not_negative(width - (width_of(title) + width_of(count))));
        "\x1b[1m"@ + title + "\x1b[0m"@ + run_of(' ', gap as nat) + dim(count)
    }
}

pub fn pop_menu_header(lang: Lang, query: &str, selected: usize, total: usize, width: usize) -> (r:
    String)
    ensures
        r@ == pop_header(lang, query@, selected as nat, total as nat, width as int),
{
    let wanted = trim(query);
    let mut title = t(lang, "Pop context", "弹出上下文").to_owned();
    if !wanted.is_empty() {
        title.append(" · ");
        title.append(t(lang, "Search", "搜索"));
        title.append(": ");
        title.append(wanted);
    }
    let chosen = decimal_text(selected as u64);
    let all = decimal_text(total as u64);
    let mut count = t(lang, "selected ", "已选 ").to_owned();
    count.append(chosen.as_str());
    count.append(" / ");
    count.append(all.as_str());
    let count_width = visible_width(count.as_str());
    if count_width >= width {
        let cut = truncate_visible_width(count.as_str(), width);
        return dim_text(cut.as_str());
    }
    let title = truncate_visible_width(title.as_str(), width - (count_width + 1));
    let used = visible_width(title.as_str()).saturating_add(count_width);
    let room = width.saturating_sub(used);
    let gap: usize = if room == 0 {
        1
    } else {
        room
    };
    let filling = spaces(gap);
    let faint = dim_text(count.as_str());
    let mut r = enclosed("\x1b[1m", title.as_str(), "\x1b[0m");
    r.append(filling.as_str());
    r.append(faint.as_str());
    r
}

pub open spec fn pop_help(lang: Lang) -> Seq<char> {
    pick(
        lang,
        "Up/Down or j/k move · Tab toggle · Enter pop · Esc/q cancel"@,
        "↑/↓ 或 j/k 移动 · Tab 勾选 · Enter 弹出 · Esc/q 取消"@,
    )
}

pub fn pop_menu_help_line(lang: Lang, width: usize) -> (r: String)
    ensures
        r@ == dim(truncated(pop_help(lang), width as nat)),
{
    let line = truncate_visible_width(
        t(
            lang,
            "Up/Down or j/k move · Tab toggle · Enter pop · Esc/q cancel",
            "↑/↓ 或 j/k 移动 · Tab 勾选 · Enter 弹出 · Esc/q 取消",
        ),
        width,
    );
    dim_text(line.as_str())
}

/// The turns that fit on the screen: five at most, at least one.
pub open spec fn turns_shown(count: int, terminal_rows: int) -> int {
    at_least_one(
        capped(capped(count, 5), at_least_one(not_negative(terminal_rows - 2) / 3)),
    )
}

/// The rows of the menu: three for each turn, and two around them.
pub fn inline_pop_lines(item_count: usize, terminal_rows: u16) -> (r: u16)
    ensures
        r == 3 * turns_shown(item_count as int, terminal_rows as int) + 2,
{
    let available: u16 = terminal_rows.saturating_sub(2) / 3;
    let available: usize = if available == 0 {
        1
    } else {
        available as usize
    };
    let few: usize = if item_count < 5 {
        item_count
    } else {
        5
    };
    let fitting: usize = if few < available {
        few
    } else {
        available
    };
    let shown: usize = if fitting == 0 {
        1
    } else {
        fitting
    };
    (shown as u16) * 3 + 2
}

/// How many marks are set.
pub open spec fn marks(active: Seq<bool>, n: int) -> nat
    decreases n,
{
    if n <= 0 {
        0
    } else {
        marks(active, n - 1) + if active[n - 1] {
            1nat
        } else {
            0nat
        }
    }
}

fn count_marks(active: &Vec<bool>) -> (r: usize)
    ensures
        r == marks(active@, active@.len() as int),
{
    let mut n: usize = 0;
    let mut i: usize = 0;
    while i < active.len()
        invariant
            i <= active@.len(),
            n <= i,
            n == marks(active@, i as int),
        decreases active@.len() - i,
    {
        if active[i] {
            n = n + 1;
        }
        i = i + 1;
    }
    n
}

/// `body` holds the lines of the turns that are shown, three for each.
pub open spec fn is_pop_body(
    lang: Lang,
    s: MenuState,
    turns: Seq<Turn>,
    found: Seq<usize>,
    rows: int,
    width: nat,
    body: Seq<Seq<char>>,
) -> bool {
    if found.len() == 0 {
        body == seq![nothing_found(lang)]
    } else {
        let n = shown_count(found.len() as int, s.scroll, rows);
        &&& body.len() == 3 * n
        &&& forall|k: int|
            0 <= k < n ==> are_turn_lines(
                lang,
                turns[found[s.scroll + k] as int],
                s.scroll + k == s.selected,
                found[s.scroll + k] < s.active.len() && s.active[found[s.scroll + k] as int],
                width,
                #[trigger] body.subrange(3 * k, 3 * k + 3),
            )
    }
}

impl Menu {
    fn pop_lines(
        &self,
        lang: Lang,
        turns: &Vec<Turn>,
        found: &Vec<usize>,
        rows: usize,
        width: usize,
    ) -> (r: Vec<String>)
        requires
            1 <= rows <= 65535,
            forall|k: int| 0 <= k < found@.len() ==> (#[trigger] found@[k]) < turns@.len(),
        ensures
            is_pop_body(
                lang,
                self@,
                turns@,
                found@,
                rows as int,
                width as nat,
                texts(r@),
            ),
            r@.len() <= 3 * rows,
    {
        let mut out: Vec<String> = Vec::new();
        if found.is_empty() {
            out.push(dim_text(t(lang, "no matches", "没有匹配项")));
            assert(texts(out@) =~= seq![nothing_found(lang)]);
            return out;
        }
        let total: usize = found.len();
        let left = total.saturating_sub(self.scroll);
        let most: usize = if total < rows {
            total
        } else {
            rows
        };
        let n: usize = if left < most {
            left
        } else {
            most
        };
        assert(n == shown_count(found@.len() as int, self.scroll as int, rows as int));
        let mut k: usize = 0;
        while k < n
            invariant
                k <= n <= rows <= 65535,
                n > 0 ==> self.scroll + n <= total,
                total == found@.len(),
                forall|j: int| 0 <= j < found@.len() ==> (#[trigger] found@[j]) < turns@.len(),
                out@.len() == 3 * k,
                forall|j: int|
                    0 <= j < k ==> are_turn_lines(
                        lang,
                        turns@[found@[self.scroll + j] as int],
                        self.scroll + j == self.selected,
                        found@[self.scroll + j] < self.active@.len()
                            && self.active@[found@[self.scroll + j] as int],
                        width as nat,
                        #[trigger] texts(out@).subrange(3 * j, 3 * j + 3),
                    ),
            decreases n - k,
        {
            let at: usize = self.scroll + k;
            let index = found[at];
            let checked = index < self.active.len() && self.active[index];
            let mut more = pop_menu_turn_lines(
                lang,
                &turns[index],
                at == self.selected,
                checked,
                width,
            );
            let ghost before = out@;
            let ghost added = more@;
            out.append(&mut more);
            proof {
                assert(out@ =~= before + added);
                assert(texts(out@).subrange(3 * k, 3 * k + 3) =~= texts(added));
                assert forall|j: int| 0 <= j < k implies #[trigger] texts(out@).subrange(
                    3 * j,
                    3 * j + 3,
                ) == texts(before).subrange(3 * j, 3 * j + 3) by {
                    assert(texts(out@).subrange(3 * j, 3 * j + 3) =~= texts(before).subrange(
                        3 * j,
                        3 * j + 3,
                    ));
                }
            }
            k = k + 1;
        }
        out
    }

    /// Draws the menu of turns.
    pub fn draw_inline_pop(
        &self,
        lang: Lang,
        anchor: u16,
        lines: u16,
        cols: u16,
        turns: &Vec<Turn>,
        found: &Vec<usize>,
    ) -> (r: Vec<TerminalOp>)
        requires
            lines >= 5,
            anchor + lines <= 65535,
            forall|k: int| 0 <= k < found@.len() ==> (#[trigger] found@[k]) < turns@.len(),
        ensures
            ({
                let width = menu_width(cols as int);
                exists|body: Seq<Seq<char>>| #[trigger]
                    is_pop_body(
                        lang,
                        self@,
                        turns@,
                        found@,
                        (lines - 2) / 3,
                        width as nat,
                        body,
                    ) && ops(r@) == menu_ops(
                        anchor as int,
                        lines as int,
                        pop_header(
                            lang,
                            self@.query,
                            marks(self@.active, self@.active.len() as int),
                            turns@.len(),
                            width,
                        ),
                        body,
                        dim(truncated(pop_help(lang), width as nat)),
                    )
            }),
    {
        let width = menu_columns(cols);
        let rows: usize = ((lines - 2) / 3) as usize;
        let body = self.pop_lines(lang, turns, found, rows, width);
        let chosen = count_marks(&self.active);
        let header = pop_menu_header(lang, self.query.as_str(), chosen, turns.len(), width);
        let help = pop_menu_help_line(lang, width);
        let r = draw_menu(anchor, lines, header, &body, help);
        assert(rows as int == (lines - 2) / 3);
        assert(is_pop_body(
            lang,
            self@,
            turns@,
            found@,
            (lines - 2) / 3,
            menu_width(cols as int) as nat,
            texts(body@),
        ));
        r
    }
}

/// A count has to be a number above zero: any other text is refused, and zero
/// with its own note.
pub proof fn law_counts_are_positive(lang: Lang, value: &str, r: Result<usize, String>)
    requires
        call_ensures(parse_positive_pop_count, (lang, value), r),
    ensures
        r is Ok <==> number_of(value@) is Some && number_of(value@)->0 > 0,
        r matches Ok(n) ==> number_of(value@) == Some(n) && n > 0,
{
}

/// Without a word `/pop` opens the menu; with one it takes that many; with more
/// it is refused.
pub proof fn law_pop_takes_one_count(lang: Lang, args: &str, r: Result<Option<usize>, String>)
    requires
        call_ensures(parse_repl_pop_count, (lang, args), r),
    ensures
        words_of(args@).len() == 0 ==> r == Ok::<Option<usize>, String>(None),
        words_of(args@).len() > 1 ==> r is Err,
        words_of(args@).len() == 1 ==> (r is Ok <==> number_of(words_of(args@)[0]) is Some
            && number_of(words_of(args@)[0])->0 > 0),
        words_of(args@).len() == 1 && r is Ok ==> r->Ok_0 == number_of(words_of(args@)[0]),
{
}

/// The chosen turns are those with a mark and no others, in their order.
pub proof fn law_marked_turns_are_chosen(ids: Seq<Seq<char>>, marks: Seq<bool>, i: int, j: int)
    requires
        0 <= i < j < ids.len(),
        ids.len() == marks.len(),
        ids.no_duplicates(),
    ensures
        marks[i] <==> marked_turns(ids, marks).contains(ids[i]),
        marks[i] && marks[j] ==> marked_turns(ids, marks).index_of(ids[i]) < marked_turns(
            ids,
            marks,
        ).index_of(ids[j]),
        (forall|k: int| 0 <= k < marks.len() ==> !#[trigger] marks[k]) ==> marked_turns(
            ids,
            marks,
        ).len() == 0,
        (forall|k: int| 0 <= k < marks.len() ==> #[trigger] marks[k]) ==> marked_turns(ids, marks)
            == ids,
{
    let n = ids.len() as int;
    lemma_marked(ids, marks, n);
    lemma_marked_places(ids, marks, n);
    lemma_all_or_none(ids, marks, n);
    let r = marked_turns(ids, marks);
    if marks[i] && marks[j] {
        let a = rank(marks, i);
        let b = rank(marks, j);
        lemma_rank_grows(marks, i, j);
        assert(r[a] == ids[i] && r[b] == ids[j]);
        assert(r.no_duplicates());
        let x = r.index_of(ids[i]);
        let y = r.index_of(ids[j]);
        assert(r.contains(ids[i]) && r.contains(ids[j]));
        assert(r[x] == ids[i] && r[y] == ids[j]);
        assert(x == a && y == b);
    }
    assert(ids.take(n) =~= ids);
}

/// How many marks stand before the place `i`.
pub open spec fn rank(marks: Seq<bool>, i: int) -> int
    decreases i,
{
    if i <= 0 {
        0
    } else {
        rank(marks, i - 1) + if marks[i - 1] {
            1int
        } else {
            0int
        }
    }
}

proof fn lemma_rank_grows(marks: Seq<bool>, i: int, j: int)
    requires
        0 <= i < j <= marks.len(),
        marks[i],
    ensures
        rank(marks, i) < rank(marks, j),
        0 <= rank(marks, i),
    decreases j,
{
    if j == i + 1 {
        lemma_rank_positive(marks, i);
    } else {
        lemma_rank_grows(marks, i, j - 1);
    }
}

proof fn lemma_rank_positive(marks: Seq<bool>, i: int)
    ensures
        0 <= rank(marks, i),
    decreases i,
{
    if i > 0 {
        lemma_rank_positive(marks, i - 1);
    }
}

proof fn lemma_marked_places(ids: Seq<Seq<char>>, marks: Seq<bool>, n: int)
    requires
        0 <= n <= ids.len(),
        n <= marks.len(),
    ensures
        marked_among(ids, marks, n).len() == rank(marks, n),
        forall|k: int|
            0 <= k < n && marks[k] ==> 0 <= rank(marks, k) < rank(marks, n) && marked_among(
                ids,
                marks,
                n,
            )[#[trigger] rank(marks, k)] == ids[k],
    decreases n,
{
    if n > 0 {
        lemma_marked_places(ids, marks, n - 1);
        lemma_rank_positive(marks, n - 1);
    }
}

proof fn lemma_marked(ids: Seq<Seq<char>>, marks: Seq<bool>, n: int)
    requires
        0 <= n <= ids.len(),
        n <= marks.len(),
        ids.no_duplicates(),
    ensures
        marked_among(ids, marks, n).no_duplicates(),
        forall|k: int|
            0 <= k < ids.len() ==> (#[trigger] marked_among(ids, marks, n).contains(ids[k]) <==> k < n
                && marks[k]),
        forall|x: Seq<char>| #[trigger]
            marked_among(ids, marks, n).contains(x) ==> ids.take(n).contains(x),
    decreases n,
{
    let r = marked_among(ids, marks, n);
    if n > 0 {
        lemma_marked(ids, marks, n - 1);
        let before = marked_among(ids, marks, n - 1);
        assert forall|x: Seq<char>| #[trigger] r.contains(x) implies ids.take(n).contains(x) by {
            if before.contains(x) {
                let prefix = ids.take(n - 1);
                let k = choose|k: int| 0 <= k < prefix.len() && prefix[k] == x;
                assert(ids.take(n)[k] == x);
            } else {
                assert(r.last() == x || before.contains(x)) by {
                    let k = choose|k: int| 0 <= k < r.len() && r[k] == x;
                    if k < before.len() {
                        assert(before[k] == x);
                    }
                }
                assert(ids.take(n)[n - 1] == x);
            }
        }
        assert forall|k: int| 0 <= k < ids.len() implies (#[trigger] r.contains(ids[k]) <==> k < n
            && marks[k]) by {
            assert(before.contains(ids[k]) <==> k < n - 1 && marks[k]);
            if marks[n - 1] {
                assert(r == before.push(ids[n - 1]));
                if r.contains(ids[k]) {
                    let at = choose|at: int| 0 <= at < r.len() && r[at] == ids[k];
                    if at < before.len() {
                        assert(before[at] == ids[k]);
                    } else {
                        assert(ids[n - 1] == ids[k]);
                    }
                }
                if before.contains(ids[k]) {
                    let at = choose|at: int| 0 <= at < before.len() && before[at] == ids[k];
                    assert(r[at] == ids[k]);
                }
                if k == n - 1 {
                    assert(r[before.len() as int] == ids[k]);
                }
            }
        }
        if marks[n - 1] {
            assert(!before.contains(ids[n - 1]));
            assert forall|a: int, b: int| 0 <= a < r.len() && 0 <= b < r.len() && a != b implies r[a]
                != r[b] by {
                if a < before.len() {
                    assert(before[a] == r[a]);
                    assert(before.contains(r[a]));
                }
                if b < before.len() {
                    assert(before[b] == r[b]);
                    assert(before.contains(r[b]));
                }
            }
        }
    }
}

proof fn lemma_all_or_none(ids: Seq<Seq<char>>, marks: Seq<bool>, n: int)
    requires
        0 <= n <= ids.len(),
        n <= marks.len(),
    ensures
        (forall|k: int| 0 <= k < marks.len() ==> !#[trigger] marks[k]) ==> marked_among(
            ids,
            marks,
            n,
        ).len() == 0,
        (forall|k: int| 0 <= k < marks.len() ==> #[trigger] marks[k]) ==> marked_among(ids, marks, n)
            == ids.take(n),
    decreases n,
{
    if n > 0 {
        lemma_all_or_none(ids, marks, n - 1);
        if forall|k: int| 0 <= k < marks.len() ==> #[trigger] marks[k] {
            assert(marks[n - 1]);
            assert(ids.take(n) =~= ids.take(n - 1).push(ids[n - 1]));
        }
        if forall|k: int| 0 <= k < marks.len() ==> !#[trigger] marks[k] {
            assert(!marks[n - 1]);
        }
    } else {
        assert(ids.take(0) =~= Seq::empty());
    }
}

/// Turns are popped only where there are any, never without having been asked
/// for: a count takes the oldest, the menu those that were marked, and a menu that
/// was left takes none.
pub proof fn law_turns_are_popped_as_asked(
    request: &PopRequest,
    ids: Vec<String>,
    marks: Option<Option<Vec<bool>>>,
    path: PopPath,
    r: PopStep,
)
    requires
        call_ensures(pop_step, (request, ids, marks, path), r),
    ensures
        request is Oldest && ids@.len() > 0 ==> r is Pop && texts(r->Pop_0@) == texts(ids@),
        !(path is Prompt) && r is Pop ==> r->Pop_0@.len() > 0,
        request is Choose && ids@.len() == 0 ==> r is NothingToPop,
        request is Choose && ids@.len() > 0 && marks is None ==> r is OpenMenu,
        request is Choose && ids@.len() > 0 && marks is Some && marks->0 is None ==> r is Leave,
        request is Choose && ids@.len() > 0 && marks is Some && marks->0 is Some && marked_turns(
            texts(ids@),
            marks->0->0@,
        ).len() > 0 ==> r is Pop && texts(r->Pop_0@) == marked_turns(texts(ids@), marks->0->0@),
        r is OpenMenu ==> request is Choose && marks is None,
{
    assert(texts(ids@).len() == ids@.len());
    if r is Pop {
        assert(texts(r->Pop_0@).len() == r->Pop_0@.len());
    }
}

/// Popped turns count as archived only where both settings are on; no turns are
/// no outcome.
pub proof fn law_popped_turns_are_archived_where_wanted(
    turns: usize,
    memory: bool,
    evicted: bool,
    r: Option<PopOutcome>,
)
    requires
        call_ensures(pop_outcome, (turns, memory, evicted), r),
    ensures
        turns == 0 <==> r is None,
        r matches Some(outcome) ==> outcome.turns == turns && (outcome.archived <==> memory
            && evicted),
{
}

/// The daemon's word on popping: so many turns, archived or not; nothing where it
/// popped none.
pub proof fn law_daemon_says_what_was_popped(data: &Json, r: Option<PopOutcome>)
    requires
        call_ensures(run_pop_via_daemon, (data,), r),
    ensures
        member(*data, "turns"@) is None ==> r is None,
        member(*data, "turns"@) == Some(Json::Unsigned(0)) ==> r is None,
        member(*data, "turns"@) matches Some(Json::Unsigned(n)) ==> 0 < n <= usize::MAX ==> r
            is Some && r->0.turns == n && (r->0.archived <==> member(*data, "archived"@) == Some(
            Json::Bool(true),
        )),
{
}

/// A count is asked for without a terminal, the menu is not; zero is refused.
pub proof fn law_menu_takes_a_terminal(
    lang: Lang,
    count: Option<usize>,
    interactive: bool,
    r: Result<PopRequest, String>,
)
    requires
        call_ensures(execute_pop, (lang, count, interactive), r),
    ensures
        count is None ==> (r is Ok <==> interactive),
        count is None && interactive ==> r->Ok_0 is Choose,
        count is Some ==> (r is Ok <==> count->0 > 0),
        count is Some && count->0 > 0 ==> r->Ok_0 == PopRequest::Oldest(count->0),
{
}

/// The menu takes three rows for each turn it shows, five turns at most, and two
/// rows around them.
pub proof fn law_pop_menu_rows(count: usize, rows: u16, r: u16)
    requires
        call_ensures(inline_pop_lines, (count, rows), r),
    ensures
        5 <= r <= 17,
        (r - 2) % 3 == 0,
        count >= 5 && rows >= 17 ==> r == 17,
        1 <= count <= 5 && rows >= 17 ==> r == 3 * count + 2,
        rows >= 5 ==> r <= rows,
{
}

/// An interrupted reply is shown as such and not by what it said so far.
pub proof fn law_interrupted_replies_are_said_so(lang: Lang, turn: &Turn, r: String)
    requires
        call_ensures(pop_menu_assistant_summary, (lang, turn), r),
    ensures
        turn.status is Interrupted ==> r@ == pick(
            lang,
            "(reply interrupted)"@,
            "（回复已中断）"@,
        ),
        !(turn.status is Interrupted) ==> r@ == summary_of(lang, turn.assistant_content@),
{
}

/// The title names what is searched for, where something is.
pub proof fn law_title_names_the_search(lang: Lang, query: Seq<char>)
    ensures
        trimmed(query).len() == 0 && lang is En ==> pop_title(lang, query) == "Pop context"@,
        trimmed(query).len() == 0 && lang is Zh ==> pop_title(lang, query) == "弹出上下文"@,
        trimmed(query).len() > 0 && lang is En ==> pop_title(lang, query) == "Pop context"@ + " · "@
            + "Search"@ + ": "@ + trimmed(query),
        trimmed(query).len() > 0 && lang is Zh ==> pop_title(lang, query) == "弹出上下文"@ + " · "@
            + "搜索"@ + ": "@ + trimmed(query),
{
}

/// The count stands faint at the right edge, behind as much of the title as there
/// is room for; where there is room for the count alone, the title goes.
pub proof fn law_count_stands_at_the_right_edge(
    lang: Lang,
    query: &str,
    selected: usize,
    total: usize,
    width: usize,
    r: String,
)
    requires
        call_ensures(pop_menu_header, (lang, query, selected, total, width), r),
    ensures
        ({
            let count = pick(lang, "selected "@, "已选 "@) + decimal(selected as nat) + " / "@
                + decimal(total as nat);
            let title = pop_title(lang, query@);
            &&& width_of(count) >= width ==> r@ == "\x1b[2m"@ + truncated(count, width as nat)
                + "\x1b[0m"@
            &&& width_of(count) < width && width_of(title) + 1 + width_of(count) <= width ==> r@
                == "\x1b[1m"@ + title + "\x1b[0m"@ + run_of(
                ' ',
                (width - width_of(title) - width_of(count)) as nat,
            ) + ("\x1b[2m"@ + count + "\x1b[0m"@)
        }),
{
}

} // verus!
