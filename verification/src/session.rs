//! Sessions: the list of them, choosing one, and what the session commands say.
use crate::echo::{dim, dim_text};
use crate::editor::{EditorState, LiveReplEditor};
use crate::footer::{endpoint_of, ModelConfig, ReplFooterStatus};
use crate::jobs::{opt_string, opt_text};
use crate::json::{count_member, flag_member, member, text_member, Json};
use crate::lang::{pick, t, Lang};
use crate::layout::{capped, not_negative};
use crate::menu::InlineSelectOutcome;
use crate::notes::{dim_note, dim_note_text, switched, switched_text};
use crate::remote::opt_text_member;
use crate::screen::{in_update, ops, synchronized_terminal_update, CursorAfterUpdate, Op, TerminalOp};
use crate::tail::{framed, redrawn, LiveReplTail};
use crate::text::{
    begins_with, decimal, decimal_text, lower, number_of, parse_number, run_of, same,
    same_ignoring_case, spaces, starts_with, strip_prefix, texts, trim, trimmed, ends_in,
    ends_with,
};
use crate::tokens::{cumulative_meter, state_cumulative, SessionState, TokenMeter, TurnTokens};
use vstd::prelude::*;
use vstd::string::*;
use vstd::utf8::encode_utf8;

verus! {

/// A session as the daemon lists it.
#[derive(Debug)]
pub struct SessionListEntry {
    pub id: String,
    pub name: String,
    pub is_current: bool,
    pub turns: u64,
    pub snippet: String,
    pub workspace: Option<String>,
}

/// Line feeds and carriage returns as spaces.
pub open spec fn on_one_line(s: Seq<char>) -> Seq<char> {
    s.map_values(
        |c: char|
            if c == '\n' || c == '\r' {
                ' '
            } else {
                c
            },
    )
}

/// What a session was last about, in at most 24 characters and a mark of what
/// was cut off.
pub open spec fn snippet_of(content: Seq<char>) -> Seq<char> {
    let clean = on_one_line(trimmed(content));
    if clean.len() > 24 {
        clean.take(24) + "…"@
    } else {
        clean
    }
}

fn snippet(content: &str) -> (r: String)
    ensures
        r@ == snippet_of(content@),
{
    let text = trim(content);
    let mut clean: String = String::new();
    for c in it: text.chars()
        invariant
            it.seq() == text@,
            clean@ == on_one_line(text@.take(it.index() as int)),
    {
        if c == '\n' || c == '\r' {
            clean.push(' ');
        } else {
            clean.push(c);
        }
        assert(clean@ =~= on_one_line(text@.take(it.index() as int + 1)));
    }
    assert(text@.take(text@.len() as int) =~= text@);
    let n = clean.as_str().unicode_len();
    if n > 24 {
        let mut cut = clean.as_str().substring_char(0, 24).to_owned();
        assert(cut@ =~= clean@.take(24));
        cut.append("…");
        cut
    } else {
        clean
    }
}

/// A session of the list, as text.
pub struct EntryText {
    pub id: Seq<char>,
    pub name: Seq<char>,
    pub is_current: bool,
    pub turns: u64,
    pub snippet: Seq<char>,
    pub workspace: Option<Seq<char>>,
}

pub open spec fn entry_text(entry: SessionListEntry) -> EntryText {
    EntryText {
        id: entry.id@,
        name: entry.name@,
        is_current: entry.is_current,
        turns: entry.turns,
        snippet: entry.snippet@,
        workspace: opt_string(entry.workspace),
    }
}

pub open spec fn entry_texts(entries: Seq<SessionListEntry>) -> Seq<EntryText> {
    entries.map_values(|e: SessionListEntry| entry_text(e))
}

/// What a row of the daemon's list says of a session.
pub open spec fn row_entry(row: Json) -> EntryText {
    EntryText {
        id: text_member(row, "session_id"@),
        name: text_member(row, "name"@),
        is_current: flag_member(row, "is_current"@),
        turns: match count_member(row, "turn_count"@) {
            Some(n) => n,
            None => 0,
        },
        snippet: match opt_text_member(row, "last_user_content"@) {
            Some(content) => snippet_of(content),
            None => Seq::empty(),
        },
        workspace: opt_text_member(row, "workspace"@),
    }
}

pub fn session_list_entry(session: &Json) -> (r: SessionListEntry)
    ensures
        entry_text(r) == row_entry(*session),
{
    let turns: u64 = match session.count("turn_count") {
        Some(n) => n,
        None => 0,
    };
    let last = match session.opt_text("last_user_content") {
        Some(content) => snippet(content.as_str()),
        None => String::new(),
    };
    SessionListEntry {
        id: session.text("session_id").to_owned(),
        name: session.text("name").to_owned(),
        is_current: session.flag("is_current"),
        turns,
        snippet: last,
        workspace: session.opt_text("workspace"),
    }
}

/// The sessions of the daemon's list.
pub open spec fn listed_sessions(data: Json) -> Seq<EntryText> {
    match member(data, "sessions"@) {
        Some(Json::Array(rows)) => rows@.map_values(|row: Json| row_entry(row)),
        _ => Seq::empty(),
    }
}

pub fn session_list_entries(data: &Json) -> (r: Vec<SessionListEntry>)
    ensures
        entry_texts(r@) == listed_sessions(*data),
{
    let mut out: Vec<SessionListEntry> = Vec::new();
    if let Some(Json::Array(rows)) = data.get("sessions") {
        let mut i: usize = 0;
        while i < rows.len()
            invariant
                i <= rows@.len(),
                out@.len() == i,
                forall|k: int| 0 <= k < i ==> entry_text(#[trigger] out@[k]) == row_entry(rows@[k]),
            decreases rows@.len() - i,
        {
            out.push(session_list_entry(&rows[i]));
            i = i + 1;
        }
        assert(entry_texts(out@) =~= rows@.map_values(|row: Json| row_entry(row)));
    }
    assert(entry_texts(out@) =~= listed_sessions(*data));
    out
}

/// A session that a command is about.
#[derive(Debug)]
pub enum SessionRef {
    Current,
    Id { id: String },
    Name { name: String },
}

/// The session with the number that the list shows.
pub fn session_ref_from_index(entries: &Vec<SessionListEntry>, index: usize) -> (r: Option<
    SessionRef,
>)
    ensures
        if 1 <= index <= entries@.len() {
            r matches Some(SessionRef::Id { id }) && id@ == entries@[index - 1].id@
        } else {
            r is None
        },
{
    if index >= 1 && index <= entries.len() {
        Some(SessionRef::Id { id: entries[index - 1].id.clone() })
    } else {
        None
    }
}

/// Whether an entry is the session in use: the one that the caller says it is
/// in, else the daemon's own.
pub open spec fn is_active(entry: SessionListEntry, active: Option<Seq<char>>) -> bool {
    match active {
        Some(id) => entry.id@ == id,
        None => entry.is_current,
    }
}

pub fn session_entry_is_active(entry: &SessionListEntry, active_session_id: Option<&str>) -> (r:
    bool)
    ensures
        r == is_active(*entry, opt_text(active_session_id)),
{
    match active_session_id {
        Some(id) => same(entry.id.as_str(), id),
        None => entry.is_current,
    }
}

/// The name of a session; one that has none yet is called a new one.
pub open spec fn shown_name(lang: Lang, name: Seq<char>) -> Seq<char> {
    if trimmed(name).len() == 0 {
        pick(lang, "New session"@, "新会话"@)
    } else {
        name
    }
}

pub fn display_session_name<'a>(lang: Lang, name: &'a str) -> (r: &'a str)
    ensures
        r@ == shown_name(lang, name@),
{
    if trim(name).is_empty() {
        t(lang, "New session", "新会话")
    } else {
        name
    }
}

pub open spec fn workspace_part(workspace: Option<String>) -> Seq<char> {
    match workspace {
        Some(path) => "  ["@ + path@ + "]"@,
        None => Seq::empty(),
    }
}

fn workspace_text(workspace: &Option<String>) -> (r: String)
    ensures
        r@ == workspace_part(*workspace),
{
    match workspace {
        Some(path) => crate::echo::enclosed("  [", path.as_str(), "]"),
        None => String::new(),
    }
}

/// The row of a session in the menu.
pub open spec fn select_line(lang: Lang, entry: SessionListEntry, active: Option<Seq<char>>) -> Seq<
    char,
> {
    (if is_active(entry, active) {
        "* "@
    } else {
        "  "@
    }) + shown_name(lang, entry.name@) + "  "@ + decimal(entry.turns as nat) + " "@ + pick(
        lang,
        "turns"@,
        "轮"@,
    ) + (if entry.snippet@.len() == 0 {
        Seq::empty()
    } else {
        "  "@ + entry.snippet@
    }) + workspace_part(entry.workspace)
}

pub fn session_select_line(lang: Lang, entry: &SessionListEntry, active_session_id: Option<&str>) -> (
    r: String)
    ensures
        r@ == select_line(lang, *entry, opt_text(active_session_id)),
{
    let count = decimal_text(entry.turns);
    let mut line = (if session_entry_is_active(entry, active_session_id) {
        "* "
    } else {
        "  "
    }).to_owned();
    line.append(display_session_name(lang, entry.name.as_str()));
    line.append("  ");
    line.append(count.as_str());
    line.append(" ");
    line.append(t(lang, "turns", "轮"));
    let ghost head = line@;
    let mut about: String = String::new();
    if !entry.snippet.as_str().is_empty() {
        about = "  ".to_owned();
        about.append(entry.snippet.as_str());
    }
    assert(about@ =~= if entry.snippet@.len() == 0 {
        Seq::empty()
    } else {
        "  "@ + entry.snippet@
    });
    line.append(about.as_str());
    let place = workspace_text(&entry.workspace);
    line.append(place.as_str());
    line
}

pub fn session_select_search(lang: Lang, entry: &SessionListEntry) -> (r: String)
    ensures
        r@ == shown_name(lang, entry.name@) + " "@ + entry.snippet@ + " "@ + match opt_string(
            entry.workspace,
        ) {
            Some(path) => path,
            None => Seq::empty(),
        },
{
    let mut r = display_session_name(lang, entry.name.as_str()).to_owned();
    r.append(" ");
    r.append(entry.snippet.as_str());
    r.append(" ");
    match &entry.workspace {
        Some(path) => r.append(path.as_str()),
        None => {},
    }
    assert(r@ =~= shown_name(lang, entry.name@) + " "@ + entry.snippet@ + " "@ + match opt_string(
        entry.workspace,
    ) {
        Some(path) => path,
        None => Seq::empty(),
    });
    r
}

/// The row where the focus of the menu starts: the first session in use, else the
/// first of all.
pub open spec fn is_initial_row(
    entries: Seq<SessionListEntry>,
    active: Option<Seq<char>>,
    row: int,
) -> bool {
    if exists|i: int| 0 <= i < entries.len() && is_active(#[trigger] entries[i], active) {
        &&& 0 <= row < entries.len()
        &&& is_active(entries[row], active)
        &&& forall|k: int| 0 <= k < row ==> !is_active(#[trigger] entries[k], active)
    } else {
        row == 0
    }
}

/// Where the focus of the menu starts: on the session in use, else on the first.
pub fn session_initial_selection(
    entries: &Vec<SessionListEntry>,
    active_session_id: Option<&str>,
) -> (r: usize)
    ensures
        is_initial_row(entries@, opt_text(active_session_id), r as int),
{
    let mut i: usize = 0;
    while i < entries.len()
        invariant
            i <= entries@.len(),
            forall|k: int|
                0 <= k < i ==> !is_active(#[trigger] entries@[k], opt_text(active_session_id)),
        decreases entries@.len() - i,
    {
        if session_entry_is_active(&entries[i], active_session_id) {
            return i;
        }
        i = i + 1;
    }
    0
}

/// A number in a column of three characters.
pub open spec fn number_column(n: nat) -> Seq<char> {
    run_of(' ', not_negative(3 - decimal(n).len()) as nat) + decimal(n)
}

/// The line of a session in the printed list.
pub open spec fn list_line(lang: Lang, index: nat, entry: SessionListEntry, ansi: bool) -> Seq<char> {
    let details = decimal(entry.turns as nat) + " "@ + pick(lang, "turns"@, "轮"@) + "  "@
        + entry.snippet@ + workspace_part(entry.workspace);
    (if entry.is_current {
        "*"@
    } else {
        " "@
    }) + number_column(index) + ". "@ + shown_name(lang, entry.name@) + "  "@ + if ansi {
        dim(details)
    } else {
        details
    }
}

pub fn session_list_line(lang: Lang, index: usize, entry: &SessionListEntry, ansi: bool) -> (r:
    String)
    ensures
        r@ == list_line(lang, index as nat, *entry, ansi),
{
    let number = decimal_text(index as u64);
    let fill = spaces(3usize.saturating_sub(number.as_str().unicode_len()));
    let mut column = fill;
    column.append(number.as_str());
    let place = workspace_text(&entry.workspace);
    let mut details = decimal_text(entry.turns);
    details.append(" ");
    details.append(t(lang, "turns", "轮"));
    details.append("  ");
    details.append(entry.snippet.as_str());
    details.append(place.as_str());
    let shown = if ansi {
        dim_text(details.as_str())
    } else {
        details
    };
    let mut r = (if entry.is_current {
        "*"
    } else {
        " "
    }).to_owned();
    r.append(column.as_str());
    r.append(". ");
    r.append(display_session_name(lang, entry.name.as_str()));
    r.append("  ");
    r.append(shown.as_str());
    r
}

/// The printed list, with an empty line at its end.
pub open spec fn session_list(lang: Lang, entries: Seq<SessionListEntry>, ansi: bool) -> Seq<Seq<char>> {
    if entries.len() == 0 {
        let note = pick(lang, "no sessions"@, "没有会话"@);
        seq![
            if ansi {
                dim(note)
            } else {
                note
            },
            Seq::empty(),
        ]
    } else {
        seq![pick(lang, "sessions:"@, "会话列表:"@)] + Seq::new(
            entries.len(),
            |i: int| list_line(lang, (i + 1) as nat, entries[i], ansi),
        ) + seq![Seq::<char>::empty()]
    }
}

pub fn print_session_list(lang: Lang, entries: &Vec<SessionListEntry>, ansi: bool) -> (r: Vec<
    String,
>)
    ensures
        texts(r@) == session_list(lang, entries@, ansi),
{
    let mut out: Vec<String> = Vec::new();
    if entries.is_empty() {
        let note = t(lang, "no sessions", "没有会话");
        out.push(
            if ansi {
                dim_text(note)
            } else {
                note.to_owned()
            },
        );
        let blank = String::new();
        assert(blank@ =~= Seq::<char>::empty());
        out.push(blank);
        assert(texts(out@) =~= session_list(lang, entries@, ansi));
        return out;
    }
    out.push(t(lang, "sessions:", "会话列表:").to_owned());
    let n: usize = entries.len();
    let mut i: usize = 0;
    while i < n
        invariant
            i <= n,
            n == entries@.len(),
            out@.len() == i + 1,
            out@[0]@ == pick(lang, "sessions:"@, "会话列表:"@),
            forall|k: int|
                0 <= k < i ==> (#[trigger] out@[k + 1])@ == list_line(
                    lang,
                    (k + 1) as nat,
                    entries@[k],
                    ansi,
                ),
        decreases n - i,
    {
        let line = session_list_line(lang, i + 1, &entries[i], ansi);
        let ghost before = out@;
        out.push(line);
        assert forall|k: int| 0 <= k < i + 1 implies (#[trigger] out@[k + 1])@ == list_line(
            lang,
            (k + 1) as nat,
            entries@[k],
            ansi,
        ) by {
            if k < i {
                assert(out@[k + 1] == before[k + 1]);
            }
        }
        i = i + 1;
    }
    let blank = String::new();
    assert(blank@ =~= Seq::<char>::empty());
    let ghost listed = out@;
    out.push(blank);
    assert forall|k: int| 0 <= k < out@.len() implies texts(out@)[k] == session_list(
        lang,
        entries@,
        ansi,
    )[k] by {
        if 0 < k < n + 1 {
            let m = k - 1;
            assert(out@[m + 1] == listed[m + 1]);
            assert(out@[m + 1]@ == list_line(lang, (m + 1) as nat, entries@[m], ansi));
        }
    }
    assert(texts(out@) =~= session_list(lang, entries@, ansi));
    out
}

/// What the menu of sessions came back with.
#[derive(Debug)]
pub enum SessionPick {
    Cancelled,
    Switch(SessionRef),
    /// The session is to be deleted; the focus was on the row `index`.
    Delete { session_id: String, index: usize },
}

/// What the menu of sessions leads to on the command line.
#[derive(Debug)]
pub enum CliPickStep {
    /// The menu was left.
    Leave,
    Switch(SessionRef),
    /// Delete the session and list the sessions anew.
    Delete(SessionRef),
}

/// Where a choice in the menu leads, and the row that the menu opens on next: the
/// rows below a deleted one move up, so that the focus stays on its row.
pub fn cli_pick_session(pick: SessionPick, cursor: Option<usize>) -> (r: (
    CliPickStep,
    Option<usize>,
))
    ensures
        match (pick, r.0) {
            (SessionPick::Cancelled, CliPickStep::Leave) => r.1 == cursor,
            (SessionPick::Switch(target), CliPickStep::Switch(wanted)) => target == wanted && r.1
                == cursor,
            (
                SessionPick::Delete { session_id, index },
                CliPickStep::Delete(SessionRef::Id { id }),
            ) => id == session_id && r.1 == Some(index),
            _ => false,
        },
{
    match pick {
        SessionPick::Cancelled => (CliPickStep::Leave, cursor),
        SessionPick::Switch(target) => (CliPickStep::Switch(target), cursor),
        SessionPick::Delete { session_id, index } => (
            CliPickStep::Delete(SessionRef::Id { id: session_id }),
            Some(index),
        ),
    }
}

/// The session that the outcome of the menu is about.
pub fn select_session_target(entries: &Vec<SessionListEntry>, outcome: InlineSelectOutcome) -> (r:
    SessionPick)
    requires
        match outcome {
            InlineSelectOutcome::Chosen(index) => index < entries@.len(),
            InlineSelectOutcome::Deleted(index) => index < entries@.len(),
            InlineSelectOutcome::Cancelled => true,
        },
    ensures
        match (outcome, r) {
            (InlineSelectOutcome::Cancelled, SessionPick::Cancelled) => true,
            (
                InlineSelectOutcome::Chosen(index),
                SessionPick::Switch(SessionRef::Id { id }),
            ) => id@ == entries@[index as int].id@,
            (
                InlineSelectOutcome::Deleted(index),
                SessionPick::Delete { session_id, index: at },
            ) => session_id@ == entries@[index as int].id@ && at == index,
            _ => false,
        },
{
    match outcome {
        InlineSelectOutcome::Cancelled => SessionPick::Cancelled,
        InlineSelectOutcome::Chosen(index) => SessionPick::Switch(
            SessionRef::Id { id: entries[index].id.clone() },
        ),
        InlineSelectOutcome::Deleted(index) => SessionPick::Delete {
            session_id: entries[index].id.clone(),
            index,
        },
    }
}

/// Where the focus starts when the menu is opened again: where it was, as far as
/// there is such a row, else on the session in use.
pub fn reopened_at(
    entries: &Vec<SessionListEntry>,
    active_session_id: Option<&str>,
    cursor: Option<usize>,
) -> (r: usize)
    ensures
        cursor matches Some(index) ==> r == capped(
            index as int,
            not_negative(entries@.len() - 1),
        ),
        cursor is None ==> is_initial_row(entries@, opt_text(active_session_id), r as int),
{
    match cursor {
        Some(index) => {
            let last: usize = entries.len().saturating_sub(1);
            if index < last {
                index
            } else {
                last
            }
        },
        None => session_initial_selection(entries, active_session_id),
    }
}

/// What the list of sessions is for when no session was named.
#[derive(Clone, Copy, Debug, PartialEq, Eq, Structural)]
pub enum ListUse {
    Print,
    Choose,
}

/// There is something to choose, and somebody to choose it, or the list is
/// printed.
pub fn run_session_command(entries: &Vec<SessionListEntry>, interactive: bool) -> (r: ListUse)
    ensures
        r == if entries@.len() > 0 && interactive {
            ListUse::Choose
        } else {
            ListUse::Print
        },
{
    if entries.is_empty() || !interactive {
        ListUse::Print
    } else {
        ListUse::Choose
    }
}

/// What an argument that names a session means.
#[derive(Debug)]
pub enum SessionArgument {
    /// A number of the list.
    Number(usize),
    Name(String),
}

/// An argument that reads as a number is one.
pub fn session_argument(arg: &str) -> (r: SessionArgument)
    ensures
        match (number_of(arg@), r) {
            (Some(n), SessionArgument::Number(m)) => n == m,
            (None, SessionArgument::Name(name)) => name@ == arg@,
            _ => false,
        },
{
    match parse_number(arg) {
        Some(n) => SessionArgument::Number(n),
        None => SessionArgument::Name(arg.to_owned()),
    }
}

pub open spec fn no_such_number(lang: Lang, index: nat) -> Seq<char> {
    pick(lang, "no session with this number"@, "没有这个编号的会话"@) + ": "@ + decimal(index)
}

pub fn no_such_number_text(lang: Lang, index: usize) -> (r: String)
    ensures
        r@ == no_such_number(lang, index as nat),
{
    let number = decimal_text(index as u64);
    crate::echo::enclosed(
        t(lang, "no session with this number", "没有这个编号的会话"),
        ": ",
        number.as_str(),
    )
}

/// The session with that number, or why there is none.
pub fn resolve_cli_session_target(lang: Lang, entries: &Vec<SessionListEntry>, index: usize) -> (r:
    Result<SessionRef, String>)
    ensures
        match r {
            Ok(SessionRef::Id { id }) => 1 <= index <= entries@.len() && id@
                == entries@[index - 1].id@,
            Ok(_) => false,
            Err(note) => !(1 <= index <= entries@.len()) && note@ == no_such_number(
                lang,
                index as nat,
            ),
        },
{
    match session_ref_from_index(entries, index) {
        Some(target) => Ok(target),
        None => Err(no_such_number_text(lang, index)),
    }
}

/// Whether a name or an identity is that of an entry.
pub open spec fn answers_to(entry: SessionListEntry, arg: Seq<char>) -> bool {
    lower(entry.name@) == lower(arg) || entry.id@ == arg
}

/// The session of a turn: by number, else the first by name or identity.
pub fn resolve_session_id_for_turn(lang: Lang, entries: &Vec<SessionListEntry>, arg: &str) -> (r:
    Result<String, String>)
    ensures
        match number_of(arg@) {
            Some(n) => match r {
                Ok(id) => 1 <= n <= entries@.len() && id@ == entries@[n - 1].id@,
                Err(note) => !(1 <= n <= entries@.len()) && note@ == no_such_number(
                    lang,
                    n as nat,
                ),
            },
            None => match r {
                Ok(id) => exists|i: int|
                    {
                        &&& 0 <= i < entries@.len()
                        &&& #[trigger] answers_to(entries@[i], arg@)
                        &&& id@ == entries@[i].id@
                        &&& forall|k: int|
                            0 <= k < i ==> !answers_to(#[trigger] entries@[k], arg@)
                    },
                Err(note) => {
                    &&& forall|k: int|
                        0 <= k < entries@.len() ==> !answers_to(#[trigger] entries@[k], arg@)
                    &&& note@ == pick(lang, "session not found"@, "找不到该会话"@) + ": "@ + arg@
                },
            },
        },
{
    if let Some(n) = parse_number(arg) {
        if n >= 1 && n <= entries.len() {
            return Ok(entries[n - 1].id.clone());
        }
        return Err(no_such_number_text(lang, n));
    }
    let mut i: usize = 0;
    while i < entries.len()
        invariant
            i <= entries@.len(),
            number_of(arg@) is None,
            forall|k: int| 0 <= k < i ==> !answers_to(#[trigger] entries@[k], arg@),
        decreases entries@.len() - i,
    {
        let entry = &entries[i];
        if same_ignoring_case(entry.name.as_str(), arg) || same(entry.id.as_str(), arg) {
            assert(answers_to(entries@[i as int], arg@));
            return Ok(entry.id.clone());
        }
        i = i + 1;
    }
    Err(crate::echo::enclosed(t(lang, "session not found", "找不到该会话"), ": ", arg))
}

/// Only an explicit yes confirms.
pub open spec fn is_yes(answer: Seq<char>) -> bool {
    let word = trimmed(answer);
    word == "y"@ || word == "Y"@ || word == "yes"@ || word == "YES"@
}

pub fn confirms(answer: &str) -> (r: bool)
    ensures
        r == is_yes(answer@),
{
    let word = trim(answer);
    same(word, "y") || same(word, "Y") || same(word, "yes") || same(word, "YES")
}

/// The first session that is the daemon's own.
pub open spec fn first_current(entries: Seq<EntryText>) -> Option<Seq<char>>
    decreases entries.len(),
{
    if entries.len() == 0 {
        None
    } else if entries[0].is_current {
        Some(entries[0].id)
    } else {
        first_current(entries.skip(1))
    }
}

/// The session to fall back to: the daemon's own, else the first.
pub open spec fn fallback_id(entries: Seq<EntryText>) -> Option<Seq<char>> {
    match first_current(entries) {
        Some(id) => Some(id),
        None => if entries.len() > 0 {
            Some(entries[0].id)
        } else {
            None
        },
    }
}

/// The prompt falls back to a session of the list wherever there is one.
pub proof fn law_fallback_is_listed(entries: Seq<EntryText>)
    ensures
        fallback_id(entries) is Some <==> entries.len() > 0,
        fallback_id(entries) matches Some(id) ==> exists|i: int|
            0 <= i < entries.len() && (#[trigger] entries[i]).id == id,
{
    lemma_first_current(entries);
    if entries.len() > 0 && first_current(entries) is None {
        assert(entries[0].id == fallback_id(entries)->0);
    }
}

proof fn lemma_first_current(entries: Seq<EntryText>)
    ensures
        first_current(entries) matches Some(id) ==> exists|i: int|
            0 <= i < entries.len() && (#[trigger] entries[i]).id == id,
    decreases entries.len(),
{
    if entries.len() > 0 {
        if entries[0].is_current {
            assert(entries[0].id == entries[0].id);
        } else {
            lemma_first_current(entries.skip(1));
            if let Some(id) = first_current(entries) {
                let i = choose|i: int|
                    0 <= i < entries.skip(1).len() && (#[trigger] entries.skip(1)[i]).id == id;
                assert(entries[i + 1].id == id);
            }
        }
    }
}

pub fn fallback_entry(entries: &Vec<SessionListEntry>) -> (r: Option<String>)
    ensures
        opt_string(r) == fallback_id(entry_texts(entries@)),
{
    let ghost all = entry_texts(entries@);
    let n: usize = entries.len();
    let mut i: usize = 0;
    assert(all.skip(0) =~= all);
    while i < n
        invariant
            i <= n,
            n == entries@.len(),
            all == entry_texts(entries@),
            first_current(all) == first_current(all.skip(i as int)),
        decreases n - i,
    {
        assert(all.skip(i as int)[0] == entry_text(entries@[i as int]));
        if entries[i].is_current {
            return Some(entries[i].id.clone());
        }
        assert(all.skip(i as int).skip(1) =~= all.skip(i as int + 1));
        i = i + 1;
    }
    if n > 0 {
        assert(all[0] == entry_text(entries@[0]));
        Some(entries[0].id.clone())
    } else {
        None
    }
}

/// Choosing a session in the prompt, with deletions on the way.
#[derive(Clone, Copy, Debug, PartialEq, Eq, Structural)]
pub struct SessionChooser {
    pub cursor: Option<usize>,
    /// The prompt's own session was deleted.
    pub lost_active: bool,
}

impl SessionChooser {
    pub fn new() -> (r: Self)
        ensures
            r.cursor is None,
            !r.lost_active,
    {
        SessionChooser { cursor: None, lost_active: false }
    }
}

/// A name that was given, unless it is blank.
pub fn given_name(name: Option<&str>) -> (r: Option<String>)
    ensures
        opt_string(r) == match opt_text(name) {
            Some(name) => if trimmed(name).len() == 0 {
                None
            } else {
                Some(trimmed(name))
            },
            None => None,
        },
{
    match name {
        Some(name) => {
            let name = trim(name);
            if name.is_empty() {
                None
            } else {
                Some(name.to_owned())
            }
        },
        None => None,
    }
}

/// What a request about the workspace asks for.
#[derive(Debug)]
pub enum WorkspaceRequest {
    Show,
    Unbind,
    Bind(String),
}

pub fn run_workspace_command(arg: Option<&str>) -> (r: WorkspaceRequest)
    ensures
        match opt_text(arg) {
            None => r is Show,
            Some(path) => if trimmed(path).len() == 0 {
                r is Show
            } else if lower(trimmed(path)) == lower("clear"@) {
                r is Unbind
            } else {
                r matches WorkspaceRequest::Bind(text) && text@ == trimmed(path)
            },
        },
{
    match arg {
        None => WorkspaceRequest::Show,
        Some(path) => {
            let path = trim(path);
            if path.is_empty() {
                WorkspaceRequest::Show
            } else if same_ignoring_case(path, "clear") {
                WorkspaceRequest::Unbind
            } else {
                WorkspaceRequest::Bind(path.to_owned())
            }
        },
    }
}

/// A path below a directory; a path from the root stands for itself.
pub open spec fn path_below(dir: Seq<char>, rest: Seq<char>) -> Seq<char> {
    if begins_with(rest, "/"@) {
        rest
    } else if dir.len() == 0 || ends_in(dir, "/"@) {
        dir + rest
    } else {
        dir + "/"@ + rest
    }
}

/// A path with a leading `~` taken as the home directory, where it is known.
pub open spec fn tilde_expanded(path: Seq<char>, home: Option<Seq<char>>) -> Seq<char> {
    match home {
        Some(home) => if path == "~"@ {
            home
        } else if begins_with(path, "~/"@) {
            path_below(home, path.skip("~/"@.len() as int))
        } else {
            path
        },
        None => path,
    }
}

pub fn expand_tilde(path: &str, home: Option<&str>) -> (r: String)
    ensures
        r@ == tilde_expanded(path@, opt_text(home)),
{
    if let Some(home) = home {
        if same(path, "~") {
            return home.to_owned();
        }
        if let Some(rest) = strip_prefix(path, "~/") {
            if starts_with(rest, "/") {
                return rest.to_owned();
            }
            let mut r = home.to_owned();
            if !home.is_empty() && !ends_with(home, "/") {
                r.append("/");
            }
            r.append(rest);
            return r;
        }
    }
    path.to_owned()
}

impl LiveReplEditor {
    /// Goes over to the history of another session, with an empty line.
    pub fn switch_history(&mut self, history: Vec<String>)
        ensures
            final(self)@ == (EditorState {
                history: texts(history@),
                history_index: history@.len() as int,
                clean: None,
                input: Seq::empty(),
                cursor: 0,
                ..old(self)@
            }),
    {
        self.history_index = history.len();
        self.history = history;
        self.history_clean_index = None;
        self.input = String::new();
        self.cursor = 0;
    }
}

/// The footer of a session: its models, its variant, and what it has spent.
pub open spec fn is_session_footer(
    lang: Lang,
    config: ModelConfig,
    state: SessionState,
    variant: Option<Seq<char>>,
    footer: ReplFooterStatus,
) -> bool {
    &&& (footer.provider@, footer.model@) == endpoint_of(lang, config)
    &&& footer.mixed_models == (config.active@.len() > 1)
    &&& opt_string(footer.thinking) == if config.active@.len() > 1 {
        None
    } else {
        variant
    }
    &&& footer.token_usage == TokenMeter {
        session_tokens: state.context_tokens,
        context_window: state.context_window,
        ..cumulative_meter(
            TurnTokens {
                total: state.cumulative_tokens,
                prompt: state.cumulative_prompt_tokens,
                cache_read: state.cumulative_cache_read_tokens,
            },
        )
    }
}

/// The footer of a session, built anew: the session may have models of its own.
pub fn session_footer(
    lang: Lang,
    config: &ModelConfig,
    state: &SessionState,
    variant: Option<&str>,
) -> (r: ReplFooterStatus)
    ensures
        is_session_footer(lang, *config, *state, opt_text(variant), r),
{
    let mut footer = ReplFooterStatus::from_config(
        lang,
        config,
        state.context_tokens,
        state_cumulative(state),
    );
    footer.update_thinking_variant(variant);
    footer.update_context_window(state.context_window);
    footer
}

/// Takes the prompt over to another session: its history, an empty line, the
/// note that says so, and the footer and total of that session. A session
/// without an identity is refused and nothing changes.
pub fn apply_repl_session_switch(
    lang: Lang,
    state: &SessionState,
    config: &ModelConfig,
    variant: Option<&str>,
    history: Vec<String>,
    live: &mut LiveReplTail,
    active_session_id: &mut String,
    footer: &mut ReplFooterStatus,
    cumulative: &mut TurnTokens,
    size: (u16, u16),
) -> (r: Result<Vec<TerminalOp>, String>)
    ensures
        match r {
            Ok(steps) => {
                &&& state.session_id@.len() > 0
                &&& final(active_session_id)@ == state.session_id@
                &&& final(live).editor@ == (EditorState {
                    history: texts(history@),
                    history_index: history@.len() as int,
                    clean: None,
                    input: Seq::empty(),
                    cursor: 0,
                    ..old(live).editor@
                })
                &&& framed(
                    LiveReplTail { editor: final(live).editor, ..*old(live) },
                    *final(live),
                    encode_utf8(dim_note(switched(lang, state.session_name@)) + "\n"@),
                    size,
                    steps@,
                )
                &&& is_session_footer(lang, *config, *state, opt_text(variant), *final(footer))
                &&& *final(cumulative) == (TurnTokens {
                    total: state.cumulative_tokens,
                    prompt: state.cumulative_prompt_tokens,
                    cache_read: state.cumulative_cache_read_tokens,
                })
            },
            Err(note) => {
                &&& state.session_id@.len() == 0
                &&& note@ == pick(lang, "session state has no id"@, "会话状态缺少 ID"@)
                &&& *final(live) == *old(live)
                &&& final(active_session_id)@ == old(active_session_id)@
                &&& *final(footer) == *old(footer)
                &&& *final(cumulative) == *old(cumulative)
            },
        },
{
    if state.session_id.as_str().is_empty() {
        return Err(t(lang, "session state has no id", "会话状态缺少 ID").to_owned());
    }
    *active_session_id = state.session_id.clone();
    live.editor.switch_history(history);
    let name = switched_text(lang, state.session_name.as_str());
    let note = dim_note_text(name.as_str());
    let steps = repl_note(live, note.as_str(), size);
    *cumulative = state_cumulative(state);
    *footer = session_footer(lang, config, state, variant);
    Ok(steps)
}

/// One line of the prompt's own, written above the tail.
pub fn repl_note(live: &mut LiveReplTail, text: &str, size: (u16, u16)) -> (r: Vec<TerminalOp>)
    ensures
        framed(*old(live), *final(live), encode_utf8(text@ + "\n"@), size, r@),
{
    let mut line = text.to_owned();
    line.append("\n");
    live.apply_output_frame(line.as_str().as_bytes(), size)
}

/// The queue of another session, or of this one after it was reset.
pub fn reload_repl_queue(
    live: &mut LiveReplTail,
    lang: Lang,
    queued: Vec<crate::echo::QueuedPrompt>,
    size: (u16, u16),
) -> (r: Vec<TerminalOp>)
    ensures
        exists|steps: Seq<Op>|
            ops(r@) == #[trigger] in_update(CursorAfterUpdate::Shown, steps) && redrawn(
                lang,
                *old(live),
                LiveReplTail { rendered: false, queued, ..*old(live) },
                size,
                *final(live),
                steps,
            ),
{
    let steps = live.reload_queue(lang, queued, size);
    synchronized_terminal_update(CursorAfterUpdate::Shown, steps)
}

/// A row of the daemon's list is read member by member: who it is, what it is
/// called, whether it is the daemon's own, and how many turns it has.
pub proof fn law_listed_session_is_read_by_its_members(session: &Json, r: SessionListEntry)
    requires
        call_ensures(session_list_entry, (session,), r),
    ensures
        member(*session, "session_id"@) matches Some(Json::Text(id)) ==> r.id@ == id@,
        member(*session, "name"@) matches Some(Json::Text(name)) ==> r.name@ == name@,
        r.is_current <==> member(*session, "is_current"@) == Some(Json::Bool(true)),
        member(*session, "turn_count"@) matches Some(Json::Unsigned(n)) ==> r.turns == n,
        member(*session, "turn_count"@) is None ==> r.turns == 0,
        member(*session, "workspace"@) matches Some(Json::Text(path)) ==> opt_string(r.workspace)
            == Some(path@),
        member(*session, "workspace"@) is None ==> r.workspace is None,
        member(*session, "last_user_content"@) is None ==> r.snippet@.len() == 0,
        member(*session, "last_user_content"@) matches Some(Json::Text(said)) ==> trimmed(
            said@,
        ).len() <= 24 && !trimmed(said@).contains('\n') && !trimmed(said@).contains('\r')
            ==> r.snippet@ == trimmed(said@),
        r.snippet@.len() <= 25,
{
    reveal_strlit("…");
    assert(entry_text(r).id == r.id@);
    if let Some(Json::Text(said)) = member(*session, "last_user_content"@) {
        let s = trimmed(said@);
        if !s.contains('\n') && !s.contains('\r') {
            assert forall|i: int| 0 <= i < s.len() implies #[trigger] on_one_line(s)[i] == s[i] by {
                assert(s.contains(s[i]));
            }
            assert(on_one_line(s) =~= s);
        }
    }
}

/// The list has one entry for each row, in the same order.
pub proof fn law_list_keeps_the_order(data: &Json, r: Vec<SessionListEntry>, rows: Vec<Json>, i: int)
    requires
        call_ensures(session_list_entries, (data,), r),
        member(*data, "sessions"@) == Some(Json::Array(rows)),
        0 <= i < rows@.len(),
    ensures
        r@.len() == rows@.len(),
        member(rows@[i], "session_id"@) matches Some(Json::Text(id)) ==> r@[i].id@ == id@,
        member(rows@[i], "name"@) matches Some(Json::Text(name)) ==> r@[i].name@ == name@,
{
    assert(entry_texts(r@).len() == r@.len());
    assert(entry_texts(r@)[i] == row_entry(rows@[i]));
    assert(entry_texts(r@)[i] == entry_text(r@[i]));
}

/// Numbers count the list from one; a number outside it names no session.
pub proof fn law_numbers_count_from_one(
    lang: Lang,
    entries: &Vec<SessionListEntry>,
    index: usize,
    a: Option<SessionRef>,
    b: Result<SessionRef, String>,
)
    requires
        call_ensures(session_ref_from_index, (entries, index), a),
        call_ensures(resolve_cli_session_target, (lang, entries, index), b),
    ensures
        index == 0 || index > entries@.len() ==> a is None && b is Err,
        1 <= index <= entries@.len() ==> (a matches Some(SessionRef::Id { id }) && id@ == entries@[
        index - 1].id@),
        1 <= index <= entries@.len() ==> (b matches Ok(SessionRef::Id { id }) && id@ == entries@[
        index - 1].id@),
{
}

/// A session is named by its number, by its name in whatever case, or by its
/// identity; of several the first is meant.
pub proof fn law_session_of_a_turn(
    lang: Lang,
    entries: &Vec<SessionListEntry>,
    arg: &str,
    r: Result<String, String>,
    i: int,
)
    requires
        call_ensures(resolve_session_id_for_turn, (lang, entries, arg), r),
        0 <= i < entries@.len(),
    ensures
        number_of(arg@) == Some((i + 1) as usize) && i < usize::MAX ==> r is Ok && r->Ok_0@
            == entries@[i].id@,
        number_of(arg@) is None && lower(entries@[i].name@) == lower(arg@) && (forall|k: int|
            0 <= k < i ==> lower((#[trigger] entries@[k]).name@) != lower(arg@) && entries@[k].id@
                != arg@) ==> r is Ok && r->Ok_0@ == entries@[i].id@,
        number_of(arg@) is None && entries@[i].id@ == arg@ && (forall|k: int|
            0 <= k < i ==> lower((#[trigger] entries@[k]).name@) != lower(arg@) && entries@[k].id@
                != arg@) ==> r is Ok && r->Ok_0@ == entries@[i].id@,
{
    if number_of(arg@) is None && (lower(entries@[i].name@) == lower(arg@) || entries@[i].id@ == arg@)
        && (forall|k: int|
        0 <= k < i ==> lower((#[trigger] entries@[k]).name@) != lower(arg@) && entries@[k].id@
            != arg@) {
        assert(answers_to(entries@[i], arg@));
        if r is Ok {
            let j = choose|j: int|
                {
                    &&& 0 <= j < entries@.len()
                    &&& #[trigger] answers_to(entries@[j], arg@)
                    &&& r->Ok_0@ == entries@[j].id@
                    &&& forall|k: int| 0 <= k < j ==> !answers_to(#[trigger] entries@[k], arg@)
                };
            if j < i {
                assert(entries@[j].id@ != arg@);
            }
            if i < j {
                assert(!answers_to(entries@[i], arg@));
            }
        }
    }
}

/// The session in use is the one that the prompt is in; where it is in none, the
/// daemon's own.
pub proof fn law_active_session(entry: &SessionListEntry, active: Option<&str>, r: bool)
    requires
        call_ensures(session_entry_is_active, (entry, active), r),
    ensures
        active matches Some(id) ==> (r <==> entry.id@ == id@),
        active is None ==> (r <==> entry.is_current),
{
}

/// The menu switches to the session of the chosen row and deletes that of the
/// row where that was asked for.
pub proof fn law_menu_is_about_the_row(
    entries: &Vec<SessionListEntry>,
    outcome: InlineSelectOutcome,
    r: SessionPick,
)
    requires
        call_ensures(select_session_target, (entries, outcome), r),
    ensures
        outcome is Cancelled <==> r is Cancelled,
        outcome matches InlineSelectOutcome::Chosen(i) ==> (r matches SessionPick::Switch(
            SessionRef::Id { id },
        ) && id@ == entries@[i as int].id@),
        outcome matches InlineSelectOutcome::Deleted(i) ==> r is Delete && r->session_id@
            == entries@[i as int].id@ && r->index == i,
{
}

/// On the command line the menu does what was chosen, and a deletion opens it
/// again on the same row.
pub proof fn law_command_line_menu(
    pick: SessionPick,
    cursor: Option<usize>,
    r: (CliPickStep, Option<usize>),
)
    requires
        call_ensures(cli_pick_session, (pick, cursor), r),
    ensures
        pick is Cancelled <==> r.0 is Leave,
        pick matches SessionPick::Switch(target) ==> r.0 == CliPickStep::Switch(target),
        pick is Delete ==> r.0 is Delete && r.0->Delete_0 == (SessionRef::Id {
            id: pick->session_id,
        }) && r.1 == Some(pick->index),
        !(pick is Delete) ==> r.1 == cursor,
{
}

/// Only an explicit yes confirms, in the four ways that it is written.
pub proof fn law_yes_is_explicit(answer: &str, r: bool)
    requires
        call_ensures(confirms, (answer,), r),
    ensures
        r <==> trimmed(answer@) == "y"@ || trimmed(answer@) == "Y"@ || trimmed(answer@) == "yes"@
            || trimmed(answer@) == "YES"@,
{
}

/// The prompt falls back to the daemon's own session, the first that is, and to
/// the first of all where none is.
pub proof fn law_fallback_prefers_the_daemons_own(entries: Seq<EntryText>, i: int)
    requires
        0 <= i < entries.len(),
    ensures
        entries[i].is_current && (forall|k: int| 0 <= k < i ==> !(#[trigger] entries[k]).is_current)
            ==> fallback_id(entries) == Some(entries[i].id),
        (forall|k: int| 0 <= k < entries.len() ==> !(#[trigger] entries[k]).is_current)
            ==> fallback_id(entries) == Some(entries[0].id),
{
    if entries[i].is_current && (forall|k: int|
        0 <= k < i ==> !(#[trigger] entries[k]).is_current) {
        lemma_first_current_at(entries, i);
    }
    if forall|k: int| 0 <= k < entries.len() ==> !(#[trigger] entries[k]).is_current {
        lemma_no_current(entries);
    }
}

proof fn lemma_first_current_at(entries: Seq<EntryText>, i: int)
    requires
        0 <= i < entries.len(),
        entries[i].is_current,
        forall|k: int| 0 <= k < i ==> !(#[trigger] entries[k]).is_current,
    ensures
        first_current(entries) == Some(entries[i].id),
    decreases entries.len(),
{
    if i > 0 {
        assert(!entries[0].is_current);
        let rest = entries.skip(1);
        assert(rest[i - 1] == entries[i]);
        assert forall|k: int| 0 <= k < i - 1 implies !(#[trigger] rest[k]).is_current by {
            assert(rest[k] == entries[k + 1]);
        }
        lemma_first_current_at(rest, i - 1);
    }
}

proof fn lemma_no_current(entries: Seq<EntryText>)
    requires
        forall|k: int| 0 <= k < entries.len() ==> !(#[trigger] entries[k]).is_current,
    ensures
        first_current(entries) is None,
    decreases entries.len(),
{
    if entries.len() > 0 {
        assert(!entries[0].is_current);
        let rest = entries.skip(1);
        assert forall|k: int| 0 <= k < rest.len() implies !(#[trigger] rest[k]).is_current by {
            assert(rest[k] == entries[k + 1]);
        }
        lemma_no_current(rest);
    }
}

/// A name that is blank is none; any other is taken without the white space
/// around it.
pub proof fn law_blank_names_are_none(name: Option<&str>, r: Option<String>)
    requires
        call_ensures(given_name, (name,), r),
    ensures
        name is None ==> r is None,
        name matches Some(text) ==> (r is None <==> trimmed(text@).len() == 0),
        name matches Some(text) ==> (r matches Some(kept) ==> kept@ == trimmed(text@)),
{
}

/// A workspace is shown, unbound by the word `clear`, or bound to a path.
pub proof fn law_workspace_requests(arg: Option<&str>, r: WorkspaceRequest)
    requires
        call_ensures(run_workspace_command, (arg,), r),
    ensures
        arg is None ==> r is Show,
        arg matches Some(path) ==> (r is Show <==> trimmed(path@).len() == 0),
        arg matches Some(path) ==> (trimmed(path@).len() > 0 ==> (r is Unbind <==> lower(
            trimmed(path@),
        ) == lower("clear"@))),
        r matches WorkspaceRequest::Bind(text) ==> arg is Some && text@ == trimmed(arg->0@),
{
}

/// A tilde stands for the home directory, alone or before a slash, where that is
/// known; other paths stay.
pub proof fn law_tilde_is_the_home_directory(path: &str, home: Option<&str>, r: String)
    requires
        call_ensures(expand_tilde, (path, home), r),
    ensures
        home is None ==> r@ == path@,
        home matches Some(dir) ==> path@ == "~"@ ==> r@ == dir@,
        home matches Some(dir) ==> forall|rest: Seq<char>|
            path@ == #[trigger] ("~/"@ + rest) && dir@.len() > 0 && dir@.last() != '/' && (rest.len()
                == 0 || rest[0] != '/') ==> r@ == dir@ + "/"@ + rest,
        path@.len() > 0 && path@[0] != '~' ==> r@ == path@,
{
    reveal_strlit("~");
    reveal_strlit("~/");
    reveal_strlit("/");
    assert("/"@ =~= seq!['/']);
    if let Some(dir) = home {
        assert forall|rest: Seq<char>|
            path@ == #[trigger] ("~/"@ + rest) && dir@.len() > 0 && dir@.last() != '/' && (rest.len()
                == 0 || rest[0] != '/') implies r@ == dir@ + "/"@ + rest by {
            assert(path@.take(2) =~= "~/"@);
            assert(path@.skip(2) =~= rest);
            assert(path@.len() >= 2);
            if rest.len() > 0 {
                assert(rest.take(1)[0] == rest[0]);
            }
            assert(!begins_with(rest, "/"@));
            let last = dir@.skip(dir@.len() - 1);
            assert(last[0] == dir@.last());
            assert(!ends_in(dir@, "/"@));
        }
    }
    if path@.len() > 0 && path@[0] != '~' {
        if path@.len() >= 2 {
            assert(path@.take(2)[0] == path@[0]);
        }
    }
}

/// Going over to another session takes its identity, history, footer and total,
/// with an empty line; a session without an identity is refused and nothing
/// changes.
pub proof fn law_switching_takes_the_session_over(
    lang: Lang,
    state: &SessionState,
    config: &ModelConfig,
    variant: Option<&str>,
    history: Vec<String>,
    live: &mut LiveReplTail,
    id: &mut String,
    footer: &mut ReplFooterStatus,
    cumulative: &mut TurnTokens,
    size: (u16, u16),
    r: Result<Vec<TerminalOp>, String>,
)
    requires
        call_ensures(
            apply_repl_session_switch,
            (lang, state, config, variant, history, live, id, footer, cumulative, size),
            r,
        ),
    ensures
        r is Ok <==> state.session_id@.len() > 0,
        r is Ok ==> final(id)@ == state.session_id@ && final(live).editor.input@.len() == 0
            && texts(final(live).editor.history@) == texts(history@) && final(
            cumulative).total == state.cumulative_tokens && final(cumulative).prompt
            == state.cumulative_prompt_tokens && final(cumulative).cache_read
            == state.cumulative_cache_read_tokens && final(footer).token_usage.session_tokens
            == state.context_tokens && final(footer).token_usage.context_window
            == state.context_window,
        r is Err ==> final(id)@ == old(id)@ && *final(footer) == *old(footer) && *final(cumulative)
            == *old(cumulative) && *final(live) == *old(live),
{
    if r is Ok {
        assert(final(live).editor@.input == final(live).editor.input@);
        assert(final(live).editor@.history == texts(final(live).editor.history@));
    }
}

/// The focus starts on the first session in use, and where it was left when the
/// menu opens again.
pub proof fn law_focus_starts_on_the_session_in_use(
    entries: &Vec<SessionListEntry>,
    active: Option<&str>,
    cursor: Option<usize>,
    first: usize,
    again: usize,
    i: int,
)
    requires
        call_ensures(session_initial_selection, (entries, active), first),
        call_ensures(reopened_at, (entries, active, cursor), again),
        0 <= i < entries@.len(),
    ensures
        active matches Some(id) ==> entries@[i].id@ == id@ ==> first <= i && entries@[
        first as int].id@ == id@,
        cursor matches Some(at) ==> at < entries@.len() ==> again == at,
        cursor matches Some(at) ==> at >= entries@.len() ==> again == entries@.len() - 1,
{
    if let Some(id) = active {
        if entries@[i].id@ == id@ {
            assert(is_active(entries@[i], opt_text(active)));
            if first > i {
                assert(!is_active(entries@[i], opt_text(active)));
            }
        }
    }
}

/// The row of a session says whether it is in use, what it is called and how many
/// turns it has.
pub proof fn law_session_rows_say_what_they_are(
    lang: Lang,
    entry: &SessionListEntry,
    active: Option<&str>,
    r: String,
)
    requires
        call_ensures(session_select_line, (lang, entry, active), r),
        trimmed(entry.name@).len() > 0,
        entry.snippet@.len() == 0,
        entry.workspace is None,
    ensures
        r@ == (if is_active(*entry, opt_text(active)) {
            "* "@
        } else {
            "  "@
        }) + entry.name@ + "  "@ + decimal(entry.turns as nat) + " "@ + pick(
            lang,
            "turns"@,
            "轮"@,
        ),
{
    let line = (if is_active(*entry, opt_text(active)) {
        "* "@
    } else {
        "  "@
    }) + entry.name@ + "  "@ + decimal(entry.turns as nat) + " "@ + pick(lang, "turns"@, "轮"@);
    assert(line + Seq::<char>::empty() + Seq::<char>::empty() =~= line);
}

/// The line of a session marks the one in use, and has its number, its name, its
/// turns and how it began, faint where colours are on.
pub proof fn law_listed_sessions_say_what_they_are(
    lang: Lang,
    index: usize,
    entry: &SessionListEntry,
    plain: String,
    coloured: String,
)
    requires
        call_ensures(session_list_line, (lang, index, entry, false), plain),
        call_ensures(session_list_line, (lang, index, entry, true), coloured),
    ensures
        ({
            let head = (if entry.is_current {
                "*"@
            } else {
                " "@
            }) + number_column(index as nat) + ". "@ + shown_name(lang, entry.name@) + "  "@;
            let rest = decimal(entry.turns as nat) + " "@ + pick(lang, "turns"@, "轮"@) + "  "@
                + entry.snippet@ + workspace_part(entry.workspace);
            &&& plain@ == head + rest
            &&& coloured@ == head + ("\x1b[2m"@ + rest + "\x1b[0m"@)
        }),
        plain@.len() > 0 && (plain@[0] == '*' <==> entry.is_current),
{
    reveal_strlit("*");
    reveal_strlit(" ");
    assert("*"@[0] == '*' && " "@[0] == ' ');
}

} // verus!
