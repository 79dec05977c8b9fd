//! Finished turns, drawn again when a session is opened.
use crate::echo::{committed_text, committed_user_messages_text, dim, dim_text, message_views};
use crate::jobs::{job_wake_headline, wake_headline};
use crate::mode::AgentMode;
use crate::text::{trim, trimmed};
use vstd::prelude::*;
use vstd::string::*;

verus! {

/// A part of a finished turn.
#[derive(Debug)]
pub enum ReplayEntry {
    Text { text: String },
    ToolCall { name: String, arguments: String },
    ToolResult { name: String, ok: bool, output: String },
}

/// A finished turn. One from before its parts were kept has none.
#[derive(Debug)]
pub struct TurnReplay {
    pub display_content: String,
    pub assistant_content: String,
    pub is_job_wake: bool,
    pub entries: Vec<ReplayEntry>,
}

/// A step of drawing turns again. The renderer is a new one for every turn.
#[derive(Debug)]
pub enum ReplayStep {
    /// Text as it is.
    Frame(String),
    Content(String),
    ToolCall { name: String, arguments: String },
    ToolResult { name: String, ok: bool, output: String },
    /// The turn is complete.
    EndTurn,
}

/// A step as text.
pub enum Replay {
    Frame(Seq<char>),
    Content(Seq<char>),
    ToolCall(Seq<char>, Seq<char>),
    ToolResult(Seq<char>, bool, Seq<char>),
    EndTurn,
}

pub open spec fn replay_of(step: ReplayStep) -> Replay {
    match step {
        ReplayStep::Frame(text) => Replay::Frame(text@),
        ReplayStep::Content(text) => Replay::Content(text@),
        ReplayStep::ToolCall { name, arguments } => Replay::ToolCall(name@, arguments@),
        ReplayStep::ToolResult { name, ok, output } => Replay::ToolResult(name@, ok, output@),
        ReplayStep::EndTurn => Replay::EndTurn,
    }
}

pub open spec fn replays_of(v: Seq<ReplayStep>) -> Seq<Replay> {
    v.map_values(|s: ReplayStep| replay_of(s))
}

pub open spec fn entry_step(entry: ReplayEntry) -> Replay {
    match entry {
        ReplayEntry::Text { text } => Replay::Content(text@),
        ReplayEntry::ToolCall { name, arguments } => Replay::ToolCall(name@, arguments@),
        ReplayEntry::ToolResult { name, ok, output } => Replay::ToolResult(name@, ok, output@),
    }
}

/// What stands above a turn: the notice of the job that woke the session, or
/// what the user wrote.
pub open spec fn turn_head(replay: TurnReplay, mode: AgentMode, cols: int) -> Seq<Replay> {
    if replay.is_job_wake {
        seq![
            Replay::Frame(
                "\n"@ + dim("⚙ "@ + wake_headline(replay.display_content@)) + "\n\n"@,
            ),
        ]
    } else if trimmed(replay.display_content@).len() > 0 {
        seq![Replay::Frame(committed_text(seq![(replay.display_content@, mode)], true, cols))]
    } else {
        Seq::empty()
    }
}

/// The turn itself: its parts in order, or its final reply.
pub open spec fn turn_body(replay: TurnReplay) -> Seq<Replay> {
    if replay.entries@.len() == 0 {
        seq![Replay::Content(replay.assistant_content@)]
    } else {
        replay.entries@.map_values(|e: ReplayEntry| entry_step(e))
    }
}

/// The first `n` turns.
pub open spec fn turns_drawn(replays: Seq<TurnReplay>, n: int, mode: AgentMode, cols: int) -> Seq<Replay>
    decreases n,
{
    if n <= 0 {
        Seq::empty()
    } else {
        turns_drawn(replays, n - 1, mode, cols) + turn_head(replays[n - 1], mode, cols) + turn_body(
            replays[n - 1],
        ) + seq![Replay::EndTurn]
    }
}

proof fn lemma_replays_push(v: Seq<ReplayStep>, s: ReplayStep)
    ensures
        replays_of(v.push(s)) == replays_of(v) + seq![replay_of(s)],
{
    assert(replays_of(v.push(s)) =~= replays_of(v) + seq![replay_of(s)]);
}

fn push_head(out: &mut Vec<ReplayStep>, replay: &TurnReplay, mode: AgentMode, cols: usize)
    ensures
        replays_of(final(out)@) == replays_of(old(out)@) + turn_head(*replay, mode, cols as int),
{
    let ghost before = out@;
    if replay.is_job_wake {
        let mut notice = "⚙ ".to_owned();
        notice.append(job_wake_headline(replay.display_content.as_str()));
        let faint = dim_text(notice.as_str());
        let text = crate::echo::enclosed("\n", faint.as_str(), "\n\n");
        proof {
            lemma_replays_push(out@, ReplayStep::Frame(text));
        }
        out.push(ReplayStep::Frame(text));
    } else if !trim(replay.display_content.as_str()).is_empty() {
        let messages: [(&str, AgentMode); 1] = [(replay.display_content.as_str(), mode)];
        let text = committed_user_messages_text(&messages, true, cols);
        assert(message_views(messages@) =~= seq![(replay.display_content@, mode)]);
        proof {
            lemma_replays_push(out@, ReplayStep::Frame(text));
        }
        out.push(ReplayStep::Frame(text));
    } else {
        assert(replays_of(before) + Seq::<Replay>::empty() =~= replays_of(before));
    }
}

fn step_for(entry: &ReplayEntry) -> (r: ReplayStep)
    ensures
        replay_of(r) == entry_step(*entry),
{
    match entry {
        ReplayEntry::Text { text } => ReplayStep::Content(text.clone()),
        ReplayEntry::ToolCall { name, arguments } => ReplayStep::ToolCall {
            name: name.clone(),
            arguments: arguments.clone(),
        },
        ReplayEntry::ToolResult { name, ok, output } => ReplayStep::ToolResult {
            name: name.clone(),
            ok: *ok,
            output: output.clone(),
        },
    }
}

fn push_body(out: &mut Vec<ReplayStep>, replay: &TurnReplay)
    ensures
        replays_of(final(out)@) == replays_of(old(out)@) + turn_body(*replay),
{
    let ghost before = replays_of(out@);
    if replay.entries.is_empty() {
        let step = ReplayStep::Content(replay.assistant_content.clone());
        proof {
            lemma_replays_push(out@, step);
        }
        out.push(step);
        return;
    }
    let ghost body = turn_body(*replay);
    let mut i: usize = 0;
    assert(before + body.take(0) =~= before);
    while i < replay.entries.len()
        invariant
            i <= replay.entries@.len(),
            body == replay.entries@.map_values(|e: ReplayEntry| entry_step(e)),
            replays_of(out@) == before + body.take(i as int),
        decreases replay.entries@.len() - i,
    {
        let step = step_for(&replay.entries[i]);
        proof {
            lemma_replays_push(out@, step);
            assert(body.take(i + 1) =~= body.take(i as int) + seq![body[i as int]]);
            assert(before + body.take(i as int) + seq![replay_of(step)] =~= before + body.take(
                i + 1,
            ));
        }
        out.push(step);
        i = i + 1;
    }
    assert(body.take(body.len() as int) =~= body);
}

/// The steps that draw finished turns again, for the width that the terminal has
/// now.
pub fn session_replay_frame(replays: &Vec<TurnReplay>, mode: AgentMode, cols: usize) -> (r: Vec<
    ReplayStep,
>)
    ensures
        replays_of(r@) == turns_drawn(replays@, replays@.len() as int, mode, cols as int),
{
    let mut out: Vec<ReplayStep> = Vec::new();
    let mut i: usize = 0;
    assert(replays_of(out@) =~= turns_drawn(replays@, 0, mode, cols as int));
    while i < replays.len()
        invariant
            i <= replays@.len(),
            replays_of(out@) == turns_drawn(replays@, i as int, mode, cols as int),
        decreases replays@.len() - i,
    {
        push_head(&mut out, &replays[i], mode, cols);
        push_body(&mut out, &replays[i]);
        proof {
            lemma_replays_push(out@, ReplayStep::EndTurn);
        }
        out.push(ReplayStep::EndTurn);
        i = i + 1;
    }
    out
}

/// A turn is drawn with its head, its parts in order and an end; one without parts
/// is drawn as its reply. A turn of the user begins with what they wrote, one that
/// a job began with the notice of it.
pub proof fn law_turns_are_drawn_whole(
    replays: &Vec<TurnReplay>,
    mode: AgentMode,
    cols: usize,
    r: Vec<ReplayStep>,
    i: int,
)
    requires
        call_ensures(session_replay_frame, (replays, mode, cols), r),
        replays@.len() == 1,
    ensures
        ({
            let turn = replays@[0];
            let head: int = if turn.is_job_wake || trimmed(turn.display_content@).len() > 0 {
                1
            } else {
                0
            };
            let parts: int = if turn.entries@.len() == 0 {
                1
            } else {
                turn.entries@.len() as int
            };
            &&& r@.len() == head + parts + 1
            &&& r@[r@.len() - 1] is EndTurn
            &&& turn.entries@.len() == 0 ==> r@[head] is Content && r@[head]->Content_0@
                == turn.assistant_content@
            &&& 0 <= i < turn.entries@.len() ==> match turn.entries@[i] {
                ReplayEntry::Text { text } => r@[head + i] matches ReplayStep::Content(shown)
                    && shown@ == text@,
                ReplayEntry::ToolCall { name, arguments } => r@[head + i]
                    matches ReplayStep::ToolCall { name: n, arguments: a } && n@ == name@ && a@
                    == arguments@,
                ReplayEntry::ToolResult { name, ok, output } => r@[head + i]
                    matches ReplayStep::ToolResult { name: n, ok: o, output: out } && n@ == name@
                    && o == ok && out@ == output@,
            }
            &&& turn.is_job_wake ==> r@[0] is Frame && r@[0]->Frame_0@ == "\n"@ + dim(
                "⚙ "@ + wake_headline(turn.display_content@),
            ) + "\n\n"@
            &&& !turn.is_job_wake && head == 1 ==> r@[0] is Frame && r@[0]->Frame_0@
                == committed_text(seq![(turn.display_content@, mode)], true, cols as int)
        }),
{
    let turn = replays@[0];
    reveal_with_fuel(turns_drawn, 2);
    let steps = replays_of(r@);
    let head = turn_head(turn, mode, cols as int);
    let body = turn_body(turn);
    assert(steps =~= head + body + seq![Replay::EndTurn]);
    assert(steps.len() == r@.len());
    let n = r@.len() as int;
    assert(steps[n - 1] == replay_of(r@[n - 1]));
    assert(steps[0] == replay_of(r@[0]));
    if turn.entries@.len() == 0 {
        assert(steps[head.len() as int] == replay_of(r@[head.len() as int]));
    }
    if 0 <= i < turn.entries@.len() {
        assert(steps[head.len() + i] == replay_of(r@[head.len() + i]));
        assert(body[i] == entry_step(turn.entries@[i]));
    }
}

/// The turns follow each other in their order.
pub proof fn law_turns_follow_each_other(replays: Seq<TurnReplay>, n: int, mode: AgentMode, cols: int)
    requires
        0 < n <= replays.len(),
    ensures
        turns_drawn(replays, n, mode, cols) == turns_drawn(replays, n - 1, mode, cols)
            + turns_drawn(seq![replays[n - 1]], 1, mode, cols),
{
    reveal_with_fuel(turns_drawn, 2);
    assert(turns_drawn(replays, n, mode, cols) =~= turns_drawn(replays, n - 1, mode, cols)
        + turns_drawn(seq![replays[n - 1]], 1, mode, cols));
}

} // verus!
