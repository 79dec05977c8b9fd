//! The decisions of the loops that keep the live tail alive: while the prompt
//! waits, while a reply runs here, and while one of the daemon is watched.
use crate::editor::{Event, KeyCode, LiveEditorAction, LiveSubmission};
use crate::footer::{with_cumulative, ReplFooterStatus};
use crate::jobs::{claimed, strip_differs, JobOverview, JobsFeed};
use crate::lang::{pick, t, Lang};
use crate::remote::{IpcFrame, RemoteEvent, TurnEvent};
use crate::screen::{ops, TerminalOp};
use crate::tail::{framed, resume_ops, resumed, ChatStreamChunk, LiveReplTail};
use crate::text::{begins_with, starts_with, trim_left, trim_start};
use crate::tokens::TurnTokens;
use vstd::prelude::*;
use vstd::string::*;

verus! {

impl LiveReplTail {
    /// Shows the tail where the terminal says that the output ended, or where
    /// it ended last as far as is known.
    pub fn resume(&mut self, lang: Lang, answer: Option<(u16, u16)>, size: (u16, u16)) -> (r: Vec<
        TerminalOp,
    >)
        ensures
            ({
                let at = match answer {
                    Some(at) => at,
                    None => old(self).output_cursor,
                };
                &&& ops(r@) == resume_ops(
                    lang,
                    *old(self),
                    (at.0 as int, at.1 as int),
                    size.0 as int,
                    size.1 as int,
                )
                &&& resumed(
                    lang,
                    *old(self),
                    (at.0 as int, at.1 as int),
                    size.0 as int,
                    size.1 as int,
                    *final(self),
                )
            }),
    {
        let at = crate::keyboard::cursor_position_or(answer, self.output_cursor);
        self.resume_at(lang, at, size)
    }

    /// A tick of the spinner: the chunks that are to be written before it.
    pub fn tick_spinner(&mut self) -> (r: Vec<ChatStreamChunk>)
        ensures
            r == old(self).pending_chunks,
            final(self).pending_chunks@.len() == 0,
            *final(self) == (LiveReplTail {
                pending_chunks: final(self).pending_chunks,
                ..*old(self)
            }),
    {
        self.flush_pending_chunks()
    }

    /// What the renderer wrote goes above the tail.
    pub fn apply_renderer_frame(&mut self, frame: Vec<u8>, size: (u16, u16)) -> (r: Vec<TerminalOp>)
        ensures
            framed(*old(self), *final(self), frame@, size, r@),
    {
        self.apply_output_frame(frame.as_slice(), size)
    }
}

/// What a tick does while the prompt waits.
#[derive(Debug)]
pub enum IdleStep {
    /// Keys were pressed a moment ago: leave the screen alone.
    Wait,
    /// Attach to a turn that the daemon started.
    FollowWake { run_id: String, label: String },
    Redraw,
    TickStrip,
}

/// While keys are pressed nothing happens; a turn that the daemon started comes
/// first, and the tail is drawn anew only where a job or a figure moved.
pub fn idle_tick(
    live: &mut LiveReplTail,
    feed: &mut JobsFeed,
    jobs: Vec<JobOverview>,
    typing: bool,
    wake_session: Option<&str>,
) -> (r: IdleStep)
    ensures
        typing ==> r is Wait && *final(live) == *old(live) && *final(feed) == *old(feed),
        !typing ==> match r {
            IdleStep::Wait => false,
            IdleStep::FollowWake { run_id, label } => {
                &&& *final(live) == *old(live)
                &&& wake_session matches Some(session) && (*old(feed) matches JobsFeed::Shared(
                    before,
                ) && (*final(feed) matches JobsFeed::Shared(after) && claimed(
                    before,
                    after,
                    session@,
                    Some((run_id, label)),
                )))
            },
            _ => {
                &&& *final(feed) == *old(feed)
                &&& wake_session matches Some(session) ==> (*old(feed) matches JobsFeed::Shared(
                    before,
                ) ==> claimed(before, before, session@, None))
                &&& final(live).jobs == jobs
                &&& *final(live) == (LiveReplTail {
                    jobs,
                    footer: final(live).footer,
                    ..*old(live)
                })
                &&& final(live).footer == (ReplFooterStatus {
                    token_usage: match feed_total(*old(feed)) {
                        Some(total) => with_cumulative(old(live).footer.token_usage, total),
                        None => old(live).footer.token_usage,
                    },
                    ..old(live).footer
                })
                &&& r is Redraw <==> final(live).footer.token_usage
                    != old(live).footer.token_usage || strip_differs(old(live).jobs@, jobs@)
            },
        },
{
    if typing {
        return IdleStep::Wait;
    }
    if let Some(session) = wake_session {
        if let Some((run_id, label)) = feed.claim_wake_run(session) {
            return IdleStep::FollowWake { run_id, label };
        }
    }
    let moved = match feed.cumulative() {
        Some(total) => live.footer.update_cumulative_tokens(total),
        None => false,
    };
    let changed = live.set_jobs(jobs);
    if changed || moved {
        IdleStep::Redraw
    } else {
        IdleStep::TickStrip
    }
}

/// The total that the feed knows.
pub open spec fn feed_total(feed: JobsFeed) -> Option<TurnTokens> {
    match feed {
        JobsFeed::Shared(shared) => shared.cumulative,
        JobsFeed::Local(_) => None,
    }
}

/// What an answer of the editor comes to while the prompt waits.
#[derive(Debug)]
pub enum PromptStep {
    Idle,
    Redraw,
    ClearScreen,
    CommitEmpty,
    /// The line is done.
    Submit(LiveSubmission),
    /// Stop the background jobs and stay.
    StopJobs,
    Exit,
    /// Hand this to the clipboard, and redraw.
    Copy(String),
    /// Paste from the clipboard, and redraw.
    ReadClipboard,
}

/// Ctrl+C on an empty line stops the background jobs of the session while there
/// are any, and leaves the prompt otherwise; Ctrl+D always leaves.
pub fn read_live_repl_input(action: LiveEditorAction, has_jobs: bool) -> (r: PromptStep)
    ensures
        match (action, r) {
            (LiveEditorAction::Idle, PromptStep::Idle) => true,
            (LiveEditorAction::Redraw, PromptStep::Redraw) => true,
            (LiveEditorAction::ClearScreen, PromptStep::ClearScreen) => true,
            (LiveEditorAction::EmptySubmit, PromptStep::CommitEmpty) => true,
            (LiveEditorAction::Submit(a), PromptStep::Submit(b)) => a == b,
            (LiveEditorAction::Interrupt, PromptStep::StopJobs) => has_jobs,
            (LiveEditorAction::Interrupt, PromptStep::Exit) => !has_jobs,
            (LiveEditorAction::Exit, PromptStep::Exit) => true,
            (LiveEditorAction::Copy(a), PromptStep::Copy(b)) => a == b,
            (LiveEditorAction::ReadClipboard, PromptStep::ReadClipboard) => true,
            _ => false,
        },
{
    match action {
        LiveEditorAction::Idle => PromptStep::Idle,
        LiveEditorAction::Redraw => PromptStep::Redraw,
        LiveEditorAction::ClearScreen => PromptStep::ClearScreen,
        LiveEditorAction::EmptySubmit => PromptStep::CommitEmpty,
        LiveEditorAction::Submit(submission) => PromptStep::Submit(submission),
        LiveEditorAction::Interrupt => if has_jobs {
            PromptStep::StopJobs
        } else {
            PromptStep::Exit
        },
        LiveEditorAction::Exit => PromptStep::Exit,
        LiveEditorAction::Copy(text) => PromptStep::Copy(text),
        LiveEditorAction::ReadClipboard => PromptStep::ReadClipboard,
    }
}

/// Whether a key would submit a slash command, which has to wait while a reply
/// runs.
pub fn submits_command(event: &Event, input: &str) -> (r: bool)
    ensures
        r == (*event matches Event::Key { code: KeyCode::Enter, release: false, .. } && begins_with(
            trim_left(input@),
            "/"@,
        )),
{
    match event {
        Event::Key { code, release, .. } => *code == KeyCode::Enter && !*release && starts_with(
            trim_start(input),
            "/",
        ),
        _ => false,
    }
}

/// What the user is told about a slash command that has to wait.
pub fn command_has_to_wait(lang: Lang) -> (r: &'static str)
    ensures
        r@ == pick(
            lang,
            "REPL commands are available after the current reply finishes"@,
            "当前回复结束后才能执行 REPL 命令"@,
        ),
{
    t(
        lang,
        "REPL commands are available after the current reply finishes",
        "当前回复结束后才能执行 REPL 命令",
    )
}

/// What an answer of the editor comes to while a reply runs in this process.
#[derive(Debug)]
pub enum LocalTurnStep {
    Idle,
    Redraw,
    ClearScreen,
    /// Keep the message for the running reply, and show it in the queue.
    QueueAndShow(LiveSubmission),
    /// Keep the message; something else owns the screen.
    QueueOnly(LiveSubmission),
    /// Stop the reply.
    Stop,
    /// Hand this to the clipboard, and redraw unless something else owns the
    /// screen.
    Copy { text: String, redraw: bool },
    /// Paste from the clipboard, and redraw unless something else owns the screen.
    ReadClipboard { redraw: bool },
}

pub fn run_live_agent_turn(action: LiveEditorAction, external: bool) -> (r: LocalTurnStep)
    ensures
        match (action, r) {
            (LiveEditorAction::Idle, LocalTurnStep::Idle) => true,
            (LiveEditorAction::Redraw, LocalTurnStep::Redraw) => !external,
            (LiveEditorAction::Redraw, LocalTurnStep::Idle) => external,
            (LiveEditorAction::ClearScreen, LocalTurnStep::ClearScreen) => !external,
            (LiveEditorAction::ClearScreen, LocalTurnStep::Idle) => external,
            (LiveEditorAction::EmptySubmit, LocalTurnStep::Idle) => true,
            (LiveEditorAction::Submit(a), LocalTurnStep::QueueAndShow(b)) => !external && a == b,
            (LiveEditorAction::Submit(a), LocalTurnStep::QueueOnly(b)) => external && a == b,
            (LiveEditorAction::Interrupt, LocalTurnStep::Stop) => true,
            (LiveEditorAction::Exit, LocalTurnStep::Stop) => true,
            (LiveEditorAction::Copy(a), LocalTurnStep::Copy { text, redraw }) => a == text && redraw
                == !external,
            (LiveEditorAction::ReadClipboard, LocalTurnStep::ReadClipboard { redraw }) => redraw == !external,
            _ => false,
        },
{
    match action {
        LiveEditorAction::Idle => LocalTurnStep::Idle,
        LiveEditorAction::Redraw => if external {
            LocalTurnStep::Idle
        } else {
            LocalTurnStep::Redraw
        },
        LiveEditorAction::ClearScreen => if external {
            LocalTurnStep::Idle
        } else {
            LocalTurnStep::ClearScreen
        },
        LiveEditorAction::EmptySubmit => LocalTurnStep::Idle,
        LiveEditorAction::Submit(submission) => if external {
            LocalTurnStep::QueueOnly(submission)
        } else {
            LocalTurnStep::QueueAndShow(submission)
        },
        LiveEditorAction::Interrupt => LocalTurnStep::Stop,
        LiveEditorAction::Exit => LocalTurnStep::Stop,
        LiveEditorAction::Copy(text) => LocalTurnStep::Copy { text, redraw: !external },
        LiveEditorAction::ReadClipboard => LocalTurnStep::ReadClipboard { redraw: !external },
    }
}

/// What the tail has to know of an event of a reply.
#[derive(Clone, Copy, Debug, PartialEq, Eq, Structural)]
pub enum AgentEventKind {
    Chunk,
    SpinnerTick,
    PrepareForExternalOutput,
    QueuedPromptsConsumed,
    AskQuestion,
    ToolResult,
    Other,
}

/// What the tail has to know of an event of the agent of this process, which shows
/// pictures and asks by itself.
pub fn agent_event_kind(event: &RemoteEvent) -> (r: AgentEventKind)
    ensures
        r == match event@ {
            TurnEvent::Delta(_, _) => AgentEventKind::Chunk,
            TurnEvent::ToolImage(_, _) => AgentEventKind::PrepareForExternalOutput,
            TurnEvent::QueueConsumed(_, _) => AgentEventKind::QueuedPromptsConsumed,
            TurnEvent::QuestionRequested(_) => AgentEventKind::AskQuestion,
            TurnEvent::ToolResult(_, _, _, _) => AgentEventKind::ToolResult,
            _ => AgentEventKind::Other,
        },
{
    match event {
        RemoteEvent::Delta { .. } => AgentEventKind::Chunk,
        RemoteEvent::ToolImage { .. } => AgentEventKind::PrepareForExternalOutput,
        RemoteEvent::QueueConsumed { .. } => AgentEventKind::QueuedPromptsConsumed,
        RemoteEvent::QuestionRequested { .. } => AgentEventKind::AskQuestion,
        RemoteEvent::ToolResult { .. } => AgentEventKind::ToolResult,
        _ => AgentEventKind::Other,
    }
}

/// How the tail goes along with an event of a reply.
#[derive(Clone, Copy, Debug, PartialEq, Eq, Structural)]
pub enum LiveEventStep {
    /// Keep the text for the next tick.
    KeepChunk,
    Ignore,
    /// Write what waits, tick the spinner, take over the frame.
    TickSpinner,
    /// Write what waits, give the screen away.
    GiveScreenAway,
    /// Write what waits, move the messages out of the queue.
    Consume,
    /// Hand the event on and take over the frame; nothing that waits is written
    /// while something else owns the screen.
    PassOn,
    /// Write what waits, leave the screen, ask, and come back.
    Ask,
    /// Write what waits, hand the event on, take over the frame.
    Handle,
    /// The same, and then show the tail again.
    HandleAndReturn,
}

pub open spec fn live_step_of(kind: AgentEventKind, external: bool) -> LiveEventStep {
    match kind {
        AgentEventKind::Chunk => LiveEventStep::KeepChunk,
        AgentEventKind::SpinnerTick => if external {
            LiveEventStep::Ignore
        } else {
            LiveEventStep::TickSpinner
        },
        AgentEventKind::PrepareForExternalOutput => LiveEventStep::GiveScreenAway,
        AgentEventKind::QueuedPromptsConsumed => LiveEventStep::Consume,
        AgentEventKind::ToolResult => if external {
            LiveEventStep::HandleAndReturn
        } else {
            LiveEventStep::Handle
        },
        AgentEventKind::AskQuestion => if external {
            LiveEventStep::PassOn
        } else {
            LiveEventStep::Ask
        },
        AgentEventKind::Other => if external {
            LiveEventStep::PassOn
        } else {
            LiveEventStep::Handle
        },
    }
}

/// Whether something else owns the screen behind the event.
pub open spec fn screen_given_away(kind: AgentEventKind, external: bool) -> bool {
    match kind {
        AgentEventKind::PrepareForExternalOutput => true,
        AgentEventKind::ToolResult => false,
        _ => external,
    }
}

pub fn handle_live_agent_event(live: &mut LiveReplTail, kind: AgentEventKind) -> (r: LiveEventStep)
    ensures
        r == live_step_of(kind, old(live).external_output_active),
        *final(live) == (LiveReplTail {
            external_output_active: screen_given_away(kind, old(live).external_output_active),
            ..*old(live)
        }),
{
    let external = live.external_output_active;
    match kind {
        AgentEventKind::Chunk => LiveEventStep::KeepChunk,
        AgentEventKind::SpinnerTick => if external {
            LiveEventStep::Ignore
        } else {
            LiveEventStep::TickSpinner
        },
        AgentEventKind::PrepareForExternalOutput => {
            live.external_output_active = true;
            LiveEventStep::GiveScreenAway
        },
        AgentEventKind::QueuedPromptsConsumed => LiveEventStep::Consume,
        AgentEventKind::ToolResult => {
            live.external_output_active = false;
            if external {
                LiveEventStep::HandleAndReturn
            } else {
                LiveEventStep::Handle
            }
        },
        AgentEventKind::AskQuestion => if external {
            LiveEventStep::PassOn
        } else {
            LiveEventStep::Ask
        },
        AgentEventKind::Other => if external {
            LiveEventStep::PassOn
        } else {
            LiveEventStep::Handle
        },
    }
}

/// While something else owns the screen the tail is not shown, until the tool
/// that owns it is done.
pub proof fn law_tail_stays_away(kind: AgentEventKind)
    requires
        !(kind is ToolResult),
    ensures
        screen_given_away(kind, true),
        !(live_step_of(kind, true) is HandleAndReturn),
        !(live_step_of(kind, true) is TickSpinner),
        !(live_step_of(kind, true) is Ask),
        !(live_step_of(kind, true) is Handle),
{
}

/// The line above a turn that the daemon started.
pub open spec fn wake_header(lang: Lang, label: Seq<char>) -> Seq<char> {
    if label.len() == 0 {
        pick(lang, "⚙ background task finished"@, "⚙ 后台任务完成"@)
    } else {
        "⚙ "@ + label
    }
}

pub fn wake_run_header(lang: Lang, label: &str) -> (r: String)
    ensures
        r@ == crate::echo::dim(wake_header(lang, label@)) + "\r\n\r\n"@,
{
    let text = if label.is_empty() {
        t(lang, "⚙ background task finished", "⚙ 后台任务完成").to_owned()
    } else {
        let mut text = "⚙ ".to_owned();
        text.append(label);
        text
    };
    let mut r = crate::echo::dim_text(text.as_str());
    r.append("\r\n\r\n");
    r
}

/// The identity of the turn that an answer to the request to follow announces;
/// anything else means that the run is over already.
pub fn followed_turn(first: Option<IpcFrame>) -> (r: Option<Option<String>>)
    ensures
        r == match first {
            Some(IpcFrame::Accepted { turn_id, .. }) => Some(turn_id),
            _ => None,
        },
{
    match first {
        Some(IpcFrame::Accepted { turn_id, .. }) => Some(turn_id),
        _ => None,
    }
}

/// What a watcher of a turn does with an event.
#[derive(Clone, Copy, Debug, PartialEq, Eq, Structural)]
pub enum WatchStep {
    /// Nothing but to remember the turn.
    Note,
    /// Hand it to the tail as an event of a reply.
    Live(AgentEventKind),
    /// Move messages out of the queue.
    Consume,
    /// Nothing.
    Skip,
    /// The run is over.
    Stop,
}

/// A watcher draws what is said and done, moves messages that were taken up,
/// and stops when the run ends in whatever way. Questions, pictures and changes
/// of the context are for the client that started the turn.
pub open spec fn watch_step_of(event: TurnEvent) -> WatchStep {
    match event {
        TurnEvent::TurnStarted(_) => WatchStep::Note,
        TurnEvent::Delta(_, _) => WatchStep::Live(AgentEventKind::Chunk),
        TurnEvent::ToolResult(_, _, _, _) => WatchStep::Live(AgentEventKind::ToolResult),
        TurnEvent::ReasoningStart => WatchStep::Live(AgentEventKind::Other),
        TurnEvent::ReasoningReset => WatchStep::Live(AgentEventKind::Other),
        TurnEvent::ReasoningPartStart => WatchStep::Live(AgentEventKind::Other),
        TurnEvent::ReasoningPartEnd => WatchStep::Live(AgentEventKind::Other),
        TurnEvent::ReasoningTitle(_) => WatchStep::Live(AgentEventKind::Other),
        TurnEvent::ToolPreparing(_) => WatchStep::Live(AgentEventKind::Other),
        TurnEvent::ToolCall(_, _, _) => WatchStep::Live(AgentEventKind::Other),
        TurnEvent::ToolProgress(_, _, _) => WatchStep::Live(AgentEventKind::Other),
        TurnEvent::ToolOutput(_, _, _, _) => WatchStep::Live(AgentEventKind::Other),
        TurnEvent::Superseded => WatchStep::Live(AgentEventKind::Other),
        TurnEvent::QueueConsumed(_, _) => WatchStep::Consume,
        TurnEvent::RunCompleted => WatchStep::Stop,
        TurnEvent::RunFailed(_) => WatchStep::Stop,
        TurnEvent::RunCancelled => WatchStep::Stop,
        _ => WatchStep::Skip,
    }
}

pub fn follow_wake_run(turn_id: &mut Option<String>, event: &RemoteEvent) -> (r: WatchStep)
    ensures
        r == watch_step_of(event@),
        match event@ {
            TurnEvent::TurnStarted(id) => *final(turn_id) matches Some(now) && now@ == id,
            _ => *final(turn_id) == *old(turn_id),
        },
{
    match event {
        RemoteEvent::TurnStarted(id) => {
            *turn_id = Some(id.clone());
            WatchStep::Note
        },
        RemoteEvent::Delta { .. } => WatchStep::Live(AgentEventKind::Chunk),
        RemoteEvent::ToolResult { .. } => WatchStep::Live(AgentEventKind::ToolResult),
        RemoteEvent::ReasoningStart => WatchStep::Live(AgentEventKind::Other),
        RemoteEvent::ReasoningReset => WatchStep::Live(AgentEventKind::Other),
        RemoteEvent::ReasoningPartStart => WatchStep::Live(AgentEventKind::Other),
        RemoteEvent::ReasoningPartEnd => WatchStep::Live(AgentEventKind::Other),
        RemoteEvent::ReasoningTitle(_) => WatchStep::Live(AgentEventKind::Other),
        RemoteEvent::ToolPreparing { .. } => WatchStep::Live(AgentEventKind::Other),
        RemoteEvent::ToolCall { .. } => WatchStep::Live(AgentEventKind::Other),
        RemoteEvent::ToolProgress { .. } => WatchStep::Live(AgentEventKind::Other),
        RemoteEvent::ToolOutput { .. } => WatchStep::Live(AgentEventKind::Other),
        RemoteEvent::Superseded => WatchStep::Live(AgentEventKind::Other),
        RemoteEvent::QueueConsumed { .. } => WatchStep::Consume,
        RemoteEvent::RunCompleted => WatchStep::Stop,
        RemoteEvent::RunFailed(_) => WatchStep::Stop,
        RemoteEvent::RunCancelled => WatchStep::Stop,
        _ => WatchStep::Skip,
    }
}

/// What a key does while a turn is watched.
#[derive(Debug)]
pub enum WatchInput {
    Idle,
    Redraw,
    /// Send this to the turn.
    Queue(LiveSubmission),
    /// Stop watching; the turn goes on.
    Detach,
    /// Hand this to the clipboard, and redraw unless something else owns the
    /// screen.
    Copy { text: String, redraw: bool },
    /// Paste from the clipboard, and redraw unless something else owns the screen.
    ReadClipboard { redraw: bool },
}

pub fn watch_input(action: LiveEditorAction, external: bool, has_turn: bool) -> (r: WatchInput)
    ensures
        match (action, r) {
            (LiveEditorAction::Idle, WatchInput::Idle) => true,
            (LiveEditorAction::Redraw, WatchInput::Redraw) => !external,
            (LiveEditorAction::Redraw, WatchInput::Idle) => external,
            (LiveEditorAction::ClearScreen, WatchInput::Idle) => true,
            (LiveEditorAction::EmptySubmit, WatchInput::Idle) => true,
            (LiveEditorAction::Submit(a), WatchInput::Queue(b)) => has_turn && a == b,
            (LiveEditorAction::Submit(_), WatchInput::Idle) => !has_turn,
            (LiveEditorAction::Interrupt, WatchInput::Detach) => true,
            (LiveEditorAction::Exit, WatchInput::Detach) => true,
            (LiveEditorAction::Copy(a), WatchInput::Copy { text, redraw }) => a == text && redraw
                == !external,
            (LiveEditorAction::ReadClipboard, WatchInput::ReadClipboard { redraw }) => redraw == !external,
            _ => false,
        },
{
    match action {
        LiveEditorAction::Idle => WatchInput::Idle,
        LiveEditorAction::Redraw => if external {
            WatchInput::Idle
        } else {
            WatchInput::Redraw
        },
        LiveEditorAction::ClearScreen => WatchInput::Idle,
        LiveEditorAction::EmptySubmit => WatchInput::Idle,
        LiveEditorAction::Submit(submission) => if has_turn {
            WatchInput::Queue(submission)
        } else {
            WatchInput::Idle
        },
        LiveEditorAction::Interrupt => WatchInput::Detach,
        LiveEditorAction::Exit => WatchInput::Detach,
        LiveEditorAction::Copy(text) => WatchInput::Copy { text, redraw: !external },
        LiveEditorAction::ReadClipboard => WatchInput::ReadClipboard { redraw: !external },
    }
}

/// Ctrl+C on an empty line stops the jobs where there are any and leaves
/// otherwise; a line that is done is handed on as it is; nothing else leaves.
pub proof fn law_prompt_steps(action: LiveEditorAction, has_jobs: bool, r: PromptStep)
    requires
        call_ensures(read_live_repl_input, (action, has_jobs), r),
    ensures
        r is StopJobs <==> action is Interrupt && has_jobs,
        r is Exit <==> action is Exit || (action is Interrupt && !has_jobs),
        r is Submit <==> action is Submit,
        action matches LiveEditorAction::Submit(sent) ==> r->Submit_0 == sent,
        r is CommitEmpty <==> action is EmptySubmit,
        r is Redraw <==> action is Redraw,
        r is ClearScreen <==> action is ClearScreen,
        action matches LiveEditorAction::Copy(text) ==> r->Copy_0 == text,
        r is Copy <==> action is Copy,
        r is ReadClipboard <==> action is ReadClipboard,
{
}

/// While a reply runs here an interrupt stops it, a message is kept for it, and
/// nothing is drawn while something else owns the screen.
pub proof fn law_local_turn_steps(action: LiveEditorAction, external: bool, r: LocalTurnStep)
    requires
        call_ensures(run_live_agent_turn, (action, external), r),
    ensures
        r is Stop <==> action is Interrupt || action is Exit,
        action matches LiveEditorAction::Submit(sent) ==> if external {
            r == LocalTurnStep::QueueOnly(sent)
        } else {
            r == LocalTurnStep::QueueAndShow(sent)
        },
        r is QueueOnly || r is QueueAndShow ==> action is Submit,
        r is Redraw <==> action is Redraw && !external,
        r is ClearScreen <==> action is ClearScreen && !external,
        action matches LiveEditorAction::Copy(text) ==> r is Copy && r->text == text
            && r->Copy_redraw == !external,
        action is ReadClipboard ==> r is ReadClipboard && r->ReadClipboard_redraw == !external,
{
}

/// Watching a turn is left by an interrupt, which does not stop it; a message goes
/// to the turn where it has an identity.
pub proof fn law_watching_steps(
    action: LiveEditorAction,
    external: bool,
    has_turn: bool,
    r: WatchInput,
)
    requires
        call_ensures(watch_input, (action, external, has_turn), r),
    ensures
        r is Detach <==> action is Interrupt || action is Exit,
        r is Queue <==> action is Submit && has_turn,
        action matches LiveEditorAction::Submit(sent) ==> has_turn ==> r->Queue_0 == sent,
        r is Redraw <==> action is Redraw && !external,
        action matches LiveEditorAction::Copy(text) ==> r is Copy && r->text == text
            && r->Copy_redraw == !external,
        action is ReadClipboard ==> r is ReadClipboard && r->ReadClipboard_redraw == !external,
{
}

/// A slash command has to wait exactly where Enter would submit one.
pub proof fn law_commands_wait_for_the_reply(event: &Event, input: &str, r: bool)
    requires
        call_ensures(submits_command, (event, input), r),
    ensures
        r ==> (event matches Event::Key { code: KeyCode::Enter, release: false, .. }),
        r ==> trim_left(input@).len() > 0 && trim_left(input@)[0] == '/',
        (event matches Event::Key { code: KeyCode::Enter, release: false, .. }) && trim_left(
            input@,
        ).len() > 0 && trim_left(input@)[0] == '/' ==> r,
{
    reveal_strlit("/");
    let s = trim_left(input@);
    if s.len() > 0 {
        assert(s.take(1) =~= seq![s[0]]);
        assert("/"@ =~= seq!['/']);
        assert(seq![s[0]][0] == s[0]);
        assert("/"@[0] == '/');
        assert(begins_with(s, "/"@) <==> s[0] == '/');
    } else {
        assert(!begins_with(s, "/"@));
    }
}

/// A text of a reply waits for the next tick; ticks do nothing while something
/// else owns the screen; a tool that owned it gives it back; a question is asked
/// in the open.
pub proof fn law_reply_events_and_the_screen(
    live: &mut LiveReplTail,
    kind: AgentEventKind,
    r: LiveEventStep,
)
    requires
        call_ensures(handle_live_agent_event, (live, kind), r),
    ensures
        ({
            let taken = old(live).external_output_active;
            &&& r is KeepChunk <==> kind is Chunk
            &&& r is GiveScreenAway <==> kind is PrepareForExternalOutput
            &&& r is Consume <==> kind is QueuedPromptsConsumed
            &&& r is Ignore <==> kind is SpinnerTick && taken
            &&& r is TickSpinner <==> kind is SpinnerTick && !taken
            &&& r is HandleAndReturn <==> kind is ToolResult && taken
            &&& r is Ask <==> kind is AskQuestion && !taken
            &&& kind is PrepareForExternalOutput ==> final(live).external_output_active
            &&& kind is ToolResult ==> !final(live).external_output_active
            &&& !(kind is PrepareForExternalOutput || kind is ToolResult) ==> final(live).external_output_active == taken
            &&& final(live).queued == old(live).queued
        }),
{
}

/// What a watcher draws, and when it stops: at the end of the run, however it
/// ended, and not before.
pub proof fn law_watchers_stop_at_the_end(
    turn_id: &mut Option<String>,
    event: &RemoteEvent,
    r: WatchStep,
)
    requires
        call_ensures(follow_wake_run, (turn_id, event), r),
    ensures
        r is Stop <==> event is RunCompleted || event is RunFailed || event is RunCancelled,
        event is Delta ==> r == WatchStep::Live(AgentEventKind::Chunk),
        event is ToolResult ==> r == WatchStep::Live(AgentEventKind::ToolResult),
        event is ToolCall || event is ToolOutput || event is ToolProgress || event is ReasoningStart
            || event is ReasoningTitle || event is ReasoningReset || event is Superseded ==> r
            == WatchStep::Live(AgentEventKind::Other),
        r is Consume <==> event is QueueConsumed,
        event is QuestionRequested || event is ToolImage || event is QueueRemoved || event
            is CompactStart || event is Notice || event is Unknown ==> r is Skip,
        event matches RemoteEvent::TurnStarted(id) ==> *final(turn_id) is Some && (*final(turn_id))->0@ == id@,
        !(event is TurnStarted) ==> *final(turn_id) == *old(turn_id),
{
}

/// A turn is followed only where the daemon accepted that, under the identity
/// that it gave.
pub proof fn law_followed_turn_is_the_accepted_one(
    first: Option<IpcFrame>,
    r: Option<Option<String>>,
)
    requires
        call_ensures(followed_turn, (first,), r),
    ensures
        r is Some <==> first is Some && first->0 is Accepted,
        first matches Some(IpcFrame::Accepted { turn_id, .. }) ==> r == Some(turn_id),
{
}

/// What the tail has to know of an event of this process.
pub proof fn law_agent_events_by_kind(event: &RemoteEvent, r: AgentEventKind)
    requires
        call_ensures(agent_event_kind, (event,), r),
    ensures
        r is Chunk <==> event is Delta,
        r is ToolResult <==> event is ToolResult,
        r is PrepareForExternalOutput <==> event is ToolImage,
        r is AskQuestion <==> event is QuestionRequested,
        r is QueuedPromptsConsumed <==> event is QueueConsumed,
        !(r is SpinnerTick),
{
}

/// While keys are pressed the screen is left alone; otherwise the jobs are taken
/// over, and the tail is drawn anew only where something to show moved.
pub proof fn law_idle_ticks(
    live: &mut LiveReplTail,
    feed: &mut JobsFeed,
    jobs: Vec<JobOverview>,
    typing: bool,
    session: Option<&str>,
    r: IdleStep,
)
    requires
        call_ensures(idle_tick, (live, feed, jobs, typing, session), r),
    ensures
        typing <==> r is Wait,
        typing ==> *final(live) == *old(live) && *final(feed) == *old(feed),
        r is Redraw || r is TickStrip ==> final(live).jobs == jobs && final(live).editor == old(live).editor,
        r is FollowWake ==> session is Some && *old(feed) is Shared && *final(live) == *old(live),
{
}

/// A turn that a job began stands under the name of the job, or a line that says
/// that one finished.
pub proof fn law_woken_turns_are_headed(lang: Lang, label: &str, r: String)
    requires
        call_ensures(wake_run_header, (lang, label), r),
    ensures
        label@.len() > 0 ==> r@ == "\x1b[2m"@ + ("⚙ "@ + label@) + "\x1b[0m"@ + "\r\n\r\n"@,
        label@.len() == 0 ==> r@ == "\x1b[2m"@ + pick(
            lang,
            "⚙ background task finished"@,
            "⚙ 后台任务完成"@,
        ) + "\x1b[0m"@ + "\r\n\r\n"@,
{
}

} // verus!
