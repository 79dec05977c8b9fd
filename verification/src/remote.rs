//! Talking to the daemon: its answers to commands, the events of a running
//! turn, and what they mean for the turn and for the screen.
use crate::editor::{EditorState, LiveEditorAction, LiveReplEditor, LiveSubmission};
use crate::jobs::{opt_string, WakeRun};
use crate::json::{
    count_member, flag_member, image_asset, member, remote_tool_image_asset_id, text_list_member,
    text_member, Json,
};
use crate::lang::{pick, t, Lang};
use crate::mode::{ipc_mode_from_name, mode_named, AgentMode};
use crate::tail::ChatStreamKind;
use crate::text::{decimal, decimal_text, same, texts, trimmed};
use crate::tokens::{ChatResult, TurnTokens, Usage};
use vstd::prelude::*;
use vstd::string::*;

verus! {

/// What the daemon says is wrong.
#[derive(Clone, Copy, Debug, PartialEq, Eq, Structural)]
pub enum ErrorCode {
    Busy,
    Other,
}

/// The answer of daemons that know no error codes while they are busy.
pub open spec fn admin_busy_message() -> Seq<char> {
    "Laozhou is busy with another operation"@
}

/// A frame of the daemon's protocol.
#[derive(Debug)]
pub enum IpcFrame {
    Ack,
    Ready,
    AdminResult { data: Json },
    Error { code: Option<ErrorCode>, message: String },
    Accepted { run_id: String, turn_id: Option<String> },
    TurnUpdateAccepted { prompt_id: String, seq: i64, submitted_at: String },
    Event { kind: String, data: Json },
}

/// Why a command did not go through.
#[derive(Debug)]
pub enum IpcError {
    /// The daemon refused it, with this message.
    Refused(String),
    /// The daemon answered with a frame that is no answer.
    Unexpected,
    /// The daemon closed the connection without an answer.
    Closed,
}

/// What the user is told.
pub open spec fn ipc_error_text(error: IpcError) -> Seq<char> {
    match error {
        IpcError::Refused(message) => message@,
        IpcError::Unexpected => "Laozhou core returned an unexpected response"@,
        IpcError::Closed => "Laozhou core closed the connection without a response"@,
    }
}

impl IpcError {
    pub fn message(&self) -> (r: String)
        ensures
            r@ == ipc_error_text(*self),
    {
        match self {
            IpcError::Refused(message) => message.clone(),
            IpcError::Unexpected => "Laozhou core returned an unexpected response".to_owned(),
            IpcError::Closed => "Laozhou core closed the connection without a response".to_owned(),
        }
    }
}

/// Whether an answer means that the command was carried out.
pub open spec fn is_confirmation(frame: Option<IpcFrame>) -> bool {
    match frame {
        Some(IpcFrame::Ack) => true,
        Some(IpcFrame::Ready) => true,
        Some(IpcFrame::AdminResult { .. }) => true,
        _ => false,
    }
}

/// The error that an answer stands for, where it is no confirmation.
pub open spec fn is_refusal(frame: Option<IpcFrame>, error: IpcError) -> bool {
    match (frame, error) {
        (Some(IpcFrame::Error { message, .. }), IpcError::Refused(text)) => text@ == message@,
        (Some(IpcFrame::Error { .. }), _) => false,
        (Some(_), IpcError::Unexpected) => true,
        (None, IpcError::Closed) => true,
        _ => false,
    }
}

pub fn validate_ipc_command_response(frame: Option<IpcFrame>) -> (r: Result<(), IpcError>)
    ensures
        r is Ok <==> is_confirmation(frame),
        r matches Err(error) ==> is_refusal(frame, error),
{
    match frame {
        Some(IpcFrame::Ack) => Ok(()),
        Some(IpcFrame::Ready) => Ok(()),
        Some(IpcFrame::AdminResult { .. }) => Ok(()),
        Some(IpcFrame::Error { message, .. }) => Err(IpcError::Refused(message)),
        Some(_) => Err(IpcError::Unexpected),
        None => Err(IpcError::Closed),
    }
}

#[derive(Clone, Copy, Debug, PartialEq, Eq, Structural)]
pub enum ConfigReloadResponse {
    Reloaded,
    Busy,
}

/// Whether the daemon is busy: by its code, or by the message of one that
/// knows no codes.
pub open spec fn is_busy(frame: Option<IpcFrame>) -> bool {
    match frame {
        Some(IpcFrame::Error { code, message }) => match code {
            Some(code) => code == ErrorCode::Busy,
            None => message@ == admin_busy_message(),
        },
        _ => false,
    }
}

pub fn validate_config_reload_response(frame: Option<IpcFrame>) -> (r: Result<
    ConfigReloadResponse,
    IpcError,
>)
    ensures
        match r {
            Ok(ConfigReloadResponse::Busy) => is_busy(frame),
            Ok(ConfigReloadResponse::Reloaded) => is_confirmation(frame),
            Err(error) => !is_busy(frame) && !is_confirmation(frame) && is_refusal(frame, error),
        },
{
    if let Some(IpcFrame::Error { code, message }) = &frame {
        let busy = match code {
            Some(code) => *code == ErrorCode::Busy,
            None => same(message.as_str(), "Laozhou is busy with another operation"),
        };
        if busy {
            return Ok(ConfigReloadResponse::Busy);
        }
    }
    match validate_ipc_command_response(frame) {
        Ok(()) => Ok(ConfigReloadResponse::Reloaded),
        Err(error) => Err(error),
    }
}

/// How often a busy daemon is asked to reload its configuration.
pub const RELOAD_MAX_ATTEMPTS: usize = 12;

/// How many seconds pass between two attempts.
pub const RELOAD_RETRY_SECONDS: u64 = 5;

/// How many seconds the daemon has for its answer.
pub const RELOAD_RESPONSE_TIMEOUT_SECONDS: u64 = 60;

/// The number of the first attempt; a limit of none leaves no attempt to make.
pub fn first_reload_attempt(max_attempts: usize) -> (r: Result<usize, &'static str>)
    ensures
        r matches Ok(n) ==> max_attempts > 0 && n == 1,
        r matches Err(message) ==> max_attempts == 0 && message@
            == "reload must allow at least one attempt"@,
{
    if max_attempts == 0 {
        Err("reload must allow at least one attempt")
    } else {
        Ok(1)
    }
}

/// What to do behind an attempt to have the configuration reloaded.
#[derive(Debug)]
pub enum ReloadStep {
    Done,
    /// Say this, wait, and try again.
    Retry(String),
    /// Give up with this message.
    GiveUp(String),
}

pub open spec fn retry_note(lang: Lang, seconds: nat, attempt: nat, max_attempts: nat) -> Seq<
    char,
> {
    match lang {
        Lang::Zh => "Laozhou daemon 正忙；将在 "@ + decimal(seconds)
            + " 秒后重试配置重载（"@ + decimal(attempt) + "/"@ + decimal(max_attempts) + "）"@,
        Lang::En => "Laozhou daemon is busy; retrying configuration reload in "@ + decimal(
            seconds,
        ) + " seconds ("@ + decimal(attempt) + "/"@ + decimal(max_attempts) + ")"@,
    }
}

pub open spec fn give_up_note(lang: Lang, max_attempts: nat) -> Seq<char> {
    match lang {
        Lang::Zh => "Laozhou daemon 在 "@ + decimal(max_attempts)
            + " 次配置重载尝试后仍然忙碌"@,
        Lang::En => "Laozhou daemon remained busy after "@ + decimal(max_attempts)
            + " configuration reload attempts"@,
    }
}

/// The attempts start at one; a busy daemon is asked again until the last one.
pub fn retry_config_reload(
    lang: Lang,
    attempt: usize,
    max_attempts: usize,
    retry_seconds: u64,
    response: ConfigReloadResponse,
) -> (r: ReloadStep)
    requires
        1 <= attempt <= max_attempts,
    ensures
        match r {
            ReloadStep::Done => response is Reloaded,
            ReloadStep::Retry(note) => {
                &&& response is Busy
                &&& attempt < max_attempts
                &&& note@ == retry_note(
                    lang,
                    retry_seconds as nat,
                    attempt as nat,
                    max_attempts as nat,
                )
            },
            ReloadStep::GiveUp(note) => {
                &&& response is Busy
                &&& attempt == max_attempts
                &&& note@ == give_up_note(lang, max_attempts as nat)
            },
        },
{
    match response {
        ConfigReloadResponse::Reloaded => ReloadStep::Done,
        ConfigReloadResponse::Busy => {
            let all = decimal_text(max_attempts as u64);
            if attempt < max_attempts {
                let seconds = decimal_text(retry_seconds);
                let number = decimal_text(attempt as u64);
                let mut note = t(
                    lang,
                    "Laozhou daemon is busy; retrying configuration reload in ",
                    "Laozhou daemon 正忙；将在 ",
                ).to_owned();
                note.append(seconds.as_str());
                note.append(t(lang, " seconds (", " 秒后重试配置重载（"));
                note.append(number.as_str());
                note.append("/");
                note.append(all.as_str());
                note.append(t(lang, ")", "）"));
                ReloadStep::Retry(note)
            } else {
                let mut note = t(lang, "Laozhou daemon remained busy after ", "Laozhou daemon 在 ").to_owned();
                note.append(all.as_str());
                note.append(
                    t(lang, " configuration reload attempts", " 次配置重载尝试后仍然忙碌"),
                );
                ReloadStep::GiveUp(note)
            }
        },
    }
}

/// How an exchange of `responses`, one per attempt, ends.
pub enum ReloadEnd {
    Reloaded,
    GaveUp,
    StillAsking,
}

/// The end of a reload, and the number of attempts it took.
pub open spec fn reload_run(
    responses: Seq<ConfigReloadResponse>,
    attempt: int,
    max_attempts: int,
) -> (ReloadEnd, int)
    decreases responses.len(),
{
    if responses.len() == 0 {
        (ReloadEnd::StillAsking, attempt - 1)
    } else if responses[0] is Reloaded {
        (ReloadEnd::Reloaded, attempt)
    } else if attempt >= max_attempts {
        (ReloadEnd::GaveUp, attempt)
    } else {
        reload_run(responses.drop_first(), attempt + 1, max_attempts)
    }
}

/// A daemon that is busy `n` times and then reloads is asked `n + 1` times,
/// where that many attempts are allowed; one that is busy throughout is asked
/// exactly as often as is allowed.
pub proof fn law_reload_attempts(responses: Seq<ConfigReloadResponse>, max_attempts: int, n: int)
    requires
        max_attempts >= 1,
        0 <= n < responses.len(),
        forall|i: int| 0 <= i < n ==> (#[trigger] responses[i]) is Busy,
    ensures
        n < max_attempts && responses[n] is Reloaded ==> reload_run(responses, 1, max_attempts) == (
            ReloadEnd::Reloaded,
            n + 1,
        ),
        n + 1 >= max_attempts && responses[n] is Busy ==> reload_run(responses, 1, max_attempts)
            == (ReloadEnd::GaveUp, max_attempts),
{
    lemma_reload_run(responses, 1, max_attempts, n);
}

proof fn lemma_reload_run(
    responses: Seq<ConfigReloadResponse>,
    attempt: int,
    max_attempts: int,
    n: int,
)
    requires
        1 <= attempt <= max_attempts,
        0 <= n < responses.len(),
        forall|i: int| 0 <= i < n ==> (#[trigger] responses[i]) is Busy,
    ensures
        attempt + n <= max_attempts && responses[n] is Reloaded ==> reload_run(
            responses,
            attempt,
            max_attempts,
        ) == (ReloadEnd::Reloaded, attempt + n),
        attempt + n >= max_attempts && responses[n] is Busy ==> reload_run(
            responses,
            attempt,
            max_attempts,
        ) == (ReloadEnd::GaveUp, max_attempts),
    decreases responses.len(),
{
    if n > 0 {
        assert(responses[0] is Busy);
        if attempt < max_attempts {
            let rest = responses.drop_first();
            assert(rest[n - 1] == responses[n]);
            assert forall|i: int| 0 <= i < n - 1 implies (#[trigger] rest[i]) is Busy by {
                assert(rest[i] == responses[i + 1]);
            }
            lemma_reload_run(rest, attempt + 1, max_attempts, n - 1);
        }
    }
}

/// An event of a running turn.
#[derive(Debug)]
pub enum RemoteEvent {
    TurnStarted(String),
    Delta { kind: ChatStreamKind, text: String },
    ReasoningStart,
    ReasoningReset,
    ReasoningPartStart,
    ReasoningPartEnd,
    ReasoningTitle(String),
    ToolPreparing { name: String },
    ToolCall { call_id: String, name: String, arguments: String },
    ToolProgress { call_id: String, name: String, message: String },
    ToolOutput { call_id: String, name: String, stderr: bool, output: String },
    ToolResult { call_id: String, name: String, ok: bool, output: String },
    ToolImage { name: String, asset_id: Option<String> },
    QuestionRequested { question_id: String },
    QueueConsumed { prompt_ids: Vec<String>, mode: AgentMode },
    QueueRemoved { prompt_id: Option<String> },
    Superseded,
    CompactStart,
    CompactDelta(String),
    CompactEnd,
    PopStart,
    PopEnd,
    Notice(String),
    RunCompleted,
    RunFailed(String),
    RunCancelled,
    Unknown,
}

/// The same with texts as sequences.
pub enum TurnEvent {
    TurnStarted(Seq<char>),
    Delta(ChatStreamKind, Seq<char>),
    ReasoningStart,
    ReasoningReset,
    ReasoningPartStart,
    ReasoningPartEnd,
    ReasoningTitle(Seq<char>),
    ToolPreparing(Seq<char>),
    ToolCall(Seq<char>, Seq<char>, Seq<char>),
    ToolProgress(Seq<char>, Seq<char>, Seq<char>),
    ToolOutput(Seq<char>, Seq<char>, bool, Seq<char>),
    ToolResult(Seq<char>, Seq<char>, bool, Seq<char>),
    ToolImage(Seq<char>, Option<Seq<char>>),
    QuestionRequested(Seq<char>),
    QueueConsumed(Seq<Seq<char>>, AgentMode),
    QueueRemoved(Option<Seq<char>>),
    Superseded,
    CompactStart,
    CompactDelta(Seq<char>),
    CompactEnd,
    PopStart,
    PopEnd,
    Notice(Seq<char>),
    RunCompleted,
    RunFailed(Seq<char>),
    RunCancelled,
    Unknown,
}

impl View for RemoteEvent {
    type V = TurnEvent;

    open spec fn view(&self) -> TurnEvent {
        match self {
            RemoteEvent::TurnStarted(id) => TurnEvent::TurnStarted(id@),
            RemoteEvent::Delta { kind, text } => TurnEvent::Delta(*kind, text@),
            RemoteEvent::ReasoningStart => TurnEvent::ReasoningStart,
            RemoteEvent::ReasoningReset => TurnEvent::ReasoningReset,
            RemoteEvent::ReasoningPartStart => TurnEvent::ReasoningPartStart,
            RemoteEvent::ReasoningPartEnd => TurnEvent::ReasoningPartEnd,
            RemoteEvent::ReasoningTitle(title) => TurnEvent::ReasoningTitle(title@),
            RemoteEvent::ToolPreparing { name } => TurnEvent::ToolPreparing(name@),
            RemoteEvent::ToolCall { call_id, name, arguments } => TurnEvent::ToolCall(
                call_id@,
                name@,
                arguments@,
            ),
            RemoteEvent::ToolProgress { call_id, name, message } => TurnEvent::ToolProgress(
                call_id@,
                name@,
                message@,
            ),
            RemoteEvent::ToolOutput { call_id, name, stderr, output } => TurnEvent::ToolOutput(
                call_id@,
                name@,
                *stderr,
                output@,
            ),
            RemoteEvent::ToolResult { call_id, name, ok, output } => TurnEvent::ToolResult(
                call_id@,
                name@,
                *ok,
                output@,
            ),
            RemoteEvent::ToolImage { name, asset_id } => TurnEvent::ToolImage(
                name@,
                opt_string(*asset_id),
            ),
            RemoteEvent::QuestionRequested { question_id } => TurnEvent::QuestionRequested(
                question_id@,
            ),
            RemoteEvent::QueueConsumed { prompt_ids, mode } => TurnEvent::QueueConsumed(
                texts(prompt_ids@),
                *mode,
            ),
            RemoteEvent::QueueRemoved { prompt_id } => TurnEvent::QueueRemoved(
                opt_string(*prompt_id),
            ),
            RemoteEvent::Superseded => TurnEvent::Superseded,
            RemoteEvent::CompactStart => TurnEvent::CompactStart,
            RemoteEvent::CompactDelta(text) => TurnEvent::CompactDelta(text@),
            RemoteEvent::CompactEnd => TurnEvent::CompactEnd,
            RemoteEvent::PopStart => TurnEvent::PopStart,
            RemoteEvent::PopEnd => TurnEvent::PopEnd,
            RemoteEvent::Notice(text) => TurnEvent::Notice(text@),
            RemoteEvent::RunCompleted => TurnEvent::RunCompleted,
            RemoteEvent::RunFailed(message) => TurnEvent::RunFailed(message@),
            RemoteEvent::RunCancelled => TurnEvent::RunCancelled,
            RemoteEvent::Unknown => TurnEvent::Unknown,
        }
    }
}

/// A text member, where there is one.
pub open spec fn opt_text_member(data: Json, key: Seq<char>) -> Option<Seq<char>> {
    match member(data, key) {
        Some(Json::Text(text)) => Some(text@),
        _ => None,
    }
}

/// What a frame of the kind `kind` with the values `data` reports.
pub open spec fn event_of(kind: Seq<char>, data: Json) -> TurnEvent {
    if kind == "turn.started"@ {
        TurnEvent::TurnStarted(text_member(data, "turn_id"@))
    } else if kind == "assistant.delta"@ {
        TurnEvent::Delta(ChatStreamKind::Content, text_member(data, "delta"@))
    } else if kind == "reasoning.delta"@ {
        TurnEvent::Delta(ChatStreamKind::Reasoning, text_member(data, "delta"@))
    } else if kind == "reasoning.start"@ {
        TurnEvent::ReasoningStart
    } else if kind == "reasoning.reset"@ {
        TurnEvent::ReasoningReset
    } else if kind == "reasoning.part_start"@ {
        TurnEvent::ReasoningPartStart
    } else if kind == "reasoning.part_end"@ {
        TurnEvent::ReasoningPartEnd
    } else if kind == "reasoning.title"@ {
        TurnEvent::ReasoningTitle(text_member(data, "title"@))
    } else if kind == "tool.preparing"@ {
        TurnEvent::ToolPreparing(text_member(data, "name"@))
    } else if kind == "tool.started"@ {
        TurnEvent::ToolCall(
            text_member(data, "tool_id"@),
            text_member(data, "name"@),
            text_member(data, "arguments"@),
        )
    } else if kind == "tool.progress"@ {
        TurnEvent::ToolProgress(
            text_member(data, "tool_id"@),
            text_member(data, "name"@),
            text_member(data, "message"@),
        )
    } else if kind == "tool.output"@ {
        TurnEvent::ToolOutput(
            text_member(data, "tool_id"@),
            text_member(data, "name"@),
            text_member(data, "stream"@) == "stderr"@,
            text_member(data, "output"@),
        )
    } else if kind == "tool.finished"@ {
        TurnEvent::ToolResult(
            text_member(data, "tool_id"@),
            text_member(data, "name"@),
            flag_member(data, "ok"@),
            text_member(data, "output"@),
        )
    } else if kind == "tool.image"@ {
        TurnEvent::ToolImage(text_member(data, "name"@), image_asset(data))
    } else if kind == "question.requested"@ {
        TurnEvent::QuestionRequested(text_member(data, "question_id"@))
    } else if kind == "queue.consumed"@ {
        TurnEvent::QueueConsumed(
            text_list_member(data, "prompt_ids"@),
            mode_named(text_member(data, "mode"@)),
        )
    } else if kind == "queue.removed"@ {
        TurnEvent::QueueRemoved(opt_text_member(data, "prompt_id"@))
    } else if kind == "generation.superseded"@ {
        TurnEvent::Superseded
    } else if kind == "context.compact_start"@ {
        TurnEvent::CompactStart
    } else if kind == "context.compact_delta"@ {
        TurnEvent::CompactDelta(text_member(data, "delta"@))
    } else if kind == "context.compact_end"@ {
        TurnEvent::CompactEnd
    } else if kind == "context.pop_start"@ {
        TurnEvent::PopStart
    } else if kind == "context.pop_end"@ {
        TurnEvent::PopEnd
    } else if kind == "context.notice"@ {
        TurnEvent::Notice(text_member(data, "text"@))
    } else if kind == "run.completed"@ {
        TurnEvent::RunCompleted
    } else if kind == "run.failed"@ {
        TurnEvent::RunFailed(text_member(data, "message"@))
    } else if kind == "run.cancelled"@ {
        TurnEvent::RunCancelled
    } else {
        TurnEvent::Unknown
    }
}

fn text_of(data: &Json, key: &str) -> (r: String)
    ensures
        r@ == text_member(*data, key@),
{
    data.text(key).to_owned()
}

fn decode_tool_event(kind: &str, data: &Json) -> (r: Option<RemoteEvent>)
    ensures
        r matches Some(event) ==> event@ == event_of(kind@, *data),
        r is None ==> kind@ != "tool.preparing"@ && kind@ != "tool.started"@ && kind@
            != "tool.progress"@ && kind@ != "tool.output"@ && kind@ != "tool.finished"@ && kind@
            != "tool.image"@,
{
    proof {
        lemma_tool_kinds();
    }
    if same(kind, "tool.preparing") {
        Some(RemoteEvent::ToolPreparing { name: text_of(data, "name") })
    } else if same(kind, "tool.started") {
        Some(
            RemoteEvent::ToolCall {
                call_id: text_of(data, "tool_id"),
                name: text_of(data, "name"),
                arguments: text_of(data, "arguments"),
            },
        )
    } else if same(kind, "tool.progress") {
        Some(
            RemoteEvent::ToolProgress {
                call_id: text_of(data, "tool_id"),
                name: text_of(data, "name"),
                message: text_of(data, "message"),
            },
        )
    } else if same(kind, "tool.output") {
        Some(
            RemoteEvent::ToolOutput {
                call_id: text_of(data, "tool_id"),
                name: text_of(data, "name"),
                stderr: same(data.text("stream"), "stderr"),
                output: text_of(data, "output"),
            },
        )
    } else if same(kind, "tool.finished") {
        Some(
            RemoteEvent::ToolResult {
                call_id: text_of(data, "tool_id"),
                name: text_of(data, "name"),
                ok: data.flag("ok"),
                output: text_of(data, "output"),
            },
        )
    } else if same(kind, "tool.image") {
        let asset_id = match remote_tool_image_asset_id(data) {
            Some(id) => Some(id.to_owned()),
            None => None,
        };
        Some(RemoteEvent::ToolImage { name: text_of(data, "name"), asset_id })
    } else {
        None
    }
}

/// The kinds of tool events are none of the kinds that are looked at before
/// them.
proof fn lemma_tool_kinds()
    ensures
        forall|k: Seq<char>|
            #[trigger] is_tool_kind(k) ==> k != "turn.started"@ && k != "assistant.delta"@ && k
                != "reasoning.delta"@ && k != "reasoning.start"@ && k != "reasoning.reset"@ && k
                != "reasoning.part_start"@ && k != "reasoning.part_end"@ && k
                != "reasoning.title"@,
        is_tool_kind("tool.preparing"@),
        is_tool_kind("tool.started"@),
        is_tool_kind("tool.progress"@),
        is_tool_kind("tool.output"@),
        is_tool_kind("tool.finished"@),
        is_tool_kind("tool.image"@),
{
    reveal_strlit("tool.preparing");
    reveal_strlit("tool.started");
    reveal_strlit("tool.progress");
    reveal_strlit("tool.output");
    reveal_strlit("tool.finished");
    reveal_strlit("tool.image");
    reveal_strlit("turn.started");
    reveal_strlit("assistant.delta");
    reveal_strlit("reasoning.delta");
    reveal_strlit("reasoning.start");
    reveal_strlit("reasoning.reset");
    reveal_strlit("reasoning.part_start");
    reveal_strlit("reasoning.part_end");
    reveal_strlit("reasoning.title");
}

pub open spec fn is_tool_kind(k: Seq<char>) -> bool {
    k.len() >= 2 && k[0] == 't' && k[1] == 'o'
}

pub fn decode_event(kind: &str, data: &Json) -> (r: RemoteEvent)
    ensures
        r@ == event_of(kind@, *data),
{
    if same(kind, "turn.started") {
        RemoteEvent::TurnStarted(text_of(data, "turn_id"))
    } else if same(kind, "assistant.delta") {
        RemoteEvent::Delta { kind: ChatStreamKind::Content, text: text_of(data, "delta") }
    } else if same(kind, "reasoning.delta") {
        RemoteEvent::Delta { kind: ChatStreamKind::Reasoning, text: text_of(data, "delta") }
    } else if same(kind, "reasoning.start") {
        RemoteEvent::ReasoningStart
    } else if same(kind, "reasoning.reset") {
        RemoteEvent::ReasoningReset
    } else if same(kind, "reasoning.part_start") {
        RemoteEvent::ReasoningPartStart
    } else if same(kind, "reasoning.part_end") {
        RemoteEvent::ReasoningPartEnd
    } else if same(kind, "reasoning.title") {
        RemoteEvent::ReasoningTitle(text_of(data, "title"))
    } else if let Some(event) = decode_tool_event(kind, data) {
        event
    } else if same(kind, "question.requested") {
        RemoteEvent::QuestionRequested { question_id: text_of(data, "question_id") }
    } else if same(kind, "queue.consumed") {
        RemoteEvent::QueueConsumed {
            prompt_ids: data.text_list("prompt_ids"),
            mode: ipc_mode_from_name(data.text("mode")),
        }
    } else if same(kind, "queue.removed") {
        RemoteEvent::QueueRemoved { prompt_id: data.opt_text("prompt_id") }
    } else if same(kind, "generation.superseded") {
        RemoteEvent::Superseded
    } else if same(kind, "context.compact_start") {
        RemoteEvent::CompactStart
    } else if same(kind, "context.compact_delta") {
        RemoteEvent::CompactDelta(text_of(data, "delta"))
    } else if same(kind, "context.compact_end") {
        RemoteEvent::CompactEnd
    } else if same(kind, "context.pop_start") {
        RemoteEvent::PopStart
    } else if same(kind, "context.pop_end") {
        RemoteEvent::PopEnd
    } else if same(kind, "context.notice") {
        RemoteEvent::Notice(text_of(data, "text"))
    } else if same(kind, "run.completed") {
        RemoteEvent::RunCompleted
    } else if same(kind, "run.failed") {
        RemoteEvent::RunFailed(text_of(data, "message"))
    } else if same(kind, "run.cancelled") {
        RemoteEvent::RunCancelled
    } else {
        RemoteEvent::Unknown
    }
}

/// What a turn has come to so far.
#[derive(Debug)]
pub struct RemoteTurn {
    pub turn_id: Option<String>,
    pub content: String,
    pub reasoning: String,
}

/// The same as sequences.
pub struct TurnText {
    pub turn_id: Option<Seq<char>>,
    pub content: Seq<char>,
    pub reasoning: Seq<char>,
}

impl View for RemoteTurn {
    type V = TurnText;

    open spec fn view(&self) -> TurnText {
        TurnText {
            turn_id: opt_string(self.turn_id),
            content: self.content@,
            reasoning: self.reasoning@,
        }
    }
}

/// What an event does to the turn.
pub open spec fn turn_after(turn: TurnText, event: TurnEvent) -> TurnText {
    match event {
        TurnEvent::TurnStarted(id) => if id.len() > 0 {
            TurnText { turn_id: Some(id), ..turn }
        } else {
            turn
        },
        TurnEvent::Delta(ChatStreamKind::Content, text) => TurnText {
            content: turn.content + text,
            ..turn
        },
        TurnEvent::Delta(ChatStreamKind::Reasoning, text) => TurnText {
            reasoning: turn.reasoning + text,
            ..turn
        },
        TurnEvent::ReasoningReset => TurnText { reasoning: Seq::empty(), ..turn },
        TurnEvent::Superseded => TurnText {
            content: Seq::empty(),
            reasoning: Seq::empty(),
            ..turn
        },
        _ => turn,
    }
}

/// How a turn goes on behind an event.
#[derive(Debug)]
pub enum TurnStep {
    Continue,
    Completed,
    /// The turn ended with this error.
    Failed(String),
    /// The turn was called off.
    Cancelled,
}

pub open spec fn step_of(event: TurnEvent, step: TurnStep) -> bool {
    match (event, step) {
        (TurnEvent::RunCompleted, TurnStep::Completed) => true,
        (TurnEvent::RunFailed(message), TurnStep::Failed(text)) => text@ == message,
        (TurnEvent::RunCancelled, TurnStep::Cancelled) => true,
        (TurnEvent::RunCompleted, _) => false,
        (TurnEvent::RunFailed(_), _) => false,
        (TurnEvent::RunCancelled, _) => false,
        (_, TurnStep::Continue) => true,
        _ => false,
    }
}

impl RemoteTurn {
    pub fn new() -> (r: Self)
        ensures
            r@.turn_id is None,
            r@.content.len() == 0,
            r@.reasoning.len() == 0,
    {
        RemoteTurn { turn_id: None, content: String::new(), reasoning: String::new() }
    }

    pub fn absorb(&mut self, event: &RemoteEvent) -> (step: TurnStep)
        ensures
            final(self)@ == turn_after(old(self)@, event@),
            step_of(event@, step),
    {
        match event {
            RemoteEvent::TurnStarted(id) => {
                if !id.as_str().is_empty() {
                    self.turn_id = Some(id.clone());
                }
                TurnStep::Continue
            },
            RemoteEvent::Delta { kind, text } => {
                match kind {
                    ChatStreamKind::Content => self.content.append(text.as_str()),
                    ChatStreamKind::Reasoning => self.reasoning.append(text.as_str()),
                }
                TurnStep::Continue
            },
            RemoteEvent::ReasoningReset => {
                self.reasoning = String::new();
                TurnStep::Continue
            },
            RemoteEvent::Superseded => {
                self.content = String::new();
                self.reasoning = String::new();
                TurnStep::Continue
            },
            RemoteEvent::RunCompleted => TurnStep::Completed,
            RemoteEvent::RunFailed(message) => TurnStep::Failed(message.clone()),
            RemoteEvent::RunCancelled => TurnStep::Cancelled,
            _ => TurnStep::Continue,
        }
    }
}

/// The turn behind the first `n` events.
pub open spec fn turn_after_all(turn: TurnText, events: Seq<TurnEvent>, n: int) -> TurnText
    decreases n,
{
    if n <= 0 {
        turn
    } else {
        turn_after(turn_after_all(turn, events, n - 1), events[n - 1])
    }
}

/// The reply that is kept is what was streamed since the last time it was
/// superseded.
pub proof fn law_content_is_what_streamed(turn: TurnText, events: Seq<TurnEvent>, n: int)
    requires
        0 <= n <= events.len(),
    ensures
        turn_after_all(turn, events, n).content == streamed_content(turn.content, events, n),
    decreases n,
{
    if n > 0 {
        law_content_is_what_streamed(turn, events, n - 1);
    }
}

/// The deltas of the reply one behind the other, started anew wherever it was
/// superseded.
pub open spec fn streamed_content(start: Seq<char>, events: Seq<TurnEvent>, n: int) -> Seq<char>
    decreases n,
{
    if n <= 0 {
        start
    } else {
        match events[n - 1] {
            TurnEvent::Delta(ChatStreamKind::Content, text) => streamed_content(
                start,
                events,
                n - 1,
            ) + text,
            TurnEvent::Superseded => Seq::empty(),
            _ => streamed_content(start, events, n - 1),
        }
    }
}

/// The answer to a request for a new turn.
#[derive(Debug)]
pub enum StartOutcome {
    Running(String),
    Refused(String),
}

/// The identity of the run that a first frame announces, or why there is none.
pub fn accepted_run(first: Option<IpcFrame>) -> (r: StartOutcome)
    ensures
        match (first, r) {
            (Some(IpcFrame::Accepted { run_id, .. }), StartOutcome::Running(id)) => id@ == run_id@,
            (Some(IpcFrame::Accepted { .. }), _) => false,
            (Some(IpcFrame::Error { message, .. }), StartOutcome::Refused(text)) => text@
                == message@,
            (Some(_), StartOutcome::Refused(text)) => text@
                == "Laozhou core returned an invalid response"@,
            (None, StartOutcome::Refused(text)) => text@
                == "Laozhou core closed the connection before accepting the turn"@,
            _ => false,
        },
{
    match first {
        Some(IpcFrame::Accepted { run_id, .. }) => StartOutcome::Running(run_id),
        Some(IpcFrame::Error { message, .. }) => StartOutcome::Refused(message),
        Some(_) => StartOutcome::Refused("Laozhou core returned an invalid response".to_owned()),
        None => StartOutcome::Refused(
            "Laozhou core closed the connection before accepting the turn".to_owned(),
        ),
    }
}

/// What a frame that arrives during a turn is.
#[derive(Debug)]
pub enum TurnFrame {
    Event(RemoteEvent),
    /// The turn ends with this error.
    Broken(String),
    /// A frame that does not concern the turn.
    Skipped,
}

pub fn turn_frame(frame: Option<&IpcFrame>) -> (r: TurnFrame)
    ensures
        match (frame, r) {
            (Some(IpcFrame::Event { kind, data }), TurnFrame::Event(event)) => event@ == event_of(
                kind@,
                *data,
            ),
            (Some(IpcFrame::Event { .. }), _) => false,
            (Some(IpcFrame::Error { message, .. }), TurnFrame::Broken(text)) => text@ == message@,
            (Some(IpcFrame::Error { .. }), _) => false,
            (Some(_), TurnFrame::Skipped) => true,
            (None, TurnFrame::Broken(text)) => text@
                == "Laozhou core disconnected during the turn"@,
            _ => false,
        },
{
    match frame {
        Some(IpcFrame::Event { kind, data }) => TurnFrame::Event(decode_event(kind.as_str(), data)),
        Some(IpcFrame::Error { message, .. }) => TurnFrame::Broken(message.clone()),
        Some(_) => TurnFrame::Skipped,
        None => TurnFrame::Broken("Laozhou core disconnected during the turn".to_owned()),
    }
}

/// What the tail below the output has to do for an event of a turn that the
/// daemon runs.
#[derive(Clone, Copy, Debug, PartialEq, Eq, Structural)]
pub enum TailStep {
    /// Take over what the renderer wrote.
    Frame,
    /// A tool that wrote to the screen by itself is done: show the tail again.
    Return,
    /// A picture is drawn: leave the screen and stay away.
    LeaveForPicture,
    /// A question is asked: leave the screen and come back behind it.
    LeaveForQuestion,
    /// Messages of the queue were taken up.
    Consume,
    /// A message of the queue was dropped.
    Drop,
}

pub open spec fn tail_step_of(event: TurnEvent, external: bool) -> TailStep {
    match event {
        TurnEvent::ToolResult(_, _, _, _) => if external {
            TailStep::Return
        } else {
            TailStep::Frame
        },
        TurnEvent::ToolImage(_, _) => TailStep::LeaveForPicture,
        TurnEvent::QuestionRequested(_) => TailStep::LeaveForQuestion,
        TurnEvent::QueueConsumed(_, _) => TailStep::Consume,
        TurnEvent::QueueRemoved(Some(_)) => TailStep::Drop,
        _ => TailStep::Frame,
    }
}

/// Whether something else owns the screen behind the event.
pub open spec fn external_after(event: TurnEvent, external: bool) -> bool {
    match event {
        TurnEvent::ToolResult(_, _, _, _) => false,
        TurnEvent::ToolImage(_, _) => true,
        TurnEvent::QuestionRequested(_) => false,
        _ => external,
    }
}

pub fn tail_step(event: &RemoteEvent, external: bool) -> (r: (TailStep, bool))
    ensures
        r.0 == tail_step_of(event@, external),
        r.1 == external_after(event@, external),
{
    match event {
        RemoteEvent::ToolResult { .. } => if external {
            (TailStep::Return, false)
        } else {
            (TailStep::Frame, false)
        },
        RemoteEvent::ToolImage { .. } => (TailStep::LeaveForPicture, true),
        RemoteEvent::QuestionRequested { .. } => (TailStep::LeaveForQuestion, false),
        RemoteEvent::QueueConsumed { .. } => (TailStep::Consume, external),
        RemoteEvent::QueueRemoved { prompt_id: Some(_) } => (TailStep::Drop, external),
        _ => (TailStep::Frame, external),
    }
}

/// What a reader of the keyboard does while a turn runs.
#[derive(Debug)]
pub enum TurnInput {
    Idle,
    Redraw,
    ClearScreen,
    /// Send this to the turn, and show it in the queue once it is accepted.
    Queue(LiveSubmission),
    /// Put the line back into the editor and say why.
    GiveBack { line: String, note: String },
    /// Call the turn off.
    Cancel,
    /// Hand this to the clipboard, and redraw unless something else owns the
    /// screen.
    Copy { text: String, redraw: bool },
    /// Paste from the clipboard, and redraw unless something else owns the screen.
    ReadClipboard { redraw: bool },
}

/// Why a message cannot be sent to a turn that has no identity yet.
pub open spec fn still_starting_note(lang: Lang) -> Seq<char> {
    pick(
        lang,
        "the reply is still starting; try sending the follow-up again"@,
        "当前回复仍在启动，请稍后重新发送追加消息"@,
    )
}

/// What becomes of an answer of the editor while a turn runs: nothing is drawn
/// while something else owns the screen, and messages wait for a turn that has
/// an identity.
pub fn turn_input(lang: Lang, action: LiveEditorAction, external: bool, has_turn: bool) -> (r:
    TurnInput)
    ensures
        match (action, r) {
            (LiveEditorAction::Idle, TurnInput::Idle) => true,
            (LiveEditorAction::Redraw, TurnInput::Redraw) => !external,
            (LiveEditorAction::Redraw, TurnInput::Idle) => external,
            (LiveEditorAction::ClearScreen, TurnInput::ClearScreen) => !external,
            (LiveEditorAction::ClearScreen, TurnInput::Idle) => external,
            (LiveEditorAction::EmptySubmit, TurnInput::Idle) => true,
            (LiveEditorAction::Submit(a), TurnInput::Queue(b)) => has_turn && a == b,
            (LiveEditorAction::Submit(a), TurnInput::GiveBack { line, note }) => !has_turn && line@
                == a.display_content@ && note@ == still_starting_note(lang),
            (LiveEditorAction::Interrupt, TurnInput::Cancel) => true,
            (LiveEditorAction::Exit, TurnInput::Cancel) => true,
            (LiveEditorAction::Copy(a), TurnInput::Copy { text, redraw }) => a == text && redraw
                == !external,
            (LiveEditorAction::ReadClipboard, TurnInput::ReadClipboard { redraw }) => redraw == !external,
            _ => false,
        },
{
    match action {
        LiveEditorAction::Idle => TurnInput::Idle,
        LiveEditorAction::Redraw => if external {
            TurnInput::Idle
        } else {
            TurnInput::Redraw
        },
        LiveEditorAction::ClearScreen => if external {
            TurnInput::Idle
        } else {
            TurnInput::ClearScreen
        },
        LiveEditorAction::EmptySubmit => TurnInput::Idle,
        LiveEditorAction::Submit(submission) => if has_turn {
            TurnInput::Queue(submission)
        } else {
            TurnInput::GiveBack {
                line: submission.display_content,
                note: t(
                    lang,
                    "the reply is still starting; try sending the follow-up again",
                    "当前回复仍在启动，请稍后重新发送追加消息",
                ).to_owned(),
            }
        },
        LiveEditorAction::Interrupt => TurnInput::Cancel,
        LiveEditorAction::Exit => TurnInput::Cancel,
        LiveEditorAction::Copy(text) => TurnInput::Copy { text, redraw: !external },
        LiveEditorAction::ReadClipboard => TurnInput::ReadClipboard { redraw: !external },
    }
}

impl LiveReplEditor {
    /// Puts a line back that could not be sent, with the cursor behind it.
    pub fn give_back(&mut self, line: &str)
        ensures
            final(self)@ == (EditorState {
                input: line@,
                cursor: line@.len() as int,
                ..old(self)@
            }),
    {
        self.input = line.to_owned();
        self.cursor = line.unicode_len();
    }
}

/// Whether the strip is due at a tick of the spinner: at every eighth, unless
/// something else owns the screen. Returns the tick that follows.
pub fn strip_tick(tick: u32, external: bool) -> (r: (u32, bool))
    ensures
        r.0 == if tick == u32::MAX {
            0
        } else {
            (tick + 1) as u32
        },
        r.1 == (r.0 % 8 == 0 && !external),
{
    let next: u32 = if tick == u32::MAX {
        0
    } else {
        tick + 1
    };
    (next, next % 8 == 0 && !external)
}

/// What a finished turn left behind.
#[derive(Debug)]
pub struct RemoteTurnSummary {
    pub result: ChatResult,
    pub reasoning: Option<String>,
    pub context_tokens: u64,
    pub context_window: Option<usize>,
    pub cumulative_tokens: TurnTokens,
}

pub open spec fn count_or_zero(data: Json, key: Seq<char>) -> u64 {
    match count_member(data, key) {
        Some(n) => n,
        None => 0,
    }
}

pub fn count_or(data: &Json, key: &str) -> (r: u64)
    ensures
        r == count_or_zero(*data, key@),
{
    match data.count(key) {
        Some(n) => n,
        None => 0,
    }
}

/// The summary of a turn out of the values of its last event. The usage is read
/// by the caller.
pub fn remote_turn_summary(turn: RemoteTurn, completion: &Json, usage: Option<Usage>) -> (r:
    RemoteTurnSummary)
    ensures
        r.result.content@ == turn@.content,
        r.result.usage == usage,
        r.result.usage_estimated == flag_member(*completion, "usage_estimated"@),
        opt_string(r.result.provider_id) == opt_text_member(*completion, "provider_id"@),
        opt_string(r.result.model) == opt_text_member(*completion, "model"@),
        opt_string(r.reasoning) == if turn@.reasoning.len() == 0 {
            None
        } else {
            Some(turn@.reasoning)
        },
        r.context_tokens == count_or_zero(*completion, "context_tokens"@),
        r.context_window == match count_member(*completion, "context_window"@) {
            Some(n) => if n <= usize::MAX {
                Some(n as usize)
            } else {
                None
            },
            None => None,
        },
        r.cumulative_tokens == (TurnTokens {
            total: count_or_zero(*completion, "cumulative_tokens"@),
            prompt: count_or_zero(*completion, "cumulative_prompt_tokens"@),
            cache_read: count_or_zero(*completion, "cumulative_cache_read_tokens"@),
        }),
{
    let context_window: Option<usize> = match completion.count("context_window") {
        Some(n) => if n <= usize::MAX as u64 {
            Some(n as usize)
        } else {
            None
        },
        None => None,
    };
    let reasoning = if turn.reasoning.as_str().is_empty() {
        None
    } else {
        Some(turn.reasoning)
    };
    RemoteTurnSummary {
        result: ChatResult {
            content: turn.content,
            usage,
            usage_estimated: completion.flag("usage_estimated"),
            provider_id: completion.opt_text("provider_id"),
            model: completion.opt_text("model"),
        },
        reasoning,
        context_tokens: count_or(completion, "context_tokens"),
        context_window,
        cumulative_tokens: TurnTokens {
            total: count_or(completion, "cumulative_tokens"),
            prompt: count_or(completion, "cumulative_prompt_tokens"),
            cache_read: count_or(completion, "cumulative_cache_read_tokens"),
        },
    }
}

/// The runs that an overview of the daemon lists: those with a run and a
/// session.
pub open spec fn wake_runs_among(rows: Seq<Json>, n: int) -> Seq<(Seq<char>, Seq<char>, Seq<char>)>
    decreases n,
{
    if n <= 0 {
        Seq::empty()
    } else {
        let before = wake_runs_among(rows, n - 1);
        let row = rows[n - 1];
        match (opt_text_member(row, "run_id"@), opt_text_member(row, "session_id"@)) {
            (Some(run), Some(session)) => before.push((run, session, text_member(row, "label"@))),
            _ => before,
        }
    }
}

pub open spec fn wake_run_views(v: Seq<WakeRun>) -> Seq<(Seq<char>, Seq<char>, Seq<char>)> {
    v.map_values(|r: WakeRun| (r.run_id@, r.session_id@, r.label@))
}

pub fn decode_wake_runs(data: &Json) -> (r: Vec<WakeRun>)
    ensures
        wake_run_views(r@) == match member(*data, "wake_runs"@) {
            Some(Json::Array(rows)) => wake_runs_among(rows@, rows@.len() as int),
            _ => Seq::empty(),
        },
{
    let mut out: Vec<WakeRun> = Vec::new();
    assert(wake_run_views(out@) =~= Seq::empty());
    if let Some(Json::Array(rows)) = data.get("wake_runs") {
        let mut i: usize = 0;
        while i < rows.len()
            invariant
                i <= rows@.len(),
                wake_run_views(out@) == wake_runs_among(rows@, i as int),
            decreases rows@.len() - i,
        {
            let row = &rows[i];
            let ghost was = out@;
            let run = row.opt_text("run_id");
            let session = row.opt_text("session_id");
            if let Some(run_id) = run {
                if let Some(session_id) = session {
                    let label = text_of(row, "label");
                    out.push(WakeRun { run_id, session_id, label });
                    assert(wake_run_views(out@) =~= wake_run_views(was).push(
                        (run_id@, session_id@, label@),
                    ));
                }
            }
            i = i + 1;
        }
    }
    out
}

/// A call of the renderer that draws a reply.
#[derive(Debug)]
pub enum RendererCall {
    WriteChunk { kind: ChatStreamKind, text: String },
    StartReasoning,
    ResetReasoning,
    StartReasoningPart,
    FinishReasoningPart,
    WriteReasoningTitle(String),
    WriteToolCall { name: String, arguments: String },
    WriteToolPreparing(String),
    WriteToolResult { name: String, ok: bool, output: String },
    WriteToolProgress { name: String, message: String },
    WriteCommandOutput { name: String, stderr: bool, output: String },
    WriteSystemMessage(String),
    WriteCompactChunk(String),
    FinishCompact,
    PrepareForExternalOutput,
    TickSpinner,
}

/// The same as sequences.
pub enum Draw {
    Chunk(ChatStreamKind, Seq<char>),
    StartReasoning,
    ResetReasoning,
    StartReasoningPart,
    FinishReasoningPart,
    ReasoningTitle(Seq<char>),
    ToolCall(Seq<char>, Seq<char>),
    ToolPreparing(Seq<char>),
    ToolResult(Seq<char>, bool, Seq<char>),
    ToolProgress(Seq<char>, Seq<char>),
    CommandOutput(Seq<char>, bool, Seq<char>),
    SystemMessage(Seq<char>),
    CompactChunk(Seq<char>),
    FinishCompact,
    PrepareForExternalOutput,
    TickSpinner,
}

impl View for RendererCall {
    type V = Draw;

    open spec fn view(&self) -> Draw {
        match self {
            RendererCall::WriteChunk { kind, text } => Draw::Chunk(*kind, text@),
            RendererCall::StartReasoning => Draw::StartReasoning,
            RendererCall::ResetReasoning => Draw::ResetReasoning,
            RendererCall::StartReasoningPart => Draw::StartReasoningPart,
            RendererCall::FinishReasoningPart => Draw::FinishReasoningPart,
            RendererCall::WriteReasoningTitle(title) => Draw::ReasoningTitle(title@),
            RendererCall::WriteToolCall { name, arguments } => Draw::ToolCall(name@, arguments@),
            RendererCall::WriteToolPreparing(name) => Draw::ToolPreparing(name@),
            RendererCall::WriteToolResult { name, ok, output } => Draw::ToolResult(
                name@,
                *ok,
                output@,
            ),
            RendererCall::WriteToolProgress { name, message } => Draw::ToolProgress(
                name@,
                message@,
            ),
            RendererCall::WriteCommandOutput { name, stderr, output } => Draw::CommandOutput(
                name@,
                *stderr,
                output@,
            ),
            RendererCall::WriteSystemMessage(text) => Draw::SystemMessage(text@),
            RendererCall::WriteCompactChunk(text) => Draw::CompactChunk(text@),
            RendererCall::FinishCompact => Draw::FinishCompact,
            RendererCall::PrepareForExternalOutput => Draw::PrepareForExternalOutput,
            RendererCall::TickSpinner => Draw::TickSpinner,
        }
    }
}

/// What is drawn for an event; whatever writes is followed by a tick of the
/// spinner. Nothing is drawn for events that only change the turn or the queue.
pub open spec fn drawn_for(lang: Lang, event: TurnEvent) -> Seq<Draw> {
    match event {
        TurnEvent::Delta(kind, text) => seq![Draw::Chunk(kind, text), Draw::TickSpinner],
        TurnEvent::ReasoningStart => seq![Draw::StartReasoning],
        TurnEvent::ReasoningReset => seq![Draw::ResetReasoning],
        TurnEvent::ReasoningPartStart => seq![Draw::StartReasoningPart],
        TurnEvent::ReasoningPartEnd => seq![Draw::FinishReasoningPart],
        TurnEvent::ReasoningTitle(title) => seq![Draw::ReasoningTitle(title), Draw::TickSpinner],
        TurnEvent::ToolCall(_, name, arguments) => seq![
            Draw::ToolCall(name, arguments),
            Draw::TickSpinner,
        ],
        TurnEvent::ToolPreparing(name) => seq![Draw::ToolPreparing(name), Draw::TickSpinner],
        TurnEvent::ToolResult(_, name, ok, output) => seq![
            Draw::ToolResult(name, ok, output),
            Draw::TickSpinner,
        ],
        TurnEvent::ToolProgress(_, name, message) => seq![
            Draw::ToolProgress(name, message),
            Draw::TickSpinner,
        ],
        TurnEvent::ToolOutput(_, name, stderr, output) => seq![
            Draw::CommandOutput(name, stderr, output),
            Draw::TickSpinner,
        ],
        TurnEvent::ToolImage(_, _) => seq![Draw::PrepareForExternalOutput],
        TurnEvent::QuestionRequested(_) => seq![Draw::PrepareForExternalOutput],
        TurnEvent::CompactStart => seq![
            Draw::SystemMessage(pick(lang, "Compacting context..."@, "正在压缩上下文..."@)),
            Draw::TickSpinner,
        ],
        TurnEvent::CompactDelta(text) => seq![Draw::CompactChunk(text), Draw::TickSpinner],
        TurnEvent::CompactEnd => seq![Draw::FinishCompact, Draw::TickSpinner],
        TurnEvent::PopStart => seq![Draw::TickSpinner],
        TurnEvent::PopEnd => seq![Draw::TickSpinner],
        TurnEvent::Notice(text) => seq![Draw::SystemMessage(text), Draw::TickSpinner],
        _ => Seq::empty(),
    }
}

pub open spec fn draws(v: Seq<RendererCall>) -> Seq<Draw> {
    v.map_values(|c: RendererCall| c@)
}

fn one_call(call: RendererCall) -> (r: Vec<RendererCall>)
    ensures
        draws(r@) == seq![call@],
{
    let mut r: Vec<RendererCall> = Vec::new();
    r.push(call);
    assert(draws(r@) =~= seq![call@]);
    r
}

fn call_and_tick(call: RendererCall) -> (r: Vec<RendererCall>)
    ensures
        draws(r@) == seq![call@, Draw::TickSpinner],
{
    let mut r: Vec<RendererCall> = Vec::new();
    r.push(call);
    r.push(RendererCall::TickSpinner);
    assert(draws(r@) =~= seq![call@, Draw::TickSpinner]);
    r
}

/// The calls of the renderer for an event.
pub fn handle_agent_event(lang: Lang, event: RemoteEvent) -> (r: Vec<RendererCall>)
    ensures
        draws(r@) == drawn_for(lang, event@),
{
    match event {
        RemoteEvent::Delta { kind, text } => call_and_tick(RendererCall::WriteChunk { kind, text }),
        RemoteEvent::ReasoningStart => one_call(RendererCall::StartReasoning),
        RemoteEvent::ReasoningReset => one_call(RendererCall::ResetReasoning),
        RemoteEvent::ReasoningPartStart => one_call(RendererCall::StartReasoningPart),
        RemoteEvent::ReasoningPartEnd => one_call(RendererCall::FinishReasoningPart),
        RemoteEvent::ReasoningTitle(title) => call_and_tick(
            RendererCall::WriteReasoningTitle(title),
        ),
        RemoteEvent::ToolCall { name, arguments, .. } => call_and_tick(
            RendererCall::WriteToolCall { name, arguments },
        ),
        RemoteEvent::ToolPreparing { name } => call_and_tick(
            RendererCall::WriteToolPreparing(name),
        ),
        RemoteEvent::ToolResult { name, ok, output, .. } => call_and_tick(
            RendererCall::WriteToolResult { name, ok, output },
        ),
        RemoteEvent::ToolProgress { name, message, .. } => call_and_tick(
            RendererCall::WriteToolProgress { name, message },
        ),
        RemoteEvent::ToolOutput { name, stderr, output, .. } => call_and_tick(
            RendererCall::WriteCommandOutput { name, stderr, output },
        ),
        RemoteEvent::ToolImage { .. } => one_call(RendererCall::PrepareForExternalOutput),
        RemoteEvent::QuestionRequested { .. } => one_call(RendererCall::PrepareForExternalOutput),
        RemoteEvent::CompactStart => call_and_tick(
            RendererCall::WriteSystemMessage(
                t(lang, "Compacting context...", "正在压缩上下文...").to_owned(),
            ),
        ),
        RemoteEvent::CompactDelta(text) => call_and_tick(RendererCall::WriteCompactChunk(text)),
        RemoteEvent::CompactEnd => call_and_tick(RendererCall::FinishCompact),
        RemoteEvent::PopStart => one_call(RendererCall::TickSpinner),
        RemoteEvent::PopEnd => one_call(RendererCall::TickSpinner),
        RemoteEvent::Notice(text) => call_and_tick(RendererCall::WriteSystemMessage(text)),
        _ => {
            let none: Vec<RendererCall> = Vec::new();
            assert(draws(none@) =~= Seq::empty());
            none
        },
    }
}

/// What is drawn for an event of a turn that the daemon runs. A reply that was
/// superseded begins its reasoning anew, and messages that leave the queue are
/// written above the tail, where there is one.
pub open spec fn drawn_remotely(lang: Lang, event: TurnEvent, has_tail: bool) -> Seq<Draw> {
    match event {
        TurnEvent::Superseded => seq![Draw::ResetReasoning],
        TurnEvent::QueueConsumed(_, _) => if has_tail {
            seq![Draw::PrepareForExternalOutput]
        } else {
            Seq::empty()
        },
        _ => drawn_for(lang, event),
    }
}

/// The calls of the renderer for an event of a turn that the daemon runs.
pub fn remote_event_calls(lang: Lang, event: RemoteEvent, has_tail: bool) -> (r: Vec<RendererCall>)
    ensures
        draws(r@) == drawn_remotely(lang, event@, has_tail),
{
    match event {
        RemoteEvent::Superseded => one_call(RendererCall::ResetReasoning),
        RemoteEvent::QueueConsumed { prompt_ids, mode } => if has_tail {
            one_call(RendererCall::PrepareForExternalOutput)
        } else {
            handle_agent_event(lang, RemoteEvent::QueueConsumed { prompt_ids, mode })
        },
        event => handle_agent_event(lang, event),
    }
}

/// How the panel with a question was left.
#[derive(Clone, Copy, Debug, PartialEq, Eq, Structural)]
pub enum QuestionReply {
    Answered,
    /// The panel could not be shown to anybody.
    Unavailable,
    Closed,
    Cancelled,
}

/// What the daemon is told about its question.
#[derive(Clone, Copy, Debug, PartialEq, Eq, Structural)]
pub enum QuestionStep {
    /// Send the answers and wait on.
    Answer,
    /// Nobody answered; the turn goes on without.
    Close,
    /// Stop the turn.
    CancelTurn,
}

/// Leaving the panel stops the turn; a panel that nobody saw does not.
pub fn question_step(reply: QuestionReply) -> (r: QuestionStep)
    ensures
        r == match reply {
            QuestionReply::Answered => QuestionStep::Answer,
            QuestionReply::Unavailable => QuestionStep::Close,
            QuestionReply::Closed => QuestionStep::CancelTurn,
            QuestionReply::Cancelled => QuestionStep::CancelTurn,
        },
{
    match reply {
        QuestionReply::Answered => QuestionStep::Answer,
        QuestionReply::Unavailable => QuestionStep::Close,
        QuestionReply::Closed => QuestionStep::CancelTurn,
        QuestionReply::Cancelled => QuestionStep::CancelTurn,
    }
}

/// Whether the spinner starts again behind a question of a turn of this process.
pub fn waits_on(reply: QuestionReply) -> (r: bool)
    ensures
        r == !(reply is Cancelled),
{
    match reply {
        QuestionReply::Cancelled => false,
        _ => true,
    }
}

/// What becomes of a message that was offered to the queue of the running turn.
#[derive(Debug)]
pub enum QueueStep {
    /// It waits, and is shown with the tail when that comes back.
    Append,
    /// It waits, and is shown at once.
    Enqueue,
    /// It goes back to the input line, with a note.
    GiveBack(String),
}

pub fn queue_step(lang: Lang, accepted: bool, external: bool) -> (r: QueueStep)
    ensures
        match r {
            QueueStep::Append => accepted && external,
            QueueStep::Enqueue => accepted && !external,
            QueueStep::GiveBack(note) => !accepted && note@ == pick(
                lang,
                "could not queue the message; the reply may have just finished"@,
                "无法排队消息；当前回复可能刚刚结束"@,
            ),
        },
{
    if !accepted {
        QueueStep::GiveBack(
            t(
                lang,
                "could not queue the message; the reply may have just finished",
                "无法排队消息；当前回复可能刚刚结束",
            ).to_owned(),
        )
    } else if external {
        QueueStep::Append
    } else {
        QueueStep::Enqueue
    }
}

/// Whether the values hold that text under that key.
pub open spec fn says(data: Json, key: Seq<char>, text: Seq<char>) -> bool {
    member(data, key) matches Some(Json::Text(found)) && found@ == text
}

/// How the daemon announces an event: the kind of the frame, and what its values
/// hold.
pub open spec fn announces(event: TurnEvent, kind: Seq<char>, data: Json) -> bool {
    match event {
        TurnEvent::TurnStarted(id) => kind == "turn.started"@ && says(data, "turn_id"@, id),
        TurnEvent::Delta(ChatStreamKind::Content, text) => kind == "assistant.delta"@ && says(
            data,
            "delta"@,
            text,
        ),
        TurnEvent::Delta(ChatStreamKind::Reasoning, text) => kind == "reasoning.delta"@ && says(
            data,
            "delta"@,
            text,
        ),
        TurnEvent::ReasoningStart => kind == "reasoning.start"@,
        TurnEvent::ReasoningReset => kind == "reasoning.reset"@,
        TurnEvent::ReasoningPartStart => kind == "reasoning.part_start"@,
        TurnEvent::ReasoningPartEnd => kind == "reasoning.part_end"@,
        TurnEvent::ReasoningTitle(title) => kind == "reasoning.title"@ && says(
            data,
            "title"@,
            title,
        ),
        TurnEvent::ToolPreparing(name) => kind == "tool.preparing"@ && says(data, "name"@, name),
        TurnEvent::ToolCall(id, name, arguments) => kind == "tool.started"@ && says(
            data,
            "tool_id"@,
            id,
        ) && says(data, "name"@, name) && says(data, "arguments"@, arguments),
        TurnEvent::ToolProgress(id, name, message) => kind == "tool.progress"@ && says(
            data,
            "tool_id"@,
            id,
        ) && says(data, "name"@, name) && says(data, "message"@, message),
        TurnEvent::ToolOutput(id, name, stderr, output) => kind == "tool.output"@ && says(
            data,
            "tool_id"@,
            id,
        ) && says(data, "name"@, name) && says(data, "output"@, output) && says(
            data,
            "stream"@,
            if stderr {
                "stderr"@
            } else {
                "stdout"@
            },
        ),
        TurnEvent::ToolResult(id, name, ok, output) => kind == "tool.finished"@ && says(
            data,
            "tool_id"@,
            id,
        ) && says(data, "name"@, name) && says(data, "output"@, output) && member(data, "ok"@)
            == Some(Json::Bool(ok)),
        TurnEvent::ToolImage(name, None) => kind == "tool.image"@ && says(data, "name"@, name)
            && member(data, "asset"@) is None,
        TurnEvent::ToolImage(name, Some(id)) => kind == "tool.image"@ && says(data, "name"@, name)
            && trimmed(id).len() > 0 && (member(data, "asset"@) matches Some(asset) && says(
            asset,
            "id"@,
            id,
        )),
        TurnEvent::QuestionRequested(id) => kind == "question.requested"@ && says(
            data,
            "question_id"@,
            id,
        ),
        TurnEvent::QueueConsumed(ids, mode) => kind == "queue.consumed"@ && text_list_member(
            data,
            "prompt_ids"@,
        ) == ids && says(
            data,
            "mode"@,
            match mode {
                AgentMode::Normal => "normal"@,
                AgentMode::Plan => "plan"@,
                AgentMode::Chat => "chat"@,
            },
        ),
        TurnEvent::QueueRemoved(Some(id)) => kind == "queue.removed"@ && says(
            data,
            "prompt_id"@,
            id,
        ),
        TurnEvent::QueueRemoved(None) => kind == "queue.removed"@ && member(data, "prompt_id"@)
            is None,
        TurnEvent::Superseded => kind == "generation.superseded"@,
        TurnEvent::CompactStart => kind == "context.compact_start"@,
        TurnEvent::CompactDelta(text) => kind == "context.compact_delta"@ && says(
            data,
            "delta"@,
            text,
        ),
        TurnEvent::CompactEnd => kind == "context.compact_end"@,
        TurnEvent::PopStart => kind == "context.pop_start"@,
        TurnEvent::PopEnd => kind == "context.pop_end"@,
        TurnEvent::Notice(text) => kind == "context.notice"@ && says(data, "text"@, text),
        TurnEvent::RunCompleted => kind == "run.completed"@,
        TurnEvent::RunFailed(message) => kind == "run.failed"@ && says(data, "message"@, message),
        TurnEvent::RunCancelled => kind == "run.cancelled"@,
        TurnEvent::Unknown => false,
    }
}

/// Every event that the daemon announces is read back as that event.
pub proof fn law_announced_events_are_read_back(
    event: TurnEvent,
    kind: &str,
    data: &Json,
    r: RemoteEvent,
)
    requires
        announces(event, kind@, *data),
        call_ensures(decode_event, (kind, data), r),
    ensures
        r@ == event,
{
    lemma_event_kinds();
    crate::mode::law_mode_names_read_back(AgentMode::Normal);
    crate::mode::law_mode_names_read_back(AgentMode::Plan);
    crate::mode::law_mode_names_read_back(AgentMode::Chat);
}

/// A finished tool counts as succeeded exactly where its frame says so: a frame
/// without that word, or with another value there, is one of a tool that failed.
pub proof fn law_tools_succeed_only_where_said(data: &Json, kind: &str, r: RemoteEvent)
    requires
        kind@ == "tool.finished"@,
        call_ensures(decode_event, (kind, data), r),
    ensures
        r is ToolResult,
        r->ToolResult_ok <==> member(*data, "ok"@) == Some(Json::Bool(true)),
        member(*data, "ok"@) is None ==> !r->ToolResult_ok,
        member(*data, "ok"@) == Some(Json::Bool(false)) ==> !r->ToolResult_ok,
{
    lemma_event_kinds();
}

/// Output of a tool belongs to the error stream only where its frame names it.
pub proof fn law_tool_output_is_plain_unless_named(data: &Json, kind: &str, r: RemoteEvent)
    requires
        kind@ == "tool.output"@,
        call_ensures(decode_event, (kind, data), r),
    ensures
        r is ToolOutput,
        r->ToolOutput_stderr <==> says(*data, "stream"@, "stderr"@),
{
    lemma_event_kinds();
}

/// What tells the kinds of events apart.
proof fn lemma_event_kinds()
    ensures
        "turn.started"@.len() == 12,
        "turn.started"@[1] == 'u',
        "assistant.delta"@.len() == 15,
        "assistant.delta"@[0] == 'a',
        "reasoning.delta"@.len() == 15,
        "reasoning.delta"@[0] == 'r',
        "reasoning.delta"@[10] == 'd',
        "reasoning.start"@.len() == 15,
        "reasoning.start"@[0] == 'r',
        "reasoning.start"@[10] == 's',
        "reasoning.reset"@.len() == 15,
        "reasoning.reset"@[0] == 'r',
        "reasoning.reset"@[10] == 'r',
        "reasoning.part_start"@.len() == 20,
        "reasoning.part_end"@.len() == 18,
        "reasoning.part_end"@[0] == 'r',
        "reasoning.title"@.len() == 15,
        "reasoning.title"@[0] == 'r',
        "reasoning.title"@[10] == 't',
        "tool.preparing"@.len() == 14,
        "tool.preparing"@[0] == 't',
        "tool.started"@.len() == 12,
        "tool.started"@[1] == 'o',
        "tool.progress"@.len() == 13,
        "tool.progress"@[0] == 't',
        "tool.progress"@[5] == 'p',
        "tool.output"@.len() == 11,
        "tool.finished"@.len() == 13,
        "tool.finished"@[0] == 't',
        "tool.finished"@[5] == 'f',
        "tool.image"@.len() == 10,
        "tool.image"@[0] == 't',
        "question.requested"@.len() == 18,
        "question.requested"@[0] == 'q',
        "queue.consumed"@.len() == 14,
        "queue.consumed"@[0] == 'q',
        "queue.removed"@.len() == 13,
        "queue.removed"@[0] == 'q',
        "generation.superseded"@.len() == 21,
        "generation.superseded"@[0] == 'g',
        "context.compact_start"@.len() == 21,
        "context.compact_start"@[0] == 'c',
        "context.compact_start"@[16] == 's',
        "context.compact_delta"@.len() == 21,
        "context.compact_delta"@[0] == 'c',
        "context.compact_delta"@[16] == 'd',
        "context.compact_end"@.len() == 19,
        "context.pop_start"@.len() == 17,
        "context.pop_end"@.len() == 15,
        "context.pop_end"@[0] == 'c',
        "context.notice"@.len() == 14,
        "context.notice"@[0] == 'c',
        "run.completed"@.len() == 13,
        "run.completed"@[0] == 'r',
        "run.completed"@[5] == 'o',
        "run.failed"@.len() == 10,
        "run.failed"@[0] == 'r',
        "run.cancelled"@.len() == 13,
        "run.cancelled"@[0] == 'r',
        "run.cancelled"@[5] == 'a',
        "stdout"@.len() == 6,
        "stdout"@[3] == 'o',
        "stderr"@.len() == 6,
        "stderr"@[3] == 'e',
{
    reveal_strlit("turn.started");
    reveal_strlit("assistant.delta");
    reveal_strlit("reasoning.delta");
    reveal_strlit("reasoning.start");
    reveal_strlit("reasoning.reset");
    reveal_strlit("reasoning.part_start");
    reveal_strlit("reasoning.part_end");
    reveal_strlit("reasoning.title");
    reveal_strlit("tool.preparing");
    reveal_strlit("tool.started");
    reveal_strlit("tool.progress");
    reveal_strlit("tool.output");
    reveal_strlit("tool.finished");
    reveal_strlit("tool.image");
    reveal_strlit("question.requested");
    reveal_strlit("queue.consumed");
    reveal_strlit("queue.removed");
    reveal_strlit("generation.superseded");
    reveal_strlit("context.compact_start");
    reveal_strlit("context.compact_delta");
    reveal_strlit("context.compact_end");
    reveal_strlit("context.pop_start");
    reveal_strlit("context.pop_end");
    reveal_strlit("context.notice");
    reveal_strlit("run.completed");
    reveal_strlit("run.failed");
    reveal_strlit("run.cancelled");
    reveal_strlit("stdout");
    reveal_strlit("stderr");
}

/// A reply is kept as it streams: its text grows by each delta of the reply, its
/// reasoning by each delta of reasoning, and neither by the other. Starting the
/// reasoning anew forgets the reasoning alone; a superseded reply forgets both.
/// The turn ends at the three events that say so and at no other.
pub proof fn law_turn_absorbs_its_events(turn: &mut RemoteTurn, event: &RemoteEvent, step: TurnStep)
    requires
        call_ensures(RemoteTurn::absorb, (turn, event), step),
    ensures
        ({
            let before = *old(turn);
            let after = *final(turn);
            let untouched = after.content@ == before.content@ && after.reasoning@
                == before.reasoning@;
            &&& event matches RemoteEvent::Delta { kind: ChatStreamKind::Content, text }
                ==> after.content@ == before.content@ + text@ && after.reasoning@
                == before.reasoning@
            &&& event matches RemoteEvent::Delta { kind: ChatStreamKind::Reasoning, text }
                ==> after.content@ == before.content@ && after.reasoning@ == before.reasoning@
                + text@
            &&& event is ReasoningReset ==> after.content@ == before.content@
                && after.reasoning@.len() == 0
            &&& event is Superseded ==> after.content@.len() == 0 && after.reasoning@.len() == 0
            &&& !(event is Delta || event is ReasoningReset || event is Superseded) ==> untouched
            &&& event matches RemoteEvent::TurnStarted(id) ==> id@.len() > 0 ==> (after.turn_id
                matches Some(kept) && kept@ == id@)
            &&& !(event is TurnStarted) ==> opt_string(after.turn_id) == opt_string(before.turn_id)
            &&& step is Completed <==> event is RunCompleted
            &&& step is Cancelled <==> event is RunCancelled
            &&& step is Failed <==> event is RunFailed
            &&& event matches RemoteEvent::RunFailed(message) ==> step->Failed_0@ == message@
        }),
{
}

/// A run goes on only where the daemon accepted it, under the identity that the
/// daemon gave it; an error of the daemon is passed on in its own words.
pub proof fn law_only_accepted_runs_run(first: Option<IpcFrame>, r: StartOutcome)
    requires
        call_ensures(accepted_run, (first,), r),
    ensures
        r is Running <==> first is Some && first->0 is Accepted,
        first matches Some(IpcFrame::Accepted { run_id, .. }) ==> r->Running_0@ == run_id@,
        first matches Some(IpcFrame::Error { message, .. }) ==> r->Refused_0@ == message@,
{
}

/// A frame of a running turn is an event, unless the daemon reports an error or
/// is gone: then the turn breaks off.
pub proof fn law_turns_break_off_on_errors(frame: Option<&IpcFrame>, r: TurnFrame)
    requires
        call_ensures(turn_frame, (frame,), r),
    ensures
        r is Broken <==> frame is None || frame->0 is Error,
        r is Event <==> frame is Some && frame->0 is Event,
        frame matches Some(IpcFrame::Error { message, .. }) ==> r->Broken_0@ == message@,
        frame matches Some(IpcFrame::Event { kind, data }) ==> (forall|event: TurnEvent| #[trigger]
            announces(event, kind@, *data) ==> r->Event_0@ == event),
{
    if let Some(IpcFrame::Event { kind, data }) = frame {
        assert forall|event: TurnEvent| #[trigger] announces(event, kind@, *data) implies r->Event_0@
            == event by {
            lemma_event_kinds();
            crate::mode::law_mode_names_read_back(AgentMode::Normal);
            crate::mode::law_mode_names_read_back(AgentMode::Plan);
            crate::mode::law_mode_names_read_back(AgentMode::Chat);
        }
    }
}

/// A command went through exactly where the daemon confirmed it, and an error of
/// the daemon is passed on in its own words.
pub proof fn law_commands_need_a_confirmation(frame: Option<IpcFrame>, r: Result<(), IpcError>)
    requires
        call_ensures(validate_ipc_command_response, (frame,), r),
    ensures
        r is Ok <==> frame is Some && (frame->0 is Ack || frame->0 is Ready || frame->0
            is AdminResult),
        frame matches Some(IpcFrame::Error { message, .. }) ==> (r matches Err(IpcError::Refused(text))
            && text@ == message@),
        frame is None ==> r == Err::<(), IpcError>(IpcError::Closed),
        frame is Some && (frame->0 is Accepted || frame->0 is TurnUpdateAccepted || frame->0
            is Event) ==> r == Err::<(), IpcError>(IpcError::Unexpected),
{
}

/// A daemon counts as busy by its code, or by its old message where it sends no
/// code; a reload is done only where it is confirmed.
pub proof fn law_reload_is_busy_or_done(
    frame: Option<IpcFrame>,
    r: Result<ConfigReloadResponse, IpcError>,
)
    requires
        call_ensures(validate_config_reload_response, (frame,), r),
    ensures
        r == Ok::<ConfigReloadResponse, IpcError>(ConfigReloadResponse::Reloaded) <==> frame is Some
            && (frame->0 is Ack || frame->0 is Ready || frame->0 is AdminResult),
        frame matches Some(IpcFrame::Error { code: Some(ErrorCode::Busy), .. }) ==> r == Ok::<
            ConfigReloadResponse,
            IpcError,
        >(ConfigReloadResponse::Busy),
        frame matches Some(IpcFrame::Error { code: Some(ErrorCode::Other), .. }) ==> r is Err,
        frame matches Some(IpcFrame::Error { code: None, message }) ==> (r is Ok <==> message@
            == "Laozhou is busy with another operation"@),
        frame is None ==> r is Err,
{
}

/// A reload is tried again while the daemon is busy and attempts are left, and
/// given up behind the last.
pub proof fn law_busy_reloads_are_tried_again(
    lang: Lang,
    attempt: usize,
    max_attempts: usize,
    seconds: u64,
    response: ConfigReloadResponse,
    r: ReloadStep,
)
    requires
        1 <= attempt <= max_attempts,
        call_ensures(retry_config_reload, (lang, attempt, max_attempts, seconds, response), r),
    ensures
        response is Reloaded <==> r is Done,
        response is Busy && attempt < max_attempts <==> r is Retry,
        response is Busy && attempt == max_attempts <==> r is GiveUp,
{
}

/// What is drawn for an event shows what the event says: the text that streamed,
/// the tool with its arguments, its output and whether it succeeded, and the
/// notices. Whatever writes is followed by a tick of the spinner.
pub proof fn law_drawing_shows_the_event(lang: Lang, event: RemoteEvent, r: Vec<RendererCall>)
    requires
        call_ensures(handle_agent_event, (lang, event), r),
    ensures
        r@.len() <= 2,
        r@.len() == 2 ==> r@[1] is TickSpinner,
        event matches RemoteEvent::Delta { kind, text } ==> r@.len() == 2 && r@[0]@ == Draw::Chunk(
            kind,
            text@,
        ),
        event matches RemoteEvent::ReasoningTitle(title) ==> r@.len() == 2 && r@[0]@
            == Draw::ReasoningTitle(title@),
        event matches RemoteEvent::ToolCall { name, arguments, .. } ==> r@.len() == 2 && r@[0]@
            == Draw::ToolCall(name@, arguments@),
        event matches RemoteEvent::ToolPreparing { name } ==> r@.len() == 2 && r@[0]@
            == Draw::ToolPreparing(name@),
        event matches RemoteEvent::ToolResult { name, ok, output, .. } ==> r@.len() == 2 && r@[0]@
            == Draw::ToolResult(name@, ok, output@),
        event matches RemoteEvent::ToolProgress { name, message, .. } ==> r@.len() == 2 && r@[0]@
            == Draw::ToolProgress(name@, message@),
        event matches RemoteEvent::ToolOutput { name, stderr, output, .. } ==> r@.len() == 2
            && r@[0]@ == Draw::CommandOutput(name@, stderr, output@),
        event matches RemoteEvent::CompactDelta(text) ==> r@.len() == 2 && r@[0]@
            == Draw::CompactChunk(text@),
        event matches RemoteEvent::Notice(text) ==> r@.len() == 2 && r@[0]@ == Draw::SystemMessage(
            text@,
        ),
        event is CompactStart ==> r@.len() == 2 && r@[0] is WriteSystemMessage,
        event is CompactEnd ==> r@.len() == 2 && r@[0] is FinishCompact,
        event is ReasoningStart ==> r@.len() == 1 && r@[0] is StartReasoning,
        event is ReasoningReset ==> r@.len() == 1 && r@[0] is ResetReasoning,
        event is ReasoningPartStart ==> r@.len() == 1 && r@[0] is StartReasoningPart,
        event is ReasoningPartEnd ==> r@.len() == 1 && r@[0] is FinishReasoningPart,
        event is PopStart || event is PopEnd ==> r@.len() == 1 && r@[0] is TickSpinner,
        event is ToolImage || event is QuestionRequested ==> r@.len() == 1 && r@[0]
            is PrepareForExternalOutput,
        event is TurnStarted || event is QueueConsumed || event is QueueRemoved || event
            is Superseded || event is RunCompleted || event is RunFailed || event is RunCancelled
            || event is Unknown ==> r@.len() == 0,
{
    assert(draws(r@).len() == r@.len());
    if r@.len() > 0 {
        assert(draws(r@)[0] == r@[0]@);
    }
    if r@.len() > 1 {
        assert(draws(r@)[1] == r@[1]@);
    }
}

/// A turn of the daemon is drawn like any other, but that a superseded reply
/// begins its reasoning anew and that messages out of the queue need the screen
/// where a tail is shown.
pub proof fn law_remote_drawing_differs_in_two(
    lang: Lang,
    event: RemoteEvent,
    has_tail: bool,
    remote: Vec<RendererCall>,
    plain: Vec<RendererCall>,
)
    requires
        call_ensures(remote_event_calls, (lang, event, has_tail), remote),
        call_ensures(handle_agent_event, (lang, event), plain),
    ensures
        !(event is Superseded || event is QueueConsumed) ==> draws(remote@) == draws(plain@),
        event is Superseded ==> draws(remote@) == seq![Draw::ResetReasoning],
        event is QueueConsumed && has_tail ==> draws(remote@) == seq![
            Draw::PrepareForExternalOutput,
        ],
        event is QueueConsumed && !has_tail ==> draws(remote@).len() == 0,
{
}

/// A picture takes the screen until the result of the tool; a question only while
/// it is asked; nothing else takes it or gives it back.
pub proof fn law_screen_is_taken_by_pictures(event: TurnEvent, external: bool)
    ensures
        event is ToolImage ==> external_after(event, external),
        event is ToolResult || event is QuestionRequested ==> !external_after(event, external),
        !(event is ToolImage || event is ToolResult || event is QuestionRequested)
            ==> external_after(event, external) == external,
        tail_step_of(event, external) is Return <==> event is ToolResult && external,
        tail_step_of(event, external) is LeaveForPicture <==> event is ToolImage,
        tail_step_of(event, external) is LeaveForQuestion <==> event is QuestionRequested,
        tail_step_of(event, external) is Consume <==> event is QueueConsumed,
        tail_step_of(event, external) is Drop <==> (event matches TurnEvent::QueueRemoved(Some(_))),
{
}

/// While something else owns the screen nothing is drawn for a key; a message is
/// sent to a turn that has an identity and given back otherwise; an interrupt
/// always calls the turn off.
pub proof fn law_keys_during_a_turn(
    lang: Lang,
    action: LiveEditorAction,
    external: bool,
    has_turn: bool,
    r: TurnInput,
)
    requires
        call_ensures(turn_input, (lang, action, external, has_turn), r),
    ensures
        external ==> !(r is Redraw || r is ClearScreen),
        !external && action is Redraw ==> r is Redraw,
        !external && action is ClearScreen ==> r is ClearScreen,
        r is Cancel <==> action is Interrupt || action is Exit,
        r is Queue <==> action is Submit && has_turn,
        r is GiveBack <==> action is Submit && !has_turn,
        action matches LiveEditorAction::Submit(sent) ==> if has_turn {
            r->Queue_0 == sent
        } else {
            r->GiveBack_line@ == sent.display_content@
        },
        action matches LiveEditorAction::Copy(text) ==> r is Copy && r->text == text
            && r->Copy_redraw == !external,
        action is ReadClipboard ==> r is ReadClipboard && r->ReadClipboard_redraw == !external,
        action is Idle || action is EmptySubmit ==> r is Idle,
{
}

/// The strip is due at the eighth tick and then at every eighth again, unless
/// something else owns the screen.
pub proof fn law_strip_is_due_every_eighth_tick(tick: u32, external: bool, r: (u32, bool))
    requires
        tick < u32::MAX,
        call_ensures(strip_tick, (tick, external), r),
    ensures
        r.0 == tick + 1,
        external ==> !r.1,
        !external ==> (r.1 <==> exists|k: int| tick + 1 == #[trigger] (8 * k)),
{
    if !external && r.1 {
        assert(tick + 1 == 8 * ((tick + 1) / 8));
    }
}

/// The summary of a turn holds what streamed, and the figures of its last event
/// each under its own name.
pub proof fn law_summary_holds_what_the_turn_came_to(
    turn: RemoteTurn,
    completion: &Json,
    usage: Option<Usage>,
    r: RemoteTurnSummary,
)
    requires
        call_ensures(remote_turn_summary, (turn, completion, usage), r),
    ensures
        r.result.content@ == turn.content@,
        r.result.usage == usage,
        r.reasoning is None <==> turn.reasoning@.len() == 0,
        r.reasoning matches Some(text) ==> text@ == turn.reasoning@,
        r.result.usage_estimated <==> member(*completion, "usage_estimated"@) == Some(
            Json::Bool(true),
        ),
        member(*completion, "context_tokens"@) matches Some(Json::Unsigned(n)) ==> r.context_tokens
            == n,
        member(*completion, "context_window"@) matches Some(Json::Unsigned(n)) ==> n <= usize::MAX
            ==> r.context_window == Some(n as usize),
        member(*completion, "context_window"@) is None ==> r.context_window is None,
        member(*completion, "cumulative_tokens"@) matches Some(Json::Unsigned(n))
            ==> r.cumulative_tokens.total == n,
        member(*completion, "cumulative_prompt_tokens"@) matches Some(Json::Unsigned(n))
            ==> r.cumulative_tokens.prompt == n,
        member(*completion, "cumulative_cache_read_tokens"@) matches Some(Json::Unsigned(n))
            ==> r.cumulative_tokens.cache_read == n,
        member(*completion, "provider_id"@) matches Some(Json::Text(id)) ==> opt_string(
            r.result.provider_id,
        ) == Some(id@),
        member(*completion, "model"@) matches Some(Json::Text(id)) ==> opt_string(r.result.model)
            == Some(id@),
{
}

/// A row of the overview that names a run and a session is one run, with its own
/// label; any other row is none.
pub proof fn law_wake_runs_are_the_complete_rows(
    rows: Seq<Json>,
    n: int,
    run: Seq<char>,
    session: Seq<char>,
    label: Seq<char>,
)
    requires
        0 <= n < rows.len(),
    ensures
        says(rows[n], "run_id"@, run) && says(rows[n], "session_id"@, session) && says(
            rows[n],
            "label"@,
            label,
        ) ==> wake_runs_among(rows, n + 1) == wake_runs_among(rows, n).push((run, session, label)),
        !(member(rows[n], "run_id"@) is Some && member(rows[n], "session_id"@) is Some)
            ==> wake_runs_among(rows, n + 1) == wake_runs_among(rows, n),
        wake_runs_among(rows, 0).len() == 0,
{
}

/// Answers are sent; a panel that nobody saw is closed and the turn goes on; a
/// panel that was left stops the turn.
pub proof fn law_leaving_a_question_stops_the_turn(reply: QuestionReply, r: QuestionStep, waits: bool)
    requires
        call_ensures(question_step, (reply,), r),
        call_ensures(waits_on, (reply,), waits),
    ensures
        r is Answer <==> reply is Answered,
        r is CancelTurn <==> reply is Closed || reply is Cancelled,
        r is Close <==> reply is Unavailable,
        waits <==> !(reply is Cancelled),
{
}

/// A message that the turn took is shown at once unless something else owns the
/// screen; one that it did not take goes back to the line.
pub proof fn law_refused_messages_come_back(lang: Lang, accepted: bool, external: bool, r: QueueStep)
    requires
        call_ensures(queue_step, (lang, accepted, external), r),
    ensures
        r is GiveBack <==> !accepted,
        r is Append <==> accepted && external,
        r is Enqueue <==> accepted && !external,
{
}

} // verus!
