//! The prompt that talks to the daemon: what a submitted line asks for, and
//! what follows from each answer.
use crate::commands::{
    behind_word, command_hint, command_meant, command_name, parse_repl_input, repl_command_spec,
    word_len, ReplInput, ReplSlashCommand,
};
use crate::echo::{dim, dim_text, red, red_text};
use crate::footer::{ModelConfig, ReplFooterStatus};
use crate::jobs::{opt_string, opt_text};
use crate::lang::{pick, t, Lang};
use crate::mode::AgentMode;
use crate::notes::{
    confirm_text, dim_note, dim_note_text, error_of, error_text, labelled, labelled_text,
    wipe_summary, yes_no,
};
use crate::pop::{parse_repl_pop_count, pop_argument};
use crate::session::{
    entry_texts, is_session_footer, session_footer, EntryText, SessionChooser, SessionListEntry,
    SessionRef,
};
use crate::text::{
    begins_with, is_white_space, lower, lower_char, number_of, parse_number, same_ignoring_case,
    texts, trim, trimmed,
};
use crate::tokens::{state_cumulative, SessionState, TokenMeter, TurnTokens};
use vstd::prelude::*;
use vstd::string::*;

verus! {

/// The session that a request is about, as text.
pub enum Target {
    Current,
    Id(Seq<char>),
    Name(Seq<char>),
}

pub open spec fn target_of(r: SessionRef) -> Target {
    match r {
        SessionRef::Current => Target::Current,
        SessionRef::Id { id } => Target::Id(id@),
        SessionRef::Name { name } => Target::Name(name@),
    }
}

/// What the prompt asks of the daemon.
#[derive(Debug)]
pub enum ReplRequest {
    StopJobs { session: String },
    CreateSession { wanted: Option<String> },
    ListSessions,
    SessionState { target: SessionRef },
    Status,
    RenameSession { session: String, name: String },
    ArchiveSession { session: String },
    DeleteSession { session: String },
    BindWorkspace { session: String, path: Option<String> },
    ReloadConfig,
    Undo { session: String },
    PopTurns { session: String, turn_ids: Vec<String> },
    Compact { session: String },
    Reset { session: String },
    Wipe,
}

/// A request as text.
pub enum Request {
    StopJobs(Seq<char>),
    CreateSession(Option<Seq<char>>),
    ListSessions,
    SessionState(Target),
    Status,
    RenameSession(Seq<char>, Seq<char>),
    ArchiveSession(Seq<char>),
    DeleteSession(Seq<char>),
    BindWorkspace(Seq<char>, Option<Seq<char>>),
    ReloadConfig,
    Undo(Seq<char>),
    PopTurns(Seq<char>, Seq<Seq<char>>),
    Compact(Seq<char>),
    Reset(Seq<char>),
    Wipe,
}

pub open spec fn request_of(r: ReplRequest) -> Request {
    match r {
        ReplRequest::StopJobs { session } => Request::StopJobs(session@),
        ReplRequest::CreateSession { wanted } => Request::CreateSession(opt_string(wanted)),
        ReplRequest::ListSessions => Request::ListSessions,
        ReplRequest::SessionState { target } => Request::SessionState(target_of(target)),
        ReplRequest::Status => Request::Status,
        ReplRequest::RenameSession { session, name } => Request::RenameSession(session@, name@),
        ReplRequest::ArchiveSession { session } => Request::ArchiveSession(session@),
        ReplRequest::DeleteSession { session } => Request::DeleteSession(session@),
        ReplRequest::BindWorkspace { session, path } => Request::BindWorkspace(
            session@,
            opt_string(path),
        ),
        ReplRequest::ReloadConfig => Request::ReloadConfig,
        ReplRequest::Undo { session } => Request::Undo(session@),
        ReplRequest::PopTurns { session, turn_ids } => Request::PopTurns(
            session@,
            texts(turn_ids@),
        ),
        ReplRequest::Compact { session } => Request::Compact(session@),
        ReplRequest::Reset { session } => Request::Reset(session@),
        ReplRequest::Wipe => Request::Wipe,
    }
}

/// One thing that the prompt does.
#[derive(Debug)]
pub enum ReplAction {
    /// Write a line above the tail.
    Note(String),
    /// Write text above the tail as it is.
    Frame(String),
    /// Ask the daemon and come back with its answer.
    Ask(ReplRequest),
    /// Ask the user and come back with the line typed.
    Confirm(String),
    /// Show the menu of the sessions listed, with the focus where the chooser
    /// has it.
    Choose(Vec<SessionListEntry>),
    /// Go over to the session whose state came last.
    Switch,
    /// Build the footer anew for the state that came last.
    Rebuild,
    ShowFooter,
    RefreshFooter,
    FetchJobs,
    DropStrip,
    Help,
    History,
    ClearScreen,
    ReadUsage,
    /// Read the record of usage in the answer of the daemon that came last.
    DecodeUsage,
    PickPersona(String),
    PickModels(Option<String>),
    OpenConfig,
    PickVariant(Option<String>),
    PickTurns(Option<usize>),
    CheckPath(String),
    Prefill(String),
    ClearInput,
    ReloadQueue,
    /// Remember the line in the histories.
    Record(String),
    RunTurn(String),
    /// Show the gauges, where they are wanted.
    PrintTokens { meter: TokenMeter, estimated: bool },
    Leave,
    /// Leave with an error.
    Fail(String),
}

/// An action as text.
pub enum Act {
    Note(Seq<char>),
    Frame(Seq<char>),
    Ask(Request),
    Confirm(Seq<char>),
    Choose(Seq<EntryText>),
    Switch,
    Rebuild,
    ShowFooter,
    RefreshFooter,
    FetchJobs,
    DropStrip,
    Help,
    History,
    ClearScreen,
    ReadUsage,
    DecodeUsage,
    PickPersona(Seq<char>),
    PickModels(Option<Seq<char>>),
    OpenConfig,
    PickVariant(Option<Seq<char>>),
    PickTurns(Option<usize>),
    CheckPath(Seq<char>),
    Prefill(Seq<char>),
    ClearInput,
    ReloadQueue,
    Record(Seq<char>),
    RunTurn(Seq<char>),
    PrintTokens(TokenMeter, bool),
    Leave,
    Fail(Seq<char>),
}

pub open spec fn act_of(a: ReplAction) -> Act {
    match a {
        ReplAction::Note(text) => Act::Note(text@),
        ReplAction::Frame(text) => Act::Frame(text@),
        ReplAction::Ask(request) => Act::Ask(request_of(request)),
        ReplAction::Confirm(text) => Act::Confirm(text@),
        ReplAction::Choose(entries) => Act::Choose(entry_texts(entries@)),
        ReplAction::Switch => Act::Switch,
        ReplAction::Rebuild => Act::Rebuild,
        ReplAction::ShowFooter => Act::ShowFooter,
        ReplAction::RefreshFooter => Act::RefreshFooter,
        ReplAction::FetchJobs => Act::FetchJobs,
        ReplAction::DropStrip => Act::DropStrip,
        ReplAction::Help => Act::Help,
        ReplAction::History => Act::History,
        ReplAction::ClearScreen => Act::ClearScreen,
        ReplAction::ReadUsage => Act::ReadUsage,
        ReplAction::DecodeUsage => Act::DecodeUsage,
        ReplAction::PickPersona(text) => Act::PickPersona(text@),
        ReplAction::PickModels(text) => Act::PickModels(opt_string(text)),
        ReplAction::OpenConfig => Act::OpenConfig,
        ReplAction::PickVariant(text) => Act::PickVariant(opt_string(text)),
        ReplAction::PickTurns(count) => Act::PickTurns(count),
        ReplAction::CheckPath(text) => Act::CheckPath(text@),
        ReplAction::Prefill(text) => Act::Prefill(text@),
        ReplAction::ClearInput => Act::ClearInput,
        ReplAction::ReloadQueue => Act::ReloadQueue,
        ReplAction::Record(text) => Act::Record(text@),
        ReplAction::RunTurn(text) => Act::RunTurn(text@),
        ReplAction::PrintTokens { meter, estimated } => Act::PrintTokens(meter, estimated),
        ReplAction::Leave => Act::Leave,
        ReplAction::Fail(text) => Act::Fail(text@),
    }
}

pub open spec fn acts(v: Seq<ReplAction>) -> Seq<Act> {
    v.map_values(|a: ReplAction| act_of(a))
}

pub fn nothing() -> (r: Vec<ReplAction>)
    ensures
        acts(r@) == Seq::<Act>::empty(),
{
    let r: Vec<ReplAction> = Vec::new();
    assert(acts(r@) =~= Seq::<Act>::empty());
    r
}

pub fn one(a: ReplAction) -> (r: Vec<ReplAction>)
    ensures
        acts(r@) == seq![act_of(a)],
{
    let mut r: Vec<ReplAction> = Vec::new();
    r.push(a);
    assert(acts(r@) =~= seq![act_of(a)]);
    r
}

pub fn two(a: ReplAction, b: ReplAction) -> (r: Vec<ReplAction>)
    ensures
        acts(r@) == seq![act_of(a), act_of(b)],
{
    let mut r: Vec<ReplAction> = Vec::new();
    r.push(a);
    r.push(b);
    assert(acts(r@) =~= seq![act_of(a), act_of(b)]);
    r
}

pub fn three(a: ReplAction, b: ReplAction, c: ReplAction) -> (r: Vec<ReplAction>)
    ensures
        acts(r@) == seq![act_of(a), act_of(b), act_of(c)],
{
    let mut r: Vec<ReplAction> = Vec::new();
    r.push(a);
    r.push(b);
    r.push(c);
    assert(acts(r@) =~= seq![act_of(a), act_of(b), act_of(c)]);
    r
}

/// Why the state of the session in use is wanted.
#[derive(Clone, Copy, Debug, PartialEq, Eq, Structural)]
pub enum Refresh {
    Persona,
    Models,
    Config,
    Variant,
    /// A turn was cancelled.
    Cancelled,
    /// A turn failed.
    Failed,
}

/// What the prompt waits for.
#[derive(Debug)]
pub enum Awaiting {
    Input,
    StoppedJobs,
    Created,
    /// The list, for the session with that number to go over to.
    SwitchNumber(usize),
    SwitchState,
    Listed,
    Choice,
    ChooserDelete { session_id: String, index: usize },
    FallbackList,
    Renamed(String),
    Archived,
    DeleteNumber(usize),
    DeleteState,
    DeleteAnswer { session_id: String, active: bool },
    Deleted { active: bool },
    WorkspaceState,
    Unbound,
    CheckedPath(String),
    Bound(String),
    Usage,
    Persona,
    PersonaReload,
    Models,
    Config,
    ConfigReload,
    Variant,
    VariantReload,
    Active(Refresh),
    Default(Refresh),
    Rebuilt(Refresh),
    Undone,
    Turns,
    Popped,
    Compacted,
    /// What the compaction used, as the model reported it or as an estimate.
    CompactionUsage { estimated: bool },
    ResetDone,
    WipeAnswer,
    Wiped,
    Turn,
}

/// What the prompt waits for, as text.
pub enum Wait {
    Input,
    StoppedJobs,
    Created,
    SwitchNumber(usize),
    SwitchState,
    Listed,
    Choice,
    ChooserDelete(Seq<char>, usize),
    FallbackList,
    Renamed(Seq<char>),
    Archived,
    DeleteNumber(usize),
    DeleteState,
    DeleteAnswer(Seq<char>, bool),
    Deleted(bool),
    WorkspaceState,
    Unbound,
    CheckedPath(Seq<char>),
    Bound(Seq<char>),
    Usage,
    Persona,
    PersonaReload,
    Models,
    Config,
    ConfigReload,
    Variant,
    VariantReload,
    Active(Refresh),
    Default(Refresh),
    Rebuilt(Refresh),
    Undone,
    Turns,
    Popped,
    Compacted,
    CompactionUsage(bool),
    ResetDone,
    WipeAnswer,
    Wiped,
    Turn,
}

pub open spec fn wait_of(a: Awaiting) -> Wait {
    match a {
        Awaiting::Input => Wait::Input,
        Awaiting::StoppedJobs => Wait::StoppedJobs,
        Awaiting::Created => Wait::Created,
        Awaiting::SwitchNumber(n) => Wait::SwitchNumber(n),
        Awaiting::SwitchState => Wait::SwitchState,
        Awaiting::Listed => Wait::Listed,
        Awaiting::Choice => Wait::Choice,
        Awaiting::ChooserDelete { session_id, index } => Wait::ChooserDelete(session_id@, index),
        Awaiting::FallbackList => Wait::FallbackList,
        Awaiting::Renamed(name) => Wait::Renamed(name@),
        Awaiting::Archived => Wait::Archived,
        Awaiting::DeleteNumber(n) => Wait::DeleteNumber(n),
        Awaiting::DeleteState => Wait::DeleteState,
        Awaiting::DeleteAnswer { session_id, active } => Wait::DeleteAnswer(session_id@, active),
        Awaiting::Deleted { active } => Wait::Deleted(active),
        Awaiting::WorkspaceState => Wait::WorkspaceState,
        Awaiting::Unbound => Wait::Unbound,
        Awaiting::CheckedPath(arg) => Wait::CheckedPath(arg@),
        Awaiting::Bound(path) => Wait::Bound(path@),
        Awaiting::Usage => Wait::Usage,
        Awaiting::Persona => Wait::Persona,
        Awaiting::PersonaReload => Wait::PersonaReload,
        Awaiting::Models => Wait::Models,
        Awaiting::Config => Wait::Config,
        Awaiting::ConfigReload => Wait::ConfigReload,
        Awaiting::Variant => Wait::Variant,
        Awaiting::VariantReload => Wait::VariantReload,
        Awaiting::Active(why) => Wait::Active(why),
        Awaiting::Default(why) => Wait::Default(why),
        Awaiting::Rebuilt(why) => Wait::Rebuilt(why),
        Awaiting::Undone => Wait::Undone,
        Awaiting::Turns => Wait::Turns,
        Awaiting::Popped => Wait::Popped,
        Awaiting::Compacted => Wait::Compacted,
        Awaiting::CompactionUsage { estimated } => Wait::CompactionUsage(estimated),
        Awaiting::ResetDone => Wait::ResetDone,
        Awaiting::WipeAnswer => Wait::WipeAnswer,
        Awaiting::Wiped => Wait::Wiped,
        Awaiting::Turn => Wait::Turn,
    }
}

/// Where the prompt goes from here: what it waits for next, and what it does.
pub struct Next {
    pub wait: Wait,
    pub acts: Seq<Act>,
}

/// Back to the input line, with a note.
pub open spec fn noted(text: Seq<char>) -> Next {
    Next { wait: Wait::Input, acts: seq![Act::Note(text)] }
}

/// Back to the input line.
pub open spec fn done(act: Act) -> Next {
    Next { wait: Wait::Input, acts: seq![act] }
}

pub open spec fn idle() -> Next {
    Next { wait: Wait::Input, acts: Seq::empty() }
}

/// One thing is done and its outcome awaited.
pub open spec fn awaits(act: Act, wait: Wait) -> Next {
    Next { wait, acts: seq![act] }
}

pub open spec fn asks(request: Request, wait: Wait) -> Next {
    awaits(Act::Ask(request), wait)
}

pub open spec fn unless_blank(text: Seq<char>) -> Option<Seq<char>> {
    if text.len() == 0 {
        None
    } else {
        Some(text)
    }
}

pub fn some_text(text: &str) -> (r: Option<String>)
    ensures
        opt_string(r) == unless_blank(text@),
{
    if text.is_empty() {
        None
    } else {
        Some(text.to_owned())
    }
}

/// What a command with its argument starts, in the session `session`.
pub open spec fn command_starts(
    lang: Lang,
    session: Seq<char>,
    command: ReplSlashCommand,
    args: Seq<char>,
) -> Next {
    let arg = trimmed(args);
    match command {
        ReplSlashCommand::Exit => done(Act::Leave),
        ReplSlashCommand::Help => done(Act::Help),
        ReplSlashCommand::History => done(Act::History),
        ReplSlashCommand::Clear => done(Act::ClearScreen),
        ReplSlashCommand::New => asks(Request::CreateSession(unless_blank(arg)), Wait::Created),
        ReplSlashCommand::Session => if arg.len() == 0 {
            asks(Request::ListSessions, Wait::Listed)
        } else {
            match number_of(arg) {
                Some(n) => asks(Request::ListSessions, Wait::SwitchNumber(n)),
                None => asks(Request::SessionState(Target::Name(arg)), Wait::SwitchState),
            }
        },
        ReplSlashCommand::Rename => if arg.len() == 0 {
            noted(dim_note(pick(lang, "usage: /rename <name>"@, "用法：/rename <新名称>"@)))
        } else {
            asks(Request::RenameSession(session, arg), Wait::Renamed(arg))
        },
        ReplSlashCommand::Archive => asks(Request::ArchiveSession(session), Wait::Archived),
        ReplSlashCommand::Delete => if arg.len() == 0 {
            asks(Request::SessionState(Target::Id(session)), Wait::DeleteState)
        } else {
            match number_of(arg) {
                Some(n) => asks(Request::ListSessions, Wait::DeleteNumber(n)),
                None => asks(Request::SessionState(Target::Name(arg)), Wait::DeleteState),
            }
        },
        ReplSlashCommand::Workspace => if arg.len() == 0 {
            asks(Request::SessionState(Target::Id(session)), Wait::WorkspaceState)
        } else if lower(arg) == lower("clear"@) {
            asks(Request::BindWorkspace(session, None), Wait::Unbound)
        } else {
            awaits(Act::CheckPath(arg), Wait::CheckedPath(arg))
        },
        ReplSlashCommand::Usage => awaits(Act::ReadUsage, Wait::Usage),
        ReplSlashCommand::Persona => awaits(Act::PickPersona(args), Wait::Persona),
        ReplSlashCommand::Models => awaits(Act::PickModels(unless_blank(arg)), Wait::Models),
        ReplSlashCommand::Config => awaits(Act::OpenConfig, Wait::Config),
        ReplSlashCommand::Variant => awaits(Act::PickVariant(unless_blank(arg)), Wait::Variant),
        ReplSlashCommand::Undo => asks(Request::Undo(session), Wait::Undone),
        ReplSlashCommand::Pop => match pop_argument(lang, args) {
            Ok(count) => awaits(Act::PickTurns(count), Wait::Turns),
            Err(note) => noted(red(error_of(lang, note))),
        },
        ReplSlashCommand::Compact => Next {
            wait: Wait::Compacted,
            acts: seq![
                Act::Note(dim(pick(lang, "compacting context…"@, "正在压缩上下文…"@))),
                Act::Ask(Request::Compact(session)),
            ],
        },
        ReplSlashCommand::Reset => asks(Request::Reset(session), Wait::ResetDone),
        ReplSlashCommand::Wipe => Next {
            wait: Wait::WipeAnswer,
            acts: seq![
                Act::Note(
                    dim_note(
                        pick(
                            lang,
                            "This erases everything Laozhou has accumulated: memory, every conversation's contents, group-chat contexts, and auto-generated skills. It cannot be undone."@,
                            "这会抹掉 Laozhou 积累的一切：记忆、所有会话的内容、群聊上下文、自动生成的技能。不可撤销。"@,
                        ),
                    ),
                ),
                Act::Confirm(yes_no(pick(lang, "wipe everything?"@, "确认全部抹掉？"@))),
            ],
        },
    }
}

/// What a submitted line starts.
pub open spec fn line_starts(lang: Lang, session: Seq<char>, line: Seq<char>) -> Next {
    let input = trimmed(line);
    let name = input.take(word_len(input) as int);
    if lower(input) == lower("exit"@) || lower(input) == lower("quit"@) {
        done(Act::Leave)
    } else if begins_with(input, "/"@) {
        match command_meant(name) {
            None => noted(
                dim_note(
                    labelled(
                        pick(lang, "unknown command; try /help"@, "未知命令，可用 /help 查看"@),
                        name,
                    ),
                ),
            ),
            Some(command) => if command_hint(command).len() == 0 && trimmed(
                behind_word(input),
            ).len() > 0 {
                noted(
                    dim_note(
                        labelled(
                            pick(lang, "this command takes no arguments"@, "该命令不接受参数"@),
                            command_name(command),
                        ),
                    ),
                )
            } else {
                command_starts(lang, session, command, behind_word(input))
            },
        }
    } else if input.len() == 0 {
        idle()
    } else {
        Next { wait: Wait::Turn, acts: seq![Act::Record(input), Act::RunTurn(input)] }
    }
}

/// The line is the command about which session to be in.
pub open spec fn is_session_command(line: Seq<char>) -> bool {
    let input = trimmed(line);
    begins_with(input, "/"@) && command_meant(input.take(word_len(input) as int)) == Some(
        ReplSlashCommand::Session,
    )
}

/// The prompt: the session that it is in, and what it waits for.
#[derive(Debug)]
pub struct RemoteRepl {
    pub mode: AgentMode,
    pub session_id: String,
    pub footer: ReplFooterStatus,
    pub cumulative: TurnTokens,
    pub awaiting: Awaiting,
    pub chooser: SessionChooser,
    /// The state of a session that came last.
    pub state: Option<SessionState>,
}

/// The prompt waits for `next.wait` and does `next.acts`; nothing else of it
/// changes.
pub open spec fn moves(before: RemoteRepl, after: RemoteRepl, did: Seq<ReplAction>, next: Next) -> bool {
    &&& acts(did) == next.acts
    &&& wait_of(after.awaiting) == next.wait
    &&& after == (RemoteRepl { awaiting: after.awaiting, ..before })
}

impl RemoteRepl {
    /// A prompt in the session that it was in last.
    pub fn new(
        lang: Lang,
        mode: AgentMode,
        state: &SessionState,
        config: &ModelConfig,
        variant: Option<&str>,
    ) -> (r: Self)
        ensures
            r.mode == mode,
            r.session_id@ == state.session_id@,
            is_session_footer(lang, *config, *state, opt_text(variant), r.footer),
            r.cumulative == (TurnTokens {
                total: state.cumulative_tokens,
                prompt: state.cumulative_prompt_tokens,
                cache_read: state.cumulative_cache_read_tokens,
            }),
            r.awaiting is Input,
            r.chooser == (SessionChooser { cursor: None, lost_active: false }),
            r.state is None,
    {
        RemoteRepl {
            mode,
            session_id: state.session_id.clone(),
            footer: session_footer(lang, config, state, variant),
            cumulative: state_cumulative(state),
            awaiting: Awaiting::Input,
            chooser: SessionChooser::new(),
            state: None,
        }
    }

    pub fn asking(&mut self, request: ReplRequest, awaiting: Awaiting) -> (r: Vec<ReplAction>)
        ensures
            moves(*old(self), *final(self), r@, asks(request_of(request), wait_of(awaiting))),
    {
        self.awaiting = awaiting;
        one(ReplAction::Ask(request))
    }

    pub fn awaiting_act(&mut self, act: ReplAction, awaiting: Awaiting) -> (r: Vec<ReplAction>)
        ensures
            moves(*old(self), *final(self), r@, awaits(act_of(act), wait_of(awaiting))),
    {
        self.awaiting = awaiting;
        one(act)
    }

    pub fn noting(&mut self, text: String) -> (r: Vec<ReplAction>)
        ensures
            moves(*old(self), *final(self), r@, noted(text@)),
    {
        self.awaiting = Awaiting::Input;
        one(ReplAction::Note(text))
    }

    pub fn idling(&mut self) -> (r: Vec<ReplAction>)
        ensures
            moves(*old(self), *final(self), r@, idle()),
    {
        self.awaiting = Awaiting::Input;
        nothing()
    }

    /// A command about which session is meant.
    fn session_command(&mut self, arg: &str) -> (r: Vec<ReplAction>)
        ensures
            final(self).chooser == (SessionChooser { cursor: None, lost_active: false }),
            moves(
                RemoteRepl { chooser: final(self).chooser, ..*old(self) },
                *final(self),
                r@,
                if arg@.len() == 0 {
                    asks(Request::ListSessions, Wait::Listed)
                } else {
                    match number_of(arg@) {
                        Some(n) => asks(Request::ListSessions, Wait::SwitchNumber(n)),
                        None => asks(Request::SessionState(Target::Name(arg@)), Wait::SwitchState),
                    }
                },
            ),
    {
        self.chooser = SessionChooser::new();
        if arg.is_empty() {
            return self.asking(ReplRequest::ListSessions, Awaiting::Listed);
        }
        match parse_number(arg) {
            Some(n) => self.asking(ReplRequest::ListSessions, Awaiting::SwitchNumber(n)),
            None => self.asking(
                ReplRequest::SessionState { target: SessionRef::Name { name: arg.to_owned() } },
                Awaiting::SwitchState,
            ),
        }
    }

    fn delete_command(&mut self, arg: &str) -> (r: Vec<ReplAction>)
        ensures
            moves(
                *old(self),
                *final(self),
                r@,
                if arg@.len() == 0 {
                    asks(
                        Request::SessionState(Target::Id(old(self).session_id@)),
                        Wait::DeleteState,
                    )
                } else {
                    match number_of(arg@) {
                        Some(n) => asks(Request::ListSessions, Wait::DeleteNumber(n)),
                        None => asks(Request::SessionState(Target::Name(arg@)), Wait::DeleteState),
                    }
                },
            ),
    {
        if arg.is_empty() {
            let id = self.session_id.clone();
            return self.asking(
                ReplRequest::SessionState { target: SessionRef::Id { id } },
                Awaiting::DeleteState,
            );
        }
        match parse_number(arg) {
            Some(n) => self.asking(ReplRequest::ListSessions, Awaiting::DeleteNumber(n)),
            None => self.asking(
                ReplRequest::SessionState { target: SessionRef::Name { name: arg.to_owned() } },
                Awaiting::DeleteState,
            ),
        }
    }

    fn workspace_command(&mut self, arg: &str) -> (r: Vec<ReplAction>)
        ensures
            moves(
                *old(self),
                *final(self),
                r@,
                if arg@.len() == 0 {
                    asks(
                        Request::SessionState(Target::Id(old(self).session_id@)),
                        Wait::WorkspaceState,
                    )
                } else if lower(arg@) == lower("clear"@) {
                    asks(Request::BindWorkspace(old(self).session_id@, None), Wait::Unbound)
                } else {
                    awaits(Act::CheckPath(arg@), Wait::CheckedPath(arg@))
                },
            ),
    {
        let session = self.session_id.clone();
        if arg.is_empty() {
            self.asking(
                ReplRequest::SessionState { target: SessionRef::Id { id: session } },
                Awaiting::WorkspaceState,
            )
        } else if same_ignoring_case(arg, "clear") {
            self.asking(ReplRequest::BindWorkspace { session, path: None }, Awaiting::Unbound)
        } else {
            self.awaiting_act(
                ReplAction::CheckPath(arg.to_owned()),
                Awaiting::CheckedPath(arg.to_owned()),
            )
        }
    }

    fn pop_command(&mut self, lang: Lang, args: &str) -> (r: Vec<ReplAction>)
        ensures
            moves(
                *old(self),
                *final(self),
                r@,
                match pop_argument(lang, args@) {
                    Ok(count) => awaits(Act::PickTurns(count), Wait::Turns),
                    Err(note) => noted(red(error_of(lang, note))),
                },
            ),
    {
        match parse_repl_pop_count(lang, args) {
            Ok(count) => self.awaiting_act(ReplAction::PickTurns(count), Awaiting::Turns),
            Err(note) => {
                let text = error_text(lang, note.as_str());
                self.noting(red_text(text.as_str()))
            },
        }
    }

    /// Commands that begin with something to read or a warning.
    fn announced_command(&mut self, lang: Lang, wipe: bool) -> (r: Vec<ReplAction>)
        ensures
            moves(
                *old(self),
                *final(self),
                r@,
                command_starts(
                    lang,
                    old(self).session_id@,
                    if wipe {
                        ReplSlashCommand::Wipe
                    } else {
                        ReplSlashCommand::Compact
                    },
                    Seq::empty(),
                ),
            ),
    {
        if wipe {
            self.awaiting = Awaiting::WipeAnswer;
            two(
                ReplAction::Note(dim_note_text(wipe_summary(lang))),
                ReplAction::Confirm(confirm_text(t(lang, "wipe everything?", "确认全部抹掉？"))),
            )
        } else {
            let session = self.session_id.clone();
            self.awaiting = Awaiting::Compacted;
            two(
                ReplAction::Note(dim_text(t(lang, "compacting context…", "正在压缩上下文…"))),
                ReplAction::Ask(ReplRequest::Compact { session }),
            )
        }
    }

    pub fn simple_act(&mut self, act: ReplAction) -> (r: Vec<ReplAction>)
        ensures
            moves(*old(self), *final(self), r@, done(act_of(act))),
    {
        self.awaiting = Awaiting::Input;
        one(act)
    }

    /// Starts a command.
    pub fn command(&mut self, lang: Lang, command: ReplSlashCommand, args: &str) -> (r: Vec<
        ReplAction,
    >)
        ensures
            moves(
                RemoteRepl { chooser: final(self).chooser, ..*old(self) },
                *final(self),
                r@,
                command_starts(lang, old(self).session_id@, command, args@),
            ),
            final(self).chooser == if command is Session {
                SessionChooser { cursor: None, lost_active: false }
            } else {
                old(self).chooser
            },
    {
        let arg = trim(args);
        let session = self.session_id.clone();
        match command {
            ReplSlashCommand::Exit => self.simple_act(ReplAction::Leave),
            ReplSlashCommand::Help => self.simple_act(ReplAction::Help),
            ReplSlashCommand::History => self.simple_act(ReplAction::History),
            ReplSlashCommand::Clear => self.simple_act(ReplAction::ClearScreen),
            ReplSlashCommand::New => self.asking(
                ReplRequest::CreateSession { wanted: some_text(arg) },
                Awaiting::Created,
            ),
            ReplSlashCommand::Session => self.session_command(arg),
            ReplSlashCommand::Rename => if arg.is_empty() {
                self.noting(
                    dim_note_text(t(lang, "usage: /rename <name>", "用法：/rename <新名称>")),
                )
            } else {
                self.asking(
                    ReplRequest::RenameSession { session, name: arg.to_owned() },
                    Awaiting::Renamed(arg.to_owned()),
                )
            },
            ReplSlashCommand::Archive => self.asking(
                ReplRequest::ArchiveSession { session },
                Awaiting::Archived,
            ),
            ReplSlashCommand::Delete => self.delete_command(arg),
            ReplSlashCommand::Workspace => self.workspace_command(arg),
            ReplSlashCommand::Usage => self.awaiting_act(ReplAction::ReadUsage, Awaiting::Usage),
            ReplSlashCommand::Persona => self.awaiting_act(
                ReplAction::PickPersona(args.to_owned()),
                Awaiting::Persona,
            ),
            ReplSlashCommand::Models => self.awaiting_act(
                ReplAction::PickModels(some_text(arg)),
                Awaiting::Models,
            ),
            ReplSlashCommand::Config => self.awaiting_act(ReplAction::OpenConfig, Awaiting::Config),
            ReplSlashCommand::Variant => self.awaiting_act(
                ReplAction::PickVariant(some_text(arg)),
                Awaiting::Variant,
            ),
            ReplSlashCommand::Undo => self.asking(ReplRequest::Undo { session }, Awaiting::Undone),
            ReplSlashCommand::Pop => self.pop_command(lang, args),
            ReplSlashCommand::Compact => self.announced_command(lang, false),
            ReplSlashCommand::Reset => self.asking(
                ReplRequest::Reset { session },
                Awaiting::ResetDone,
            ),
            ReplSlashCommand::Wipe => self.announced_command(lang, true),
        }
    }

    /// A line was submitted.
    pub fn submitted(&mut self, lang: Lang, mode: AgentMode, line: &str) -> (r: Vec<ReplAction>)
        ensures
            moves(
                RemoteRepl { mode, chooser: final(self).chooser, ..*old(self) },
                *final(self),
                r@,
                line_starts(lang, old(self).session_id@, line@),
            ),
            final(self).chooser == if is_session_command(line@) {
                SessionChooser { cursor: None, lost_active: false }
            } else {
                old(self).chooser
            },
    {
        proof {
            reveal_strlit("/");
            reveal_strlit("exit");
            reveal_strlit("quit");
            reveal_strlit("[name|index]");
        }
        self.mode = mode;
        let input = trim(line);
        proof {
            if begins_with(input@, "/"@) {
                assert(input@.take(1)[0] == '/');
                assert(lower(input@)[0] == '/');
                assert(lower("exit"@)[0] == 'e' && lower("quit"@)[0] == 'q');
            }
        }
        if same_ignoring_case(input, "exit") || same_ignoring_case(input, "quit") {
            return self.simple_act(ReplAction::Leave);
        }
        match parse_repl_input(input) {
            ReplInput::UnknownSlash(name) => {
                let text = labelled_text(
                    t(lang, "unknown command; try /help", "未知命令，可用 /help 查看"),
                    name,
                );
                self.noting(dim_note_text(text.as_str()))
            },
            ReplInput::Slash(command, args) => {
                let spec = repl_command_spec(command);
                if spec.arg_hint.is_empty() && !trim(args).is_empty() {
                    let text = labelled_text(
                        t(lang, "this command takes no arguments", "该命令不接受参数"),
                        spec.name,
                    );
                    return self.noting(dim_note_text(text.as_str()));
                }
                self.command(lang, command, args)
            },
            ReplInput::Chat => {
                if input.is_empty() {
                    return self.idling();
                }
                self.awaiting = Awaiting::Turn;
                two(ReplAction::Record(input.to_owned()), ReplAction::RunTurn(input.to_owned()))
            },
        }
    }
}

/// A line that begins with a slash is never sent to the model.
pub proof fn law_slash_lines_are_never_sent(lang: Lang, session: Seq<char>, line: Seq<char>)
    requires
        begins_with(trimmed(line), "/"@),
    ensures
        forall|i: int|
            0 <= i < line_starts(lang, session, line).acts.len() ==> !(#[trigger] line_starts(
                lang,
                session,
                line,
            ).acts[i] is RunTurn),
{
}

/// Each command asks the daemon for its own request and for no other, about the
/// session in use; the commands that only show something ask for nothing.
pub proof fn law_each_command_asks_for_its_own(
    repl: &mut RemoteRepl,
    lang: Lang,
    command: ReplSlashCommand,
    args: &str,
    r: Vec<ReplAction>,
    i: int,
)
    requires
        call_ensures(RemoteRepl::command, (repl, lang, command, args), r),
        0 <= i < r@.len(),
    ensures
        r@[i] is Ask ==> match r@[i]->Ask_0 {
            ReplRequest::CreateSession { wanted } => command is New && opt_string(wanted)
                == unless_blank(trimmed(args@)),
            ReplRequest::ListSessions => command is Session || (command is Delete && trimmed(
                args@,
            ).len() > 0),
            ReplRequest::SessionState { target } => command is Session || command is Delete
                || command is Workspace,
            ReplRequest::RenameSession { session, name } => command is Rename && session@ == old(
                repl,
            ).session_id@ && name@ == trimmed(args@),
            ReplRequest::ArchiveSession { session } => command is Archive && session@ == old(
                repl,
            ).session_id@,
            ReplRequest::BindWorkspace { session, path } => command is Workspace && session@ == old(
                repl,
            ).session_id@ && path is None && lower(trimmed(args@)) == lower("clear"@),
            ReplRequest::Undo { session } => command is Undo && session@ == old(repl).session_id@,
            ReplRequest::Compact { session } => command is Compact && session@ == old(
                repl,
            ).session_id@,
            ReplRequest::Reset { session } => command is Reset && session@ == old(repl).session_id@,
            ReplRequest::StopJobs { .. } => false,
            ReplRequest::Status => false,
            ReplRequest::DeleteSession { .. } => false,
            ReplRequest::ReloadConfig => false,
            ReplRequest::PopTurns { .. } => false,
            ReplRequest::Wipe => false,
        },
        r@[i] is Leave ==> command is Exit,
        r@[i] is Help ==> command is Help,
        r@[i] is History ==> command is History,
        r@[i] is ClearScreen ==> command is Clear,
        r@[i] is ReadUsage ==> command is Usage,
        r@[i] is PickPersona ==> command is Persona,
        r@[i] is PickModels ==> command is Models,
        r@[i] is OpenConfig ==> command is Config,
        r@[i] is PickVariant ==> command is Variant,
        r@[i] is PickTurns ==> command is Pop,
        r@[i] is CheckPath ==> command is Workspace,
        r@[i] is Confirm ==> command is Wipe,
        !(r@[i] is RunTurn || r@[i] is Record || r@[i] is Fail || r@[i] is Switch || r@[i]
            is ClearInput || r@[i] is Prefill || r@[i] is Choose),
{
    let next = command_starts(lang, old(repl).session_id@, command, args@);
    assert(acts(r@).len() == r@.len());
    assert(acts(r@) == next.acts);
    assert(next.acts.len() <= 2);
    assert(acts(r@)[i] == act_of(r@[i]));
    assert(next.acts[0] == act_of(r@[0]));
    if i == 1 {
        assert(next.acts[1] == act_of(r@[1]));
    }
}

/// What each command starts with, and what the prompt then waits for.
pub proof fn law_commands_start_and_wait(
    repl: &mut RemoteRepl,
    lang: Lang,
    command: ReplSlashCommand,
    args: &str,
    r: Vec<ReplAction>,
)
    requires
        call_ensures(RemoteRepl::command, (repl, lang, command, args), r),
    ensures
        ({
            let id = old(repl).session_id@;
            let arg = trimmed(args@);
            let did = acts(r@);
            let wait = wait_of(final(repl).awaiting);
            &&& final(repl).session_id == old(repl).session_id
            &&& final(repl).mode == old(repl).mode
            &&& final(repl).cumulative == old(repl).cumulative
            &&& command is New ==> did.last() is Ask && wait is Created
            &&& command is Session && arg.len() == 0 ==> did == seq![
                Act::Ask(Request::ListSessions),
            ] && wait is Listed
            &&& command is Session && arg.len() > 0 && number_of(arg) is None ==> did == seq![
                Act::Ask(Request::SessionState(Target::Name(arg))),
            ] && wait is SwitchState
            &&& command is Session && arg.len() > 0 && number_of(arg) is Some ==> did == seq![
                Act::Ask(Request::ListSessions),
            ] && wait == Wait::SwitchNumber(number_of(arg)->0)
            &&& command is Rename && arg.len() > 0 ==> did == seq![
                Act::Ask(Request::RenameSession(id, arg)),
            ] && wait == Wait::Renamed(arg)
            &&& command is Rename && arg.len() == 0 ==> did.len() == 1 && did[0] is Note && wait
                is Input
            &&& command is Archive ==> did == seq![Act::Ask(Request::ArchiveSession(id))] && wait
                is Archived
            &&& command is Delete && arg.len() == 0 ==> did == seq![
                Act::Ask(Request::SessionState(Target::Id(id))),
            ] && wait is DeleteState
            &&& command is Delete && arg.len() > 0 && number_of(arg) is None ==> did == seq![
                Act::Ask(Request::SessionState(Target::Name(arg))),
            ] && wait is DeleteState
            &&& command is Delete && arg.len() > 0 && number_of(arg) is Some ==> did == seq![
                Act::Ask(Request::ListSessions),
            ] && wait == Wait::DeleteNumber(number_of(arg)->0)
            &&& command is Workspace && arg.len() == 0 ==> did == seq![
                Act::Ask(Request::SessionState(Target::Id(id))),
            ] && wait is WorkspaceState
            &&& command is Workspace && arg.len() > 0 && lower(arg) != lower("clear"@) ==> did
                == seq![Act::CheckPath(arg)] && wait == Wait::CheckedPath(arg)
            &&& command is Workspace && arg.len() > 0 && lower(arg) == lower("clear"@) ==> did
                == seq![Act::Ask(Request::BindWorkspace(id, None))] && wait is Unbound
            &&& command is Undo ==> did == seq![Act::Ask(Request::Undo(id))] && wait is Undone
            &&& command is Compact ==> did.last() == Act::Ask(Request::Compact(id)) && wait
                is Compacted
            &&& command is Reset ==> did == seq![Act::Ask(Request::Reset(id))] && wait is ResetDone
            &&& command is Wipe ==> did.last() is Confirm && wait is WipeAnswer && (forall|i: int|
                0 <= i < did.len() ==> !(#[trigger] did[i] is Ask))
            &&& command is Pop && pop_argument(lang, args@) is Ok ==> did == seq![
                Act::PickTurns(pop_argument(lang, args@)->Ok_0),
            ] && wait is Turns
            &&& command is Pop && pop_argument(lang, args@) is Err ==> did.len() == 1 && did[0]
                is Note && wait is Input
            &&& command is Usage ==> did == seq![Act::ReadUsage] && wait is Usage
            &&& command is Persona ==> did == seq![Act::PickPersona(args@)] && wait is Persona
            &&& command is Models ==> did == seq![
                Act::PickModels(
                    if arg.len() == 0 {
                        None
                    } else {
                        Some(arg)
                    },
                ),
            ] && wait is Models
            &&& command is Config ==> did == seq![Act::OpenConfig] && wait is Config
            &&& command is Variant ==> did == seq![
                Act::PickVariant(
                    if arg.len() == 0 {
                        None
                    } else {
                        Some(arg)
                    },
                ),
            ] && wait is Variant
            &&& command is History ==> did == seq![Act::History] && wait is Input
            &&& command is Clear ==> did == seq![Act::ClearScreen] && wait is Input
            &&& command is Help ==> did == seq![Act::Help] && wait is Input
            &&& command is Exit ==> did == seq![Act::Leave] && wait is Input
        }),
{
}

/// A slash command typed without an argument does what its name says, about the
/// session in use.
pub proof fn law_typed_commands_do_what_they_name(
    repl: &mut RemoteRepl,
    lang: Lang,
    mode: AgentMode,
    line: &str,
    r: Vec<ReplAction>,
)
    requires
        call_ensures(RemoteRepl::submitted, (repl, lang, mode, line), r),
    ensures
        ({
            let id = old(repl).session_id@;
            let typed = lower(trimmed(line@));
            let did = acts(r@);
            let wait = wait_of(final(repl).awaiting);
            &&& typed == "/archive"@ ==> did == seq![Act::Ask(Request::ArchiveSession(id))] && wait is Archived
            &&& typed == "/reset"@ ==> did == seq![Act::Ask(Request::Reset(id))] && wait is ResetDone
            &&& typed == "/undo"@ ==> did == seq![Act::Ask(Request::Undo(id))] && wait is Undone
            &&& typed == "/session"@ ==> did == seq![Act::Ask(Request::ListSessions)] && wait is Listed
            &&& typed == "/new"@ ==> did == seq![Act::Ask(Request::CreateSession(None))] && wait is Created
            &&& typed == "/delete"@ ==> did == seq![Act::Ask(Request::SessionState(Target::Id(id)))] && wait is DeleteState
            &&& typed == "/workspace"@ ==> did == seq![Act::Ask(Request::SessionState(Target::Id(id)))] && wait is WorkspaceState
            &&& typed == "/pop"@ ==> did == seq![Act::PickTurns(None)] && wait is Turns
            &&& typed == "/usage"@ ==> did == seq![Act::ReadUsage] && wait is Usage
            &&& typed == "/config"@ ==> did == seq![Act::OpenConfig] && wait is Config
            &&& typed == "/models"@ ==> did == seq![Act::PickModels(None)] && wait is Models
            &&& typed == "/variant"@ ==> did == seq![Act::PickVariant(None)] && wait is Variant
            &&& typed == "/history"@ ==> did == seq![Act::History] && wait is Input
            &&& typed == "/clear"@ ==> did == seq![Act::ClearScreen] && wait is Input
            &&& typed == "/help"@ ==> did == seq![Act::Help] && wait is Input
            &&& typed == "/exit"@ ==> did == seq![Act::Leave] && wait is Input
            &&& typed == "/compact"@ ==> did.len() == 2 && did[1] == Act::Ask(Request::Compact(id))
                && wait is Compacted
            &&& typed == "/wipe"@ ==> did.len() == 2 && did[1] is Confirm && wait is WipeAnswer
            &&& typed == "/rename"@ ==> did.len() == 1 && did[0] is Note && wait is Input
            &&& final(repl).mode == mode
        }),
{
    let input = trimmed(line@);
    lemma_typed_names(input);
    crate::commands::law_commands_are_typed_as_their_names(input);
    lemma_no_arguments(lang);
}

/// None of the names holds white space, and each begins with a slash.
proof fn lemma_typed_names(input: Seq<char>)
    ensures
        input.len() > 0 && lower(input)[0] == '/' ==> begins_with(input, "/"@),
        lower(input) == "/new"@ ==> names_a_command(input),
        lower(input) == "/session"@ ==> names_a_command(input),
        lower(input) == "/rename"@ ==> names_a_command(input),
        lower(input) == "/archive"@ ==> names_a_command(input),
        lower(input) == "/delete"@ ==> names_a_command(input),
        lower(input) == "/workspace"@ ==> names_a_command(input),
        lower(input) == "/models"@ ==> names_a_command(input),
        lower(input) == "/persona"@ ==> names_a_command(input),
        lower(input) == "/usage"@ ==> names_a_command(input),
        lower(input) == "/config"@ ==> names_a_command(input),
        lower(input) == "/variant"@ ==> names_a_command(input),
        lower(input) == "/undo"@ ==> names_a_command(input),
        lower(input) == "/pop"@ ==> names_a_command(input),
        lower(input) == "/compact"@ ==> names_a_command(input),
        lower(input) == "/reset"@ ==> names_a_command(input),
        lower(input) == "/wipe"@ ==> names_a_command(input),
        lower(input) == "/history"@ ==> names_a_command(input),
        lower(input) == "/clear"@ ==> names_a_command(input),
        lower(input) == "/help"@ ==> names_a_command(input),
        lower(input) == "/exit"@ ==> names_a_command(input),
{
    reveal_strlit("/");
    reveal_strlit("exit");
    reveal_strlit("quit");
    assert(lower(input).len() == input.len());
    assert(lower("exit"@)[0] == lower_char('e'));
    assert(lower("quit"@)[0] == lower_char('q'));
    if input.len() > 0 {
        assert(lower(input)[0] == lower_char(input[0]));
        assert(input.take(1) =~= seq![input[0]]);
        assert("/"@ =~= seq!['/']);
    }
    if lower(input) == "/new"@ {
        reveal_strlit("/new");
        assert forall|i: int| 0 <= i < input.len() implies !is_white_space(
            #[trigger] lower(input)[i],
        ) by {
            assert(i == 0 || i == 1 || i == 2 || i == 3);
        }
        lemma_one_word(input);
    }
    if lower(input) == "/session"@ {
        reveal_strlit("/session");
        assert forall|i: int| 0 <= i < input.len() implies !is_white_space(
            #[trigger] lower(input)[i],
        ) by {
            assert(i == 0 || i == 1 || i == 2 || i == 3 || i == 4 || i == 5 || i == 6 || i == 7);
        }
        lemma_one_word(input);
    }
    if lower(input) == "/rename"@ {
        reveal_strlit("/rename");
        assert forall|i: int| 0 <= i < input.len() implies !is_white_space(
            #[trigger] lower(input)[i],
        ) by {
            assert(i == 0 || i == 1 || i == 2 || i == 3 || i == 4 || i == 5 || i == 6);
        }
        lemma_one_word(input);
    }
    if lower(input) == "/archive"@ {
        reveal_strlit("/archive");
        assert forall|i: int| 0 <= i < input.len() implies !is_white_space(
            #[trigger] lower(input)[i],
        ) by {
            assert(i == 0 || i == 1 || i == 2 || i == 3 || i == 4 || i == 5 || i == 6 || i == 7);
        }
        lemma_one_word(input);
    }
    if lower(input) == "/delete"@ {
        reveal_strlit("/delete");
        assert forall|i: int| 0 <= i < input.len() implies !is_white_space(
            #[trigger] lower(input)[i],
        ) by {
            assert(i == 0 || i == 1 || i == 2 || i == 3 || i == 4 || i == 5 || i == 6);
        }
        lemma_one_word(input);
    }
    if lower(input) == "/workspace"@ {
        reveal_strlit("/workspace");
        assert forall|i: int| 0 <= i < input.len() implies !is_white_space(
            #[trigger] lower(input)[i],
        ) by {
            assert(i == 0 || i == 1 || i == 2 || i == 3 || i == 4 || i == 5 || i == 6 || i == 7 || i == 8 || i == 9);
        }
        lemma_one_word(input);
    }
    if lower(input) == "/models"@ {
        reveal_strlit("/models");
        assert forall|i: int| 0 <= i < input.len() implies !is_white_space(
            #[trigger] lower(input)[i],
        ) by {
            assert(i == 0 || i == 1 || i == 2 || i == 3 || i == 4 || i == 5 || i == 6);
        }
        lemma_one_word(input);
    }
    if lower(input) == "/persona"@ {
        reveal_strlit("/persona");
        assert forall|i: int| 0 <= i < input.len() implies !is_white_space(
            #[trigger] lower(input)[i],
        ) by {
            assert(i == 0 || i == 1 || i == 2 || i == 3 || i == 4 || i == 5 || i == 6 || i == 7);
        }
        lemma_one_word(input);
    }
    if lower(input) == "/usage"@ {
        reveal_strlit("/usage");
        assert forall|i: int| 0 <= i < input.len() implies !is_white_space(
            #[trigger] lower(input)[i],
        ) by {
            assert(i == 0 || i == 1 || i == 2 || i == 3 || i == 4 || i == 5);
        }
        lemma_one_word(input);
    }
    if lower(input) == "/config"@ {
        reveal_strlit("/config");
        assert forall|i: int| 0 <= i < input.len() implies !is_white_space(
            #[trigger] lower(input)[i],
        ) by {
            assert(i == 0 || i == 1 || i == 2 || i == 3 || i == 4 || i == 5 || i == 6);
        }
        lemma_one_word(input);
    }
    if lower(input) == "/variant"@ {
        reveal_strlit("/variant");
        assert forall|i: int| 0 <= i < input.len() implies !is_white_space(
            #[trigger] lower(input)[i],
        ) by {
            assert(i == 0 || i == 1 || i == 2 || i == 3 || i == 4 || i == 5 || i == 6 || i == 7);
        }
        lemma_one_word(input);
    }
    if lower(input) == "/undo"@ {
        reveal_strlit("/undo");
        assert forall|i: int| 0 <= i < input.len() implies !is_white_space(
            #[trigger] lower(input)[i],
        ) by {
            assert(i == 0 || i == 1 || i == 2 || i == 3 || i == 4);
        }
        lemma_one_word(input);
    }
    if lower(input) == "/pop"@ {
        reveal_strlit("/pop");
        assert forall|i: int| 0 <= i < input.len() implies !is_white_space(
            #[trigger] lower(input)[i],
        ) by {
            assert(i == 0 || i == 1 || i == 2 || i == 3);
        }
        lemma_one_word(input);
    }
    if lower(input) == "/compact"@ {
        reveal_strlit("/compact");
        assert forall|i: int| 0 <= i < input.len() implies !is_white_space(
            #[trigger] lower(input)[i],
        ) by {
            assert(i == 0 || i == 1 || i == 2 || i == 3 || i == 4 || i == 5 || i == 6 || i == 7);
        }
        lemma_one_word(input);
    }
    if lower(input) == "/reset"@ {
        reveal_strlit("/reset");
        assert forall|i: int| 0 <= i < input.len() implies !is_white_space(
            #[trigger] lower(input)[i],
        ) by {
            assert(i == 0 || i == 1 || i == 2 || i == 3 || i == 4 || i == 5);
        }
        lemma_one_word(input);
    }
    if lower(input) == "/wipe"@ {
        reveal_strlit("/wipe");
        assert forall|i: int| 0 <= i < input.len() implies !is_white_space(
            #[trigger] lower(input)[i],
        ) by {
            assert(i == 0 || i == 1 || i == 2 || i == 3 || i == 4);
        }
        lemma_one_word(input);
    }
    if lower(input) == "/history"@ {
        reveal_strlit("/history");
        assert forall|i: int| 0 <= i < input.len() implies !is_white_space(
            #[trigger] lower(input)[i],
        ) by {
            assert(i == 0 || i == 1 || i == 2 || i == 3 || i == 4 || i == 5 || i == 6 || i == 7);
        }
        lemma_one_word(input);
    }
    if lower(input) == "/clear"@ {
        reveal_strlit("/clear");
        assert forall|i: int| 0 <= i < input.len() implies !is_white_space(
            #[trigger] lower(input)[i],
        ) by {
            assert(i == 0 || i == 1 || i == 2 || i == 3 || i == 4 || i == 5);
        }
        lemma_one_word(input);
    }
    if lower(input) == "/help"@ {
        reveal_strlit("/help");
        assert forall|i: int| 0 <= i < input.len() implies !is_white_space(
            #[trigger] lower(input)[i],
        ) by {
            assert(i == 0 || i == 1 || i == 2 || i == 3 || i == 4);
        }
        lemma_one_word(input);
    }
    if lower(input) == "/exit"@ {
        reveal_strlit("/exit");
        assert forall|i: int| 0 <= i < input.len() implies !is_white_space(
            #[trigger] lower(input)[i],
        ) by {
            assert(i == 0 || i == 1 || i == 2 || i == 3 || i == 4);
        }
        lemma_one_word(input);
    }
}

pub open spec fn names_a_command(input: Seq<char>) -> bool {
    &&& begins_with(input, "/"@)
    &&& word_len(input) == input.len()
    &&& input.take(word_len(input) as int) == input
    &&& behind_word(input).len() == 0
    &&& lower(input) != lower("exit"@)
    &&& lower(input) != lower("quit"@)
}

proof fn lemma_one_word(input: Seq<char>)
    requires
        forall|i: int| 0 <= i < input.len() ==> !is_white_space(#[trigger] lower(input)[i]),
    ensures
        word_len(input) == input.len(),
        input.take(word_len(input) as int) == input,
{
    crate::commands::lemma_word_len(input);
    let n = word_len(input) as int;
    if n < input.len() {
        assert(lower(input)[n] == lower_char(input[n]));
        assert(!is_white_space(lower(input)[n]));
    }
    assert(input.take(input.len() as int) =~= input);
}

proof fn lemma_no_arguments(lang: Lang)
    ensures
        trimmed(Seq::<char>::empty()).len() == 0,
        pop_argument(lang, Seq::<char>::empty()) == Ok::<Option<usize>, Seq<char>>(None),
{
}

/// A line without a slash is what the user says to the model, freed of the white
/// space around it, and is remembered; a blank line does nothing; `exit` and
/// `quit` leave in whatever case; an unknown command is answered with a note.
pub proof fn law_other_lines_are_said_to_the_model(
    repl: &mut RemoteRepl,
    lang: Lang,
    mode: AgentMode,
    line: &str,
    r: Vec<ReplAction>,
)
    requires
        call_ensures(RemoteRepl::submitted, (repl, lang, mode, line), r),
    ensures
        ({
            let input = trimmed(line@);
            let did = acts(r@);
            let wait = wait_of(final(repl).awaiting);
            let leaves = lower(input) == lower("exit"@) || lower(input) == lower("quit"@);
            &&& leaves ==> did == seq![Act::Leave]
            &&& !leaves && input.len() == 0 ==> did.len() == 0 && wait is Input
            &&& !leaves && input.len() > 0 && input[0] != '/' ==> did == seq![
                Act::Record(input),
                Act::RunTurn(input),
            ] && wait is Turn
            &&& !leaves && input.len() > 0 && input[0] == '/' ==> (forall|i: int|
                0 <= i < did.len() ==> !(#[trigger] did[i] is RunTurn || did[i] is Record))
            &&& !leaves && input.len() > 0 && input[0] == '/' && command_meant(
                input.take(word_len(input) as int),
            ) is None ==> did.len() == 1 && did[0] is Note && wait is Input
            &&& final(repl).session_id == old(repl).session_id
            &&& final(repl).mode == mode
        }),
{
    let input = trimmed(line@);
    reveal_strlit("/");
    if input.len() > 0 {
        assert(input.take(1) =~= seq![input[0]]);
        assert("/"@ =~= seq!['/']);
        assert(seq![input[0]][0] == input[0]);
        assert("/"@[0] == '/');
        assert(begins_with(input, "/"@) <==> input[0] == '/');
    } else {
        assert(!begins_with(input, "/"@));
    }
}

/// A new prompt is in the session it is given, with that session's figures.
pub proof fn law_prompt_starts_in_its_session(
    lang: Lang,
    mode: AgentMode,
    state: &SessionState,
    config: &ModelConfig,
    variant: Option<&str>,
    r: RemoteRepl,
)
    requires
        call_ensures(RemoteRepl::new, (lang, mode, state, config, variant), r),
    ensures
        r.session_id@ == state.session_id@,
        r.mode == mode,
        r.awaiting is Input,
        r.cumulative.total == state.cumulative_tokens,
        r.cumulative.prompt == state.cumulative_prompt_tokens,
        r.cumulative.cache_read == state.cumulative_cache_read_tokens,
{
}

} // verus!
