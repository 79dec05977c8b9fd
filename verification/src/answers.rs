//! What the prompt does with each answer: of the daemon, of the user, and of the
//! menus that it opened.
use crate::echo::{dim, dim_text, red, red_text};
use crate::editor::EditorState;
use crate::footer::{with_cumulative, ModelConfig, ReplFooterStatus};
use crate::jobs::{opt_string, opt_text};
use crate::json::{flag_member, member, Json};
use crate::lang::{pick, t, Lang};
use crate::notes::{
    confirm_text, counted_label, counted_label_text, dim_note, dim_note_text, error_of, error_text,
    invalid_path, invalid_path_text, labelled, plain_note_text, print_wipe_message, red_note,
    red_note_text, renamed_text, stopped_work, stopped_work_text, workspace_bound_text,
    workspace_note, workspace_note_text, yes_no,
};
use crate::pop::{
    daemon_outcome, outcome_note, repl_nothing_to_pop_text, repl_pop_outcome_text,
    run_pop_via_daemon,
};
use crate::remote::{count_or, count_or_zero, opt_text_member};
use crate::repl::{
    acts, asks, awaits, done, idle, line_starts, moves, noted, nothing, target_of, three, two,
    wait_of, Act, Awaiting, Next, Refresh, RemoteRepl, ReplAction, ReplRequest, Request, Target,
    Wait,
};
use crate::screen::TerminalOp;
use crate::session::{
    apply_repl_session_switch, confirms, entry_texts, fallback_entry, fallback_id,
    is_session_footer, is_yes, listed_sessions, no_such_number, no_such_number_text, session_footer,
    session_list_entries, SessionChooser, SessionPick, SessionRef,
};
use crate::tail::{framed, LiveReplTail};
use crate::text::{joined, same, texts};
use crate::tokens::{
    cumulative_meter, meter_of_turn, state_cumulative, tokens_of, turn_meter, ChatResult,
    SessionState, TokenMeter, TurnTokens, Usage,
};
use crate::usage::{overview_lines, usage_overview_text, UsageSnapshot};
use vstd::prelude::*;
use vstd::string::*;

verus! {

/// The total that the state of a session reports.
pub open spec fn total_of(state: SessionState) -> TurnTokens {
    TurnTokens {
        total: state.cumulative_tokens,
        prompt: state.cumulative_prompt_tokens,
        cache_read: state.cumulative_cache_read_tokens,
    }
}

/// The footer with the figures that the state of a session reports.
pub open spec fn counted_footer(footer: ReplFooterStatus, state: SessionState) -> ReplFooterStatus {
    ReplFooterStatus {
        token_usage: with_cumulative(
            TokenMeter {
                session_tokens: state.context_tokens,
                context_window: state.context_window,
                ..footer.token_usage
            },
            total_of(state),
        ),
        ..footer
    }
}

/// The footer of a session in which nothing has been spent.
pub open spec fn fresh_footer(footer: ReplFooterStatus, state: SessionState) -> ReplFooterStatus {
    ReplFooterStatus {
        token_usage: TokenMeter {
            session_tokens: state.context_tokens,
            context_window: state.context_window,
            ..cumulative_meter(TurnTokens { total: 0, prompt: 0, cache_read: 0 })
        },
        ..footer
    }
}

/// The answers that bring new figures of the session in use. Behind a compaction
/// that reports what it used, that is read first.
pub open spec fn brings_counts(wait: Wait, data: Json) -> bool {
    match wait {
        Wait::Undone | Wait::Popped => true,
        Wait::Compacted => !has_usage(data),
        Wait::Active(why) => why == Refresh::Cancelled,
        Wait::Default(why) => why == Refresh::Cancelled,
        _ => false,
    }
}

/// The prompt with what the state of a session brings: figures, or none at all
/// behind a reset.
pub open spec fn informed(repl: RemoteRepl, state: SessionState, data: Json) -> RemoteRepl {
    let wait = wait_of(repl.awaiting);
    if brings_counts(wait, data) {
        RemoteRepl {
            footer: counted_footer(repl.footer, state),
            cumulative: total_of(state),
            state: Some(state),
            ..repl
        }
    } else if wait is ResetDone || wait is Wiped {
        RemoteRepl {
            footer: fresh_footer(repl.footer, state),
            cumulative: TurnTokens { total: 0, prompt: 0, cache_read: 0 },
            state: Some(state),
            ..repl
        }
    } else {
        RemoteRepl { state: Some(state), ..repl }
    }
}

/// The identity of the session that was made.
pub open spec fn created_id(data: Json) -> Option<Seq<char>> {
    match member(data, "session"@) {
        Some(session) => opt_text_member(session, "session_id"@),
        None => None,
    }
}

/// The session with that number of the list, or that there is none.
pub open spec fn numbered(lang: Lang, data: Json, n: usize, wait: Wait) -> Next {
    let listed = listed_sessions(data);
    if 1 <= n <= listed.len() {
        asks(Request::SessionState(Target::Id(listed[n - 1].id)), wait)
    } else {
        noted(dim_note(no_such_number(lang, n as nat)))
    }
}

/// A note, and whatever session there is where the own one is gone.
pub open spec fn noted_then_fallback(note: Seq<char>, lost: bool) -> Next {
    if lost {
        Next {
            wait: Wait::FallbackList,
            acts: seq![Act::Note(note), Act::Ask(Request::ListSessions)],
        }
    } else {
        noted(note)
    }
}

pub open spec fn stopped_tasks(lang: Lang, n: u64) -> Seq<char> {
    dim_note(stopped_work(lang, n, " background task(s)"@, " 个后台任务"@))
}

/// What follows from the state of the session in use, or of the daemon's own
/// where that is another.
pub open spec fn refreshed(why: Refresh, changed: bool) -> Next {
    match why {
        Refresh::Persona | Refresh::Models => awaits(Act::Rebuild, Wait::Rebuilt(why)),
        Refresh::Config | Refresh::Variant => if changed {
            Next { wait: Wait::Rebuilt(why), acts: seq![Act::Switch, Act::Rebuild] }
        } else {
            awaits(Act::Rebuild, Wait::Rebuilt(why))
        },
        Refresh::Cancelled => idle(),
        Refresh::Failed => if changed {
            done(Act::Switch)
        } else {
            idle()
        },
    }
}

pub open spec fn undone(lang: Lang, data: Json) -> Next {
    let note = Act::Note(
        counted_label(
            pick(lang, "undone messages"@, "已撤销消息数"@),
            count_or_zero(data, "removed"@),
        ) + "\n"@,
    );
    match opt_text_member(data, "prompt"@) {
        Some(prompt) => Next { wait: Wait::Input, acts: seq![note, Act::Prefill(prompt)] },
        None => done(note),
    }
}

pub open spec fn popped_note(lang: Lang, data: Json) -> Seq<char> {
    dim_note(
        match daemon_outcome(data) {
            Some(outcome) => outcome_note(lang, outcome),
            None => pick(
                lang,
                "no conversation turns are available to pop"@,
                "没有可弹出的上下文轮次"@,
            ),
        },
    )
}

/// A usage report that says something.
pub open spec fn has_usage(data: Json) -> bool {
    match member(data, "usage"@) {
        Some(Json::Null) => false,
        Some(_) => true,
        None => false,
    }
}

/// What follows from an answer of the daemon.
pub open spec fn answer_next(lang: Lang, repl: RemoteRepl, state: SessionState, data: Json) -> Next {
    let session = repl.session_id@;
    match wait_of(repl.awaiting) {
        Wait::StoppedJobs => Next {
            wait: Wait::Input,
            acts: seq![
                Act::DropStrip,
                Act::Note(stopped_tasks(lang, count_or_zero(data, "stopped"@))),
            ],
        },
        Wait::Created => match created_id(data) {
            Some(id) => asks(Request::SessionState(Target::Id(id)), Wait::SwitchState),
            None => noted(red_note(pick(lang, "created session has no id"@, "新会话缺少 ID"@))),
        },
        Wait::SwitchNumber(n) => numbered(lang, data, n, Wait::SwitchState),
        Wait::DeleteNumber(n) => numbered(lang, data, n, Wait::DeleteState),
        Wait::SwitchState => done(Act::Switch),
        Wait::Listed => if listed_sessions(data).len() == 0 {
            noted_then_fallback(
                dim_note(pick(lang, "no sessions"@, "没有会话"@)),
                repl.chooser.lost_active,
            )
        } else {
            awaits(Act::Choose(listed_sessions(data)), Wait::Choice)
        },
        Wait::ChooserDelete(_, _) => asks(Request::ListSessions, Wait::Listed),
        Wait::FallbackList => match fallback_id(listed_sessions(data)) {
            Some(id) => asks(Request::SessionState(Target::Id(id)), Wait::SwitchState),
            None => idle(),
        },
        Wait::Renamed(name) => noted(
            dim_note(labelled(pick(lang, "session renamed"@, "会话已重命名"@), name)),
        ),
        Wait::Archived => Next {
            wait: Wait::FallbackList,
            acts: seq![
                Act::Note(dim(pick(lang, "session archived"@, "当前会话已归档"@))),
                Act::Ask(Request::ListSessions),
            ],
        },
        Wait::DeleteState => awaits(
            Act::Confirm(
                yes_no(
                    pick(
                        lang,
                        "delete this session and all of its history?"@,
                        "确认删除该会话及其全部历史？"@,
                    ),
                ),
            ),
            Wait::DeleteAnswer(state.session_id@, state.session_id@ == session),
        ),
        Wait::Deleted(active) => noted_then_fallback(
            dim(pick(lang, "session deleted"@, "会话已删除"@)),
            active,
        ),
        Wait::WorkspaceState => noted(
            dim_note(workspace_note(lang, opt_string(state.workspace))),
        ),
        Wait::Unbound => noted(dim_note(pick(lang, "workspace unbound"@, "已解绑工作目录"@))),
        Wait::Bound(path) => noted(
            dim_note(labelled(pick(lang, "workspace bound"@, "已绑定工作目录"@), path)),
        ),
        Wait::PersonaReload => asks(
            Request::SessionState(Target::Id(session)),
            Wait::Active(Refresh::Persona),
        ),
        Wait::ConfigReload => asks(
            Request::SessionState(Target::Id(session)),
            Wait::Active(Refresh::Config),
        ),
        Wait::VariantReload => asks(
            Request::SessionState(Target::Id(session)),
            Wait::Active(Refresh::Variant),
        ),
        Wait::Active(why) => refreshed(why, false),
        Wait::Default(why) => refreshed(why, state.session_id@ != session),
        Wait::Undone => undone(lang, data),
        Wait::Popped => noted(popped_note(lang, data)),
        Wait::Compacted => if has_usage(data) {
            awaits(Act::DecodeUsage, Wait::CompactionUsage(flag_member(data, "usage_estimated"@)))
        } else {
            noted(dim_note(pick(lang, "nothing to compact"@, "没有可压缩的上下文"@)))
        },
        Wait::ResetDone => Next {
            wait: Wait::Input,
            acts: seq![
                Act::ClearInput,
                Act::ReloadQueue,
                Act::Note(
                    dim_note(
                        pick(lang, "cleared current conversation history"@, "已清空当前会话历史"@),
                    ),
                ),
            ],
        },
        Wait::Wiped => Next {
            wait: Wait::Input,
            acts: seq![
                Act::ClearInput,
                Act::ReloadQueue,
                Act::Note(
                    dim_note(
                        pick(
                            lang,
                            "erased all conversations, QQ contexts, memory, and generated skills for the current persona"@,
                            "已抹掉当前人格的全部会话内容、QQ 上下文、记忆和自动技能"@,
                        ),
                    ),
                ),
            ],
        },
        wait => Next { wait, acts: Seq::empty() },
    }
}

fn reports_usage(data: &Json) -> (r: bool)
    ensures
        r == has_usage(*data),
{
    match data.get("usage") {
        Some(Json::Null) => false,
        Some(_) => true,
        None => false,
    }
}

/// What follows from reading what a compaction used.
pub open spec fn compaction_next(lang: Lang, repl: RemoteRepl, usage: Result<Usage, String>) -> Next {
    match (wait_of(repl.awaiting), usage, repl.state) {
        (Wait::CompactionUsage(_), Err(message), _) => done(Act::Fail(message@)),
        (Wait::CompactionUsage(estimated), Ok(used), Some(state)) => Next {
            wait: Wait::Input,
            acts: seq![
                Act::Note(dim_note(pick(lang, "context compacted"@, "上下文已压缩"@))),
                Act::PrintTokens(
                    meter_of_turn(
                        tokens_of(Some(used)),
                        state.context_tokens,
                        state.context_window,
                        total_of(state),
                    ),
                    estimated,
                ),
            ],
        },
        (wait, _, _) => Next { wait, acts: Seq::empty() },
    }
}

/// The prompt with the figures behind a compaction, wherever what it used could be
/// read.
pub open spec fn compaction_counted(repl: RemoteRepl, usage: Result<Usage, String>) -> RemoteRepl {
    match (wait_of(repl.awaiting), usage, repl.state) {
        (Wait::CompactionUsage(_), Ok(_), Some(state)) => RemoteRepl {
            footer: counted_footer(repl.footer, state),
            cumulative: total_of(state),
            ..repl
        },
        _ => repl,
    }
}

/// The answers about which session to be in, and about its jobs.
pub open spec fn about_sessions(wait: Wait) -> bool {
    ||| wait is StoppedJobs
    ||| wait is Created
    ||| wait is SwitchNumber
    ||| wait is DeleteNumber
    ||| wait is SwitchState
    ||| wait is Listed
    ||| wait is ChooserDelete
    ||| wait is FallbackList
    ||| wait is Archived
    ||| wait is DeleteState
    ||| wait is Deleted
}

/// The chooser behind an answer: a deletion that went through moves it on.
pub open spec fn chooser_after(repl: RemoteRepl) -> SessionChooser {
    match wait_of(repl.awaiting) {
        Wait::ChooserDelete(id, index) => SessionChooser {
            cursor: Some(index),
            lost_active: repl.chooser.lost_active || id == repl.session_id@,
        },
        _ => repl.chooser,
    }
}

impl RemoteRepl {
    fn absorb_counts(&mut self, state: &SessionState)
        ensures
            *final(self) == (RemoteRepl {
                footer: counted_footer(old(self).footer, *state),
                cumulative: total_of(*state),
                ..*old(self)
            }),
    {
        self.cumulative = state_cumulative(state);
        self.footer.update_session_tokens(state.context_tokens);
        self.footer.update_context_window(state.context_window);
        self.footer.update_cumulative_tokens(self.cumulative);
    }

    fn forget_spending(&mut self, state: &SessionState)
        ensures
            *final(self) == (RemoteRepl {
                footer: fresh_footer(old(self).footer, *state),
                cumulative: TurnTokens { total: 0, prompt: 0, cache_read: 0 },
                ..*old(self)
            }),
    {
        self.cumulative = TurnTokens::none();
        self.footer.reset_token_usage(state.context_tokens, state.context_window);
    }

    fn noting_dim(&mut self, text: &str) -> (r: Vec<ReplAction>)
        ensures
            moves(*old(self), *final(self), r@, noted(dim_note(text@))),
    {
        self.noting(dim_note_text(text))
    }

    fn noting_then_fallback(&mut self, note: String, lost: bool) -> (r: Vec<ReplAction>)
        ensures
            moves(*old(self), *final(self), r@, noted_then_fallback(note@, lost)),
    {
        if lost {
            self.awaiting = Awaiting::FallbackList;
            two(ReplAction::Note(note), ReplAction::Ask(ReplRequest::ListSessions))
        } else {
            self.noting(note)
        }
    }

    fn created(&mut self, lang: Lang, data: &Json) -> (r: Vec<ReplAction>)
        ensures
            moves(
                *old(self),
                *final(self),
                r@,
                match created_id(*data) {
                    Some(id) => asks(Request::SessionState(Target::Id(id)), Wait::SwitchState),
                    None => noted(
                        red_note(pick(lang, "created session has no id"@, "新会话缺少 ID"@)),
                    ),
                },
            ),
    {
        let id = match data.get("session") {
            Some(session) => session.opt_text("session_id"),
            None => None,
        };
        match id {
            Some(id) => self.asking(
                ReplRequest::SessionState { target: SessionRef::Id { id } },
                Awaiting::SwitchState,
            ),
            None => self.noting(
                red_note_text(t(lang, "created session has no id", "新会话缺少 ID")),
            ),
        }
    }

    fn number_listed(&mut self, lang: Lang, data: &Json, n: usize, awaiting: Awaiting) -> (r: Vec<
        ReplAction,
    >)
        ensures
            moves(*old(self), *final(self), r@, numbered(lang, *data, n, wait_of(awaiting))),
    {
        let entries = session_list_entries(data);
        assert(entry_texts(entries@).len() == entries@.len());
        if n >= 1 && n <= entries.len() {
            assert(entry_texts(entries@)[n - 1].id == entries@[n - 1].id@);
            let id = entries[n - 1].id.clone();
            self.asking(ReplRequest::SessionState { target: SessionRef::Id { id } }, awaiting)
        } else {
            let note = no_such_number_text(lang, n);
            self.noting_dim(note.as_str())
        }
    }

    fn listed(&mut self, lang: Lang, data: &Json) -> (r: Vec<ReplAction>)
        ensures
            moves(
                *old(self),
                *final(self),
                r@,
                if listed_sessions(*data).len() == 0 {
                    noted_then_fallback(
                        dim_note(pick(lang, "no sessions"@, "没有会话"@)),
                        old(self).chooser.lost_active,
                    )
                } else {
                    awaits(Act::Choose(listed_sessions(*data)), Wait::Choice)
                },
            ),
    {
        let entries = session_list_entries(data);
        assert(entry_texts(entries@).len() == entries@.len());
        if entries.is_empty() {
            let note = dim_note_text(t(lang, "no sessions", "没有会话"));
            return self.noting_then_fallback(note, self.chooser.lost_active);
        }
        self.awaiting_act(ReplAction::Choose(entries), Awaiting::Choice)
    }

    fn fallback_listed(&mut self, data: &Json) -> (r: Vec<ReplAction>)
        ensures
            moves(
                *old(self),
                *final(self),
                r@,
                match fallback_id(listed_sessions(*data)) {
                    Some(id) => asks(Request::SessionState(Target::Id(id)), Wait::SwitchState),
                    None => idle(),
                },
            ),
    {
        let entries = session_list_entries(data);
        match fallback_entry(&entries) {
            Some(id) => self.asking(
                ReplRequest::SessionState { target: SessionRef::Id { id } },
                Awaiting::SwitchState,
            ),
            None => self.idling(),
        }
    }

    fn refreshing(&mut self, why: Refresh, changed: bool) -> (r: Vec<ReplAction>)
        ensures
            moves(*old(self), *final(self), r@, refreshed(why, changed)),
    {
        match why {
            Refresh::Persona | Refresh::Models => self.awaiting_act(
                ReplAction::Rebuild,
                Awaiting::Rebuilt(why),
            ),
            Refresh::Config | Refresh::Variant => if changed {
                self.awaiting = Awaiting::Rebuilt(why);
                two(ReplAction::Switch, ReplAction::Rebuild)
            } else {
                self.awaiting_act(ReplAction::Rebuild, Awaiting::Rebuilt(why))
            },
            Refresh::Cancelled => self.idling(),
            Refresh::Failed => if changed {
                self.simple_act(ReplAction::Switch)
            } else {
                self.idling()
            },
        }
    }

    fn undo_done(&mut self, lang: Lang, data: &Json) -> (r: Vec<ReplAction>)
        ensures
            moves(*old(self), *final(self), r@, undone(lang, *data)),
    {
        let removed = count_or(data, "removed");
        let text = counted_label_text(t(lang, "undone messages", "已撤销消息数"), removed);
        let note = ReplAction::Note(plain_note_text(text.as_str()));
        match data.opt_text("prompt") {
            Some(prompt) => {
                self.awaiting = Awaiting::Input;
                two(note, ReplAction::Prefill(prompt))
            },
            None => self.simple_act(note),
        }
    }

    fn popped(&mut self, lang: Lang, data: &Json) -> (r: Vec<ReplAction>)
        ensures
            moves(*old(self), *final(self), r@, noted(popped_note(lang, *data))),
    {
        match run_pop_via_daemon(data) {
            Some(outcome) => self.noting(repl_pop_outcome_text(lang, outcome)),
            None => self.noting(repl_nothing_to_pop_text(lang)),
        }
    }

    fn compacted(&mut self, lang: Lang, data: &Json) -> (r: Vec<ReplAction>)
        requires
            old(self).awaiting is Compacted,
        ensures
            forall|state: SessionState|
                moves(
                    *old(self),
                    *final(self),
                    r@,
                    #[trigger] answer_next(lang, *old(self), state, *data),
                ),
    {
        if reports_usage(data) {
            let estimated = data.flag("usage_estimated");
            self.awaiting_act(ReplAction::DecodeUsage, Awaiting::CompactionUsage { estimated })
        } else {
            self.noting_dim(t(lang, "nothing to compact", "没有可压缩的上下文"))
        }
    }

    fn cleared(&mut self, note: &str) -> (r: Vec<ReplAction>)
        ensures
            moves(
                *old(self),
                *final(self),
                r@,
                Next {
                    wait: Wait::Input,
                    acts: seq![Act::ClearInput, Act::ReloadQueue, Act::Note(dim_note(note@))],
                },
            ),
    {
        self.awaiting = Awaiting::Input;
        three(
            ReplAction::ClearInput,
            ReplAction::ReloadQueue,
            ReplAction::Note(dim_note_text(note)),
        )
    }

    fn asking_state(&mut self, awaiting: Awaiting) -> (r: Vec<ReplAction>)
        ensures
            moves(
                *old(self),
                *final(self),
                r@,
                asks(
                    Request::SessionState(Target::Id(old(self).session_id@)),
                    wait_of(awaiting),
                ),
            ),
    {
        let id = self.session_id.clone();
        self.asking(ReplRequest::SessionState { target: SessionRef::Id { id } }, awaiting)
    }

    /// Answers about which session to be in.
    fn session_answer(&mut self, lang: Lang, state: &SessionState, data: &Json) -> (r: Option<
        Vec<ReplAction>,
    >)
        ensures
            r is Some <==> about_sessions(wait_of(old(self).awaiting)),
            match r {
                Some(did) => moves(
                    RemoteRepl { chooser: chooser_after(*old(self)), ..*old(self) },
                    *final(self),
                    did@,
                    answer_next(lang, *old(self), *state, *data),
                ),
                None => *final(self) == *old(self),
            },
    {
        match &self.awaiting {
            Awaiting::StoppedJobs => {
                let stopped = count_or(data, "stopped");
                let text = stopped_work_text(lang, stopped, " background task(s)", " 个后台任务");
                self.awaiting = Awaiting::Input;
                Some(two(ReplAction::DropStrip, ReplAction::Note(dim_note_text(text.as_str()))))
            },
            Awaiting::Created => Some(self.created(lang, data)),
            Awaiting::SwitchNumber(n) => {
                let n: usize = *n;
                Some(self.number_listed(lang, data, n, Awaiting::SwitchState))
            },
            Awaiting::DeleteNumber(n) => {
                let n: usize = *n;
                Some(self.number_listed(lang, data, n, Awaiting::DeleteState))
            },
            Awaiting::SwitchState => Some(self.simple_act(ReplAction::Switch)),
            Awaiting::Listed => Some(self.listed(lang, data)),
            Awaiting::ChooserDelete { session_id, index } => {
                let index: usize = *index;
                let own = same(session_id.as_str(), self.session_id.as_str());
                self.chooser = SessionChooser {
                    cursor: Some(index),
                    lost_active: self.chooser.lost_active || own,
                };
                Some(self.asking(ReplRequest::ListSessions, Awaiting::Listed))
            },
            Awaiting::FallbackList => Some(self.fallback_listed(data)),
            Awaiting::Archived => {
                let note = dim_text(t(lang, "session archived", "当前会话已归档"));
                Some(self.noting_then_fallback(note, true))
            },
            Awaiting::DeleteState => {
                let prompt = confirm_text(
                    t(
                        lang,
                        "delete this session and all of its history?",
                        "确认删除该会话及其全部历史？",
                    ),
                );
                let active = same(state.session_id.as_str(), self.session_id.as_str());
                let session_id = state.session_id.clone();
                Some(
                    self.awaiting_act(
                        ReplAction::Confirm(prompt),
                        Awaiting::DeleteAnswer { session_id, active },
                    ),
                )
            },
            Awaiting::Deleted { active } => {
                let active = *active;
                let note = dim_text(t(lang, "session deleted", "会话已删除"));
                Some(self.noting_then_fallback(note, active))
            },
            _ => None,
        }
    }

    /// The answer of the daemon to what was asked. An answer that nothing waits
    /// for starts nothing.
    pub fn replied(&mut self, lang: Lang, state: SessionState, data: &Json) -> (r: Vec<ReplAction>)
        ensures
            moves(
                RemoteRepl {
                    chooser: chooser_after(*old(self)),
                    ..informed(*old(self), state, *data)
                },
                *final(self),
                r@,
                answer_next(lang, *old(self), state, *data),
            ),
    {
        if let Some(did) = self.session_answer(lang, &state, data) {
            self.state = Some(state);
            return did;
        }
        let did = match &self.awaiting {
            Awaiting::Renamed(name) => {
                let note = renamed_text(lang, name.as_str());
                self.noting_dim(note.as_str())
            },
            Awaiting::WorkspaceState => {
                let note = match &state.workspace {
                    Some(path) => workspace_note_text(lang, Some(path.as_str())),
                    None => workspace_note_text(lang, None),
                };
                self.noting_dim(note.as_str())
            },
            Awaiting::Unbound => self.noting_dim(t(lang, "workspace unbound", "已解绑工作目录")),
            Awaiting::Bound(path) => {
                let note = workspace_bound_text(lang, path.as_str());
                self.noting_dim(note.as_str())
            },
            Awaiting::PersonaReload => self.asking_state(Awaiting::Active(Refresh::Persona)),
            Awaiting::ConfigReload => self.asking_state(Awaiting::Active(Refresh::Config)),
            Awaiting::VariantReload => self.asking_state(Awaiting::Active(Refresh::Variant)),
            Awaiting::Active(why) => {
                let why = *why;
                if why == Refresh::Cancelled {
                    self.absorb_counts(&state);
                }
                self.refreshing(why, false)
            },
            Awaiting::Default(why) => {
                let why = *why;
                if why == Refresh::Cancelled {
                    self.absorb_counts(&state);
                }
                let changed = !same(state.session_id.as_str(), self.session_id.as_str());
                self.refreshing(why, changed)
            },
            Awaiting::Undone => {
                self.absorb_counts(&state);
                self.undo_done(lang, data)
            },
            Awaiting::Popped => {
                self.absorb_counts(&state);
                self.popped(lang, data)
            },
            Awaiting::Compacted => {
                let did = self.compacted(lang, data);
                assert(moves(
                    *old(self),
                    *self,
                    did@,
                    answer_next(lang, *old(self), state, *data),
                ));
                if !reports_usage(data) {
                    self.absorb_counts(&state);
                }
                did
            },
            Awaiting::ResetDone => {
                self.forget_spending(&state);
                self.cleared(t(lang, "cleared current conversation history", "已清空当前会话历史"))
            },
            Awaiting::Wiped => {
                self.forget_spending(&state);
                self.cleared(print_wipe_message(lang))
            },
            _ => nothing(),
        };
        self.state = Some(state);
        did
    }
}

/// What follows where the daemon refused or could not be reached.
pub open spec fn failure_next(lang: Lang, repl: RemoteRepl, message: Seq<char>) -> Next {
    let note = red_note(error_of(lang, message));
    match wait_of(repl.awaiting) {
        Wait::StoppedJobs => Next {
            wait: Wait::Input,
            acts: seq![Act::Note(note), Act::DropStrip, Act::Note(stopped_tasks(lang, 0))],
        },
        Wait::ChooserDelete(_, _) => noted_then_fallback(note, repl.chooser.lost_active),
        Wait::PersonaReload => Next {
            wait: Wait::Active(Refresh::Persona),
            acts: seq![
                Act::Note(note),
                Act::Ask(Request::SessionState(Target::Id(repl.session_id@))),
            ],
        },
        Wait::Active(why) => asks(Request::Status, Wait::Default(why)),
        Wait::Default(why) => match why {
            Refresh::Cancelled | Refresh::Failed => idle(),
            _ => done(Act::Fail(message)),
        },
        _ => noted(note),
    }
}

/// What follows from the menu of the sessions.
pub open spec fn choice_next(repl: RemoteRepl, pick: SessionPick) -> Next {
    match pick {
        SessionPick::Cancelled => if repl.chooser.lost_active {
            asks(Request::ListSessions, Wait::FallbackList)
        } else {
            idle()
        },
        SessionPick::Switch(target) => asks(
            Request::SessionState(target_of(target)),
            Wait::SwitchState,
        ),
        SessionPick::Delete { session_id, index } => asks(
            Request::DeleteSession(session_id@),
            Wait::ChooserDelete(session_id@, index),
        ),
    }
}

impl RemoteRepl {
    /// The daemon refused what was asked, or could not be reached.
    pub fn failed(&mut self, lang: Lang, message: &str) -> (r: Vec<ReplAction>)
        ensures
            moves(*old(self), *final(self), r@, failure_next(lang, *old(self), message@)),
    {
        let text = error_text(lang, message);
        let note = red_note_text(text.as_str());
        match &self.awaiting {
            Awaiting::StoppedJobs => {
                let stopped = stopped_work_text(lang, 0, " background task(s)", " 个后台任务");
                self.awaiting = Awaiting::Input;
                three(
                    ReplAction::Note(note),
                    ReplAction::DropStrip,
                    ReplAction::Note(dim_note_text(stopped.as_str())),
                )
            },
            Awaiting::ChooserDelete { .. } => self.noting_then_fallback(
                note,
                self.chooser.lost_active,
            ),
            Awaiting::PersonaReload => {
                let id = self.session_id.clone();
                self.awaiting = Awaiting::Active(Refresh::Persona);
                two(
                    ReplAction::Note(note),
                    ReplAction::Ask(ReplRequest::SessionState { target: SessionRef::Id { id } }),
                )
            },
            Awaiting::Active(why) => {
                let why = *why;
                self.asking(ReplRequest::Status, Awaiting::Default(why))
            },
            Awaiting::Default(why) => {
                let why = *why;
                if why == Refresh::Cancelled || why == Refresh::Failed {
                    self.idling()
                } else {
                    self.simple_act(ReplAction::Fail(message.to_owned()))
                }
            },
            _ => self.noting(note),
        }
    }

    /// Ctrl+C asked for the jobs of the session to be stopped.
    pub fn stop_jobs(&mut self) -> (r: Vec<ReplAction>)
        ensures
            moves(
                *old(self),
                *final(self),
                r@,
                asks(Request::StopJobs(old(self).session_id@), Wait::StoppedJobs),
            ),
    {
        let session = self.session_id.clone();
        self.asking(ReplRequest::StopJobs { session }, Awaiting::StoppedJobs)
    }

    /// The menu of the sessions was closed.
    pub fn chosen(&mut self, pick: SessionPick) -> (r: Vec<ReplAction>)
        ensures
            moves(
                *old(self),
                *final(self),
                r@,
                choice_next(*old(self), pick),
            ),
    {
        match pick {
            SessionPick::Cancelled => if self.chooser.lost_active {
                self.asking(ReplRequest::ListSessions, Awaiting::FallbackList)
            } else {
                self.idling()
            },
            SessionPick::Switch(target) => self.asking(
                ReplRequest::SessionState { target },
                Awaiting::SwitchState,
            ),
            SessionPick::Delete { session_id, index } => {
                let session = session_id.clone();
                self.asking(
                    ReplRequest::DeleteSession { session },
                    Awaiting::ChooserDelete { session_id, index },
                )
            },
        }
    }

    /// The user typed an answer to a question: anything but a yes calls it off.
    pub fn answered(&mut self, lang: Lang, line: &str) -> (r: Vec<ReplAction>)
        ensures
            moves(
                *old(self),
                *final(self),
                r@,
                match wait_of(old(self).awaiting) {
                    Wait::DeleteAnswer(id, active) => if is_yes(line@) {
                        asks(Request::DeleteSession(id), Wait::Deleted(active))
                    } else {
                        noted(dim_note(pick(lang, "cancelled"@, "已取消"@)))
                    },
                    Wait::WipeAnswer => if is_yes(line@) {
                        asks(Request::Wipe, Wait::Wiped)
                    } else {
                        noted(dim_note(pick(lang, "cancelled"@, "已取消"@)))
                    },
                    wait => Next { wait, acts: Seq::empty() },
                },
            ),
    {
        let yes = confirms(line);
        match &self.awaiting {
            Awaiting::DeleteAnswer { session_id, active } => if yes {
                let session = session_id.clone();
                let active = *active;
                self.asking(ReplRequest::DeleteSession { session }, Awaiting::Deleted { active })
            } else {
                self.noting_dim(t(lang, "cancelled", "已取消"))
            },
            Awaiting::WipeAnswer => if yes {
                self.asking(ReplRequest::Wipe, Awaiting::Wiped)
            } else {
                self.noting_dim(t(lang, "cancelled", "已取消"))
            },
            _ => nothing(),
        }
    }

    /// The path for the workspace, in full, or why it is none.
    pub fn path_checked(&mut self, lang: Lang, path: Result<String, String>) -> (r: Vec<ReplAction>)
        ensures
            moves(
                *old(self),
                *final(self),
                r@,
                match wait_of(old(self).awaiting) {
                    Wait::CheckedPath(arg) => match path {
                        Ok(path) => asks(
                            Request::BindWorkspace(old(self).session_id@, Some(path@)),
                            Wait::Bound(path@),
                        ),
                        Err(error) => noted(red_note(invalid_path(lang, arg, error@))),
                    },
                    wait => Next { wait, acts: Seq::empty() },
                },
            ),
    {
        match &self.awaiting {
            Awaiting::CheckedPath(arg) => match path {
                Ok(path) => {
                    let session = self.session_id.clone();
                    let bound = path.clone();
                    self.asking(
                        ReplRequest::BindWorkspace { session, path: Some(path) },
                        Awaiting::Bound(bound),
                    )
                },
                Err(error) => {
                    let note = invalid_path_text(lang, arg.as_str(), error.as_str());
                    self.noting(red_note_text(note.as_str()))
                },
            },
            _ => nothing(),
        }
    }

    /// What a compaction used was read, or could not be: then the prompt ends with
    /// that error, and no figures are taken over.
    pub fn compaction_read(&mut self, lang: Lang, usage: Result<Usage, String>) -> (r: Vec<
        ReplAction,
    >)
        ensures
            moves(
                compaction_counted(*old(self), usage),
                *final(self),
                r@,
                compaction_next(lang, *old(self), usage),
            ),
    {
        let estimated = match &self.awaiting {
            Awaiting::CompactionUsage { estimated } => *estimated,
            _ => {
                return nothing();
            },
        };
        let usage = match usage {
            Ok(usage) => usage,
            Err(message) => {
                return self.simple_act(ReplAction::Fail(message));
            },
        };
        let (tokens, window, total) = match &self.state {
            Some(state) => (state.context_tokens, state.context_window, state_cumulative(state)),
            None => {
                return nothing();
            },
        };
        self.cumulative = total;
        self.footer.update_session_tokens(tokens);
        self.footer.update_context_window(window);
        self.footer.update_cumulative_tokens(total);
        let spent = TurnTokens::from_usage(Some(&usage));
        let meter = turn_meter(spent, tokens, window, total);
        self.awaiting = Awaiting::Input;
        two(
            ReplAction::Note(dim_note_text(t(lang, "context compacted", "上下文已压缩"))),
            ReplAction::PrintTokens { meter, estimated },
        )
    }

    /// The figures for the overview were read.
    pub fn usage_read(&mut self, lang: Lang, snapshot: &UsageSnapshot) -> (r: Vec<ReplAction>)
        ensures
            moves(
                *old(self),
                *final(self),
                r@,
                noted(
                    joined(
                        overview_lines(
                            lang,
                            *snapshot,
                            Some(
                                (
                                    old(self).footer.token_usage.session_tokens,
                                    old(self).footer.token_usage.context_window,
                                ),
                            ),
                        ),
                        "\n"@,
                    ) + "\n\n"@,
                ),
            ),
    {
        let usage = self.footer.token_usage;
        let mut text = usage_overview_text(
            lang,
            snapshot,
            Some((usage.session_tokens, usage.context_window)),
        );
        text.append("\n\n");
        self.noting(text)
    }

    /// The choice of a persona ended; a new one makes the daemon read its
    /// configuration again.
    pub fn persona_picked(&mut self, outcome: Result<bool, String>) -> (r: Vec<ReplAction>)
        ensures
            moves(
                *old(self),
                *final(self),
                r@,
                match outcome {
                    Ok(changed) => if changed {
                        asks(Request::ReloadConfig, Wait::PersonaReload)
                    } else {
                        idle()
                    },
                    Err(error) => noted(red_note(error@)),
                },
            ),
    {
        match outcome {
            Ok(changed) => if changed {
                self.asking(ReplRequest::ReloadConfig, Awaiting::PersonaReload)
            } else {
                self.idling()
            },
            Err(error) => self.noting(red_note_text(error.as_str())),
        }
    }

    /// The choice of the session's models ended.
    pub fn models_picked(&mut self, outcome: Result<(), String>) -> (r: Vec<ReplAction>)
        ensures
            moves(
                *old(self),
                *final(self),
                r@,
                match outcome {
                    Ok(()) => asks(
                        Request::SessionState(Target::Id(old(self).session_id@)),
                        Wait::Active(Refresh::Models),
                    ),
                    Err(error) => noted(red_note(error@)),
                },
            ),
    {
        match outcome {
            Ok(()) => self.asking_state(Awaiting::Active(Refresh::Models)),
            Err(error) => self.noting(red_note_text(error.as_str())),
        }
    }

    /// The screen of the configuration was closed.
    pub fn config_closed(&mut self) -> (r: Vec<ReplAction>)
        ensures
            moves(
                *old(self),
                *final(self),
                r@,
                asks(Request::ReloadConfig, Wait::ConfigReload),
            ),
    {
        self.asking(ReplRequest::ReloadConfig, Awaiting::ConfigReload)
    }
}

/// How the choice of a thinking variant ended.
#[derive(Debug)]
pub enum VariantOutcome {
    /// What there is to choose from is not known yet.
    Loading,
    Updated,
    Cancelled,
    Rejected(String),
}

/// How the choice of the turns to pop ended.
#[derive(Debug)]
pub enum TurnsEnd {
    /// There is nothing to choose from.
    Nothing,
    Cancelled,
    Chosen(Vec<String>),
}

impl RemoteRepl {
    pub fn variant_picked(&mut self, lang: Lang, end: VariantOutcome) -> (r: Vec<ReplAction>)
        ensures
            moves(
                *old(self),
                *final(self),
                r@,
                match end {
                    VariantOutcome::Loading => noted(
                        pick(
                            lang,
                            "model metadata is still loading; try /variant again shortly"@,
                            "模型元数据仍在加载，请稍后重试 /variant"@,
                        ) + "\n"@,
                    ),
                    VariantOutcome::Updated => asks(Request::ReloadConfig, Wait::VariantReload),
                    VariantOutcome::Cancelled => idle(),
                    VariantOutcome::Rejected(message) => noted(red(message@)),
                },
            ),
    {
        match end {
            VariantOutcome::Loading => self.noting(
                plain_note_text(
                    t(
                        lang,
                        "model metadata is still loading; try /variant again shortly",
                        "模型元数据仍在加载，请稍后重试 /variant",
                    ),
                ),
            ),
            VariantOutcome::Updated => self.asking(ReplRequest::ReloadConfig, Awaiting::VariantReload),
            VariantOutcome::Cancelled => self.idling(),
            VariantOutcome::Rejected(message) => self.noting(red_text(message.as_str())),
        }
    }

    pub fn turns_picked(&mut self, lang: Lang, end: TurnsEnd) -> (r: Vec<ReplAction>)
        ensures
            moves(
                *old(self),
                *final(self),
                r@,
                match end {
                    TurnsEnd::Nothing => noted(
                        dim_note(
                            pick(
                                lang,
                                "no conversation turns are available to pop"@,
                                "没有可弹出的上下文轮次"@,
                            ),
                        ),
                    ),
                    TurnsEnd::Cancelled => idle(),
                    TurnsEnd::Chosen(ids) => asks(
                        Request::PopTurns(old(self).session_id@, texts(ids@)),
                        Wait::Popped,
                    ),
                },
            ),
    {
        match end {
            TurnsEnd::Nothing => self.noting(repl_nothing_to_pop_text(lang)),
            TurnsEnd::Cancelled => self.idling(),
            TurnsEnd::Chosen(turn_ids) => {
                let session = self.session_id.clone();
                self.asking(ReplRequest::PopTurns { session, turn_ids }, Awaiting::Popped)
            },
        }
    }

    /// The footer is built anew for the state that came last, and the user told
    /// why.
    pub fn rebuilt(
        &mut self,
        lang: Lang,
        config: &ModelConfig,
        variant: Option<&str>,
    ) -> (r: Vec<ReplAction>)
        ensures
            match (wait_of(old(self).awaiting), old(self).state) {
                (Wait::Rebuilt(why), Some(state)) => {
                    &&& is_session_footer(
                        lang,
                        *config,
                        state,
                        opt_text(variant),
                        final(self).footer,
                    )
                    &&& moves(
                        RemoteRepl {
                            footer: final(self).footer,
                            cumulative: total_of(state),
                            ..*old(self)
                        },
                        *final(self),
                        r@,
                        Next {
                            wait: Wait::Input,
                            acts: seq![Act::ShowFooter, Act::Note(rebuilt_note(lang, why))],
                        },
                    )
                },
                (wait, _) => moves(
                    *old(self),
                    *final(self),
                    r@,
                    Next { wait, acts: Seq::empty() },
                ),
            },
    {
        let why = match &self.awaiting {
            Awaiting::Rebuilt(why) => *why,
            _ => {
                return nothing();
            },
        };
        match &self.state {
            Some(state) => {
                let footer = session_footer(lang, config, state, variant);
                self.cumulative = state_cumulative(state);
                self.footer = footer;
                self.awaiting = Awaiting::Input;
                two(ReplAction::ShowFooter, ReplAction::Note(rebuilt_note_text(lang, why)))
            },
            None => nothing(),
        }
    }
}

pub open spec fn rebuilt_note(lang: Lang, why: Refresh) -> Seq<char> {
    match why {
        Refresh::Models => dim_note(
            pick(
                lang,
                "session model updated; takes effect from the next turn"@,
                "会话模型已更新，下一轮生效"@,
            ),
        ),
        Refresh::Variant => pick(lang, "thinking variants updated"@, "已更新思考档位"@) + "\n"@,
        _ => pick(lang, "configuration reloaded"@, "配置已重新加载"@) + "\n"@,
    }
}

fn rebuilt_note_text(lang: Lang, why: Refresh) -> (r: String)
    ensures
        r@ == rebuilt_note(lang, why),
{
    match why {
        Refresh::Models => dim_note_text(
            t(
                lang,
                "session model updated; takes effect from the next turn",
                "会话模型已更新，下一轮生效",
            ),
        ),
        Refresh::Variant => plain_note_text(t(lang, "thinking variants updated", "已更新思考档位")),
        _ => plain_note_text(t(lang, "configuration reloaded", "配置已重新加载")),
    }
}

/// How a turn of the daemon ended.
#[derive(Debug)]
pub enum TurnEnd {
    Finished {
        result: ChatResult,
        context_tokens: u64,
        context_window: Option<usize>,
        cumulative: TurnTokens,
    },
    /// The daemon is gone.
    CoreStopped,
    Cancelled,
    Failed(String),
}

pub open spec fn core_stopped(lang: Lang) -> Seq<char> {
    pick(
        lang,
        "the Laozhou Web core stopped; start the REPL again to use direct mode"@,
        "Laozhou Web 核心已停止；请重新启动 REPL 以使用直连模式"@,
    )
}

impl RemoteRepl {
    /// A turn ended: its figures go to the footer; behind one that was cancelled
    /// or failed the state of the session is asked for.
    pub fn turn_ended(&mut self, lang: Lang, end: TurnEnd) -> (r: Vec<ReplAction>)
        ensures
            match end {
                TurnEnd::Finished { result, context_tokens, context_window, cumulative } => moves(
                    RemoteRepl {
                        cumulative,
                        footer: ReplFooterStatus {
                            token_usage: match result.usage {
                                Some(u) => meter_of_turn(
                                    TurnTokens {
                                        total: u.total_tokens,
                                        prompt: u.prompt_tokens,
                                        cache_read: u.cache_read_tokens,
                                    },
                                    context_tokens,
                                    context_window,
                                    cumulative,
                                ),
                                None => old(self).footer.token_usage,
                            },
                            ..old(self).footer
                        },
                        ..*old(self)
                    },
                    *final(self),
                    r@,
                    Next { wait: Wait::Input, acts: seq![Act::FetchJobs, Act::RefreshFooter] },
                ),
                TurnEnd::CoreStopped => moves(
                    *old(self),
                    *final(self),
                    r@,
                    done(Act::Fail(core_stopped(lang))),
                ),
                TurnEnd::Cancelled => moves(
                    *old(self),
                    *final(self),
                    r@,
                    Next {
                        wait: Wait::Active(Refresh::Cancelled),
                        acts: seq![
                            Act::Frame(dim_note(pick(lang, "cancelled"@, "已取消"@)) + "\n"@),
                            Act::Ask(Request::SessionState(Target::Id(old(self).session_id@))),
                        ],
                    },
                ),
                TurnEnd::Failed(message) => moves(
                    *old(self),
                    *final(self),
                    r@,
                    Next {
                        wait: Wait::Active(Refresh::Failed),
                        acts: seq![
                            Act::Frame(red_note(error_of(lang, message@)) + "\n"@),
                            Act::Ask(Request::SessionState(Target::Id(old(self).session_id@))),
                        ],
                    },
                ),
            },
    {
        match end {
            TurnEnd::Finished { result, context_tokens, context_window, cumulative } => {
                self.cumulative = cumulative;
                self.footer.update_token_usage(
                    &result,
                    context_tokens,
                    context_window,
                    cumulative,
                );
                self.awaiting = Awaiting::Input;
                two(ReplAction::FetchJobs, ReplAction::RefreshFooter)
            },
            TurnEnd::CoreStopped => self.simple_act(
                ReplAction::Fail(
                    t(
                        lang,
                        "the Laozhou Web core stopped; start the REPL again to use direct mode",
                        "Laozhou Web 核心已停止；请重新启动 REPL 以使用直连模式",
                    ).to_owned(),
                ),
            ),
            TurnEnd::Cancelled => {
                let mut frame = dim_note_text(t(lang, "cancelled", "已取消"));
                frame.append("\n");
                self.framing_then_state(frame, Refresh::Cancelled)
            },
            TurnEnd::Failed(message) => {
                let text = error_text(lang, message.as_str());
                let mut frame = red_note_text(text.as_str());
                frame.append("\n");
                self.framing_then_state(frame, Refresh::Failed)
            },
        }
    }

    fn framing_then_state(&mut self, frame: String, why: Refresh) -> (r: Vec<ReplAction>)
        ensures
            moves(
                *old(self),
                *final(self),
                r@,
                Next {
                    wait: Wait::Active(why),
                    acts: seq![
                        Act::Frame(frame@),
                        Act::Ask(Request::SessionState(Target::Id(old(self).session_id@))),
                    ],
                },
            ),
    {
        let id = self.session_id.clone();
        self.awaiting = Awaiting::Active(why);
        two(
            ReplAction::Frame(frame),
            ReplAction::Ask(ReplRequest::SessionState { target: SessionRef::Id { id } }),
        )
    }

    /// Goes over to the session whose state came last.
    pub fn switch(
        &mut self,
        lang: Lang,
        config: &ModelConfig,
        variant: Option<&str>,
        history: Vec<String>,
        live: &mut LiveReplTail,
        size: (u16, u16),
    ) -> (r: Result<Vec<TerminalOp>, String>)
        requires
            old(self).state is Some,
        ensures
            *final(self) == (RemoteRepl {
                session_id: final(self).session_id,
                footer: final(self).footer,
                cumulative: final(self).cumulative,
                ..*old(self)
            }),
            old(self).state matches Some(state) && match r {
                Ok(steps) => {
                    &&& state.session_id@.len() > 0
                    &&& final(self).session_id@ == state.session_id@
                    &&& final(self).cumulative == total_of(state)
                    &&& is_session_footer(
                        lang,
                        *config,
                        state,
                        opt_text(variant),
                        final(self).footer,
                    )
                    &&& final(live).editor@ == (EditorState {
                        history: texts(history@),
                        history_index: history@.len() as int,
                        clean: None,
                        input: Seq::empty(),
                        cursor: 0,
                        ..old(live).editor@
                    })
                    &&& framed(
                        LiveReplTail { editor: final(live).editor, ..*old(live) },
                        *final(live),
                        vstd::utf8::encode_utf8(
                            dim_note(crate::notes::switched(lang, state.session_name@)) + "\n"@,
                        ),
                        size,
                        steps@,
                    )
                },
                Err(note) => {
                    &&& state.session_id@.len() == 0
                    &&& note@ == pick(lang, "session state has no id"@, "会话状态缺少 ID"@)
                    &&& *final(live) == *old(live)
                    &&& final(self).session_id@ == old(self).session_id@
                    &&& final(self).footer == old(self).footer
                    &&& final(self).cumulative == old(self).cumulative
                },
            },
    {
        match &self.state {
            Some(state) => apply_repl_session_switch(
                lang,
                state,
                config,
                variant,
                history,
                live,
                &mut self.session_id,
                &mut self.footer,
                &mut self.cumulative,
                size,
            ),
            None => Ok(Vec::new()),
        }
    }
}

/// What is said on leaving about background commands that were stopped, if any
/// were.
pub fn farewell_note(lang: Lang, data: &Json) -> (r: Option<String>)
    ensures
        opt_string(r) == {
            let stopped = count_or_zero(*data, "stopped"@);
            if stopped > 0 {
                Some(dim(stopped_work(lang, stopped, " background command(s)"@, " 个后台命令"@)))
            } else {
                None
            }
        },
{
    let stopped = count_or(data, "stopped");
    if stopped > 0 {
        let text = stopped_work_text(lang, stopped, " background command(s)", " 个后台命令");
        Some(dim_text(text.as_str()))
    } else {
        None
    }
}

/// The step `act` is the one whose outcome `wait` is.
pub open spec fn asked_for(wait: Wait, act: Act) -> bool {
    match wait {
        Wait::Input => true,
        Wait::StoppedJobs => act matches Act::Ask(Request::StopJobs(_)),
        Wait::Created => act matches Act::Ask(Request::CreateSession(_)),
        Wait::SwitchNumber(_) => act == Act::Ask(Request::ListSessions),
        Wait::DeleteNumber(_) => act == Act::Ask(Request::ListSessions),
        Wait::Listed => act == Act::Ask(Request::ListSessions),
        Wait::FallbackList => act == Act::Ask(Request::ListSessions),
        Wait::SwitchState => act matches Act::Ask(Request::SessionState(_)),
        Wait::DeleteState => act matches Act::Ask(Request::SessionState(_)),
        Wait::WorkspaceState => act matches Act::Ask(Request::SessionState(_)),
        Wait::Active(_) => act matches Act::Ask(Request::SessionState(_)),
        Wait::Default(_) => act == Act::Ask(Request::Status),
        Wait::Choice => act is Choose,
        Wait::ChooserDelete(id, _) => act == Act::Ask(Request::DeleteSession(id)),
        Wait::Renamed(name) => act matches Act::Ask(Request::RenameSession(_, wanted)) && wanted
            == name,
        Wait::Archived => act matches Act::Ask(Request::ArchiveSession(_)),
        Wait::DeleteAnswer(_, _) => act is Confirm,
        Wait::WipeAnswer => act is Confirm,
        Wait::Deleted(_) => act matches Act::Ask(Request::DeleteSession(_)),
        Wait::Unbound => act matches Act::Ask(Request::BindWorkspace(_, None)),
        Wait::CheckedPath(arg) => act == Act::CheckPath(arg),
        Wait::Bound(path) => act matches Act::Ask(Request::BindWorkspace(_, Some(wanted))) && wanted
            == path,
        Wait::Usage => act is ReadUsage,
        Wait::Persona => act is PickPersona,
        Wait::PersonaReload => act == Act::Ask(Request::ReloadConfig),
        Wait::ConfigReload => act == Act::Ask(Request::ReloadConfig),
        Wait::VariantReload => act == Act::Ask(Request::ReloadConfig),
        Wait::Models => act is PickModels,
        Wait::Config => act is OpenConfig,
        Wait::Variant => act is PickVariant,
        Wait::Rebuilt(_) => act is Rebuild,
        Wait::Undone => act matches Act::Ask(Request::Undo(_)),
        Wait::Turns => act is PickTurns,
        Wait::Popped => act matches Act::Ask(Request::PopTurns(_, _)),
        Wait::Compacted => act matches Act::Ask(Request::Compact(_)),
        Wait::CompactionUsage(_) => act is DecodeUsage,
        Wait::ResetDone => act matches Act::Ask(Request::Reset(_)),
        Wait::Wiped => act == Act::Ask(Request::Wipe),
        Wait::Turn => act is RunTurn,
    }
}

/// The prompt is back at its line, or the last thing that it does is what it
/// waits for.
pub open spec fn goes_on(next: Next) -> bool {
    next.wait is Input || (next.acts.len() > 0 && asked_for(next.wait, next.acts.last()))
}

/// An answer of the daemon is awaited.
pub open spec fn expects_answer(wait: Wait) -> bool {
    ||| about_sessions(wait)
    ||| wait is Renamed
    ||| wait is WorkspaceState
    ||| wait is Unbound
    ||| wait is Bound
    ||| wait is PersonaReload
    ||| wait is ConfigReload
    ||| wait is VariantReload
    ||| wait is Active
    ||| wait is Default
    ||| wait is Undone
    ||| wait is Popped
    ||| wait is Compacted
    ||| wait is ResetDone
    ||| wait is Wiped
}

/// The prompt never waits for something that it did not ask for: whatever line is
/// submitted, and whatever answer, failure or choice comes, it is back at its
/// line or asks for what it then waits for.
pub proof fn law_prompt_waits_for_what_it_asked(
    lang: Lang,
    repl: RemoteRepl,
    line: Seq<char>,
    state: SessionState,
    data: Json,
    message: Seq<char>,
    pick: SessionPick,
    usage: Result<Usage, String>,
)
    ensures
        goes_on(line_starts(lang, repl.session_id@, line)),
        expects_answer(wait_of(repl.awaiting)) ==> goes_on(answer_next(lang, repl, state, data)),
        goes_on(failure_next(lang, repl, message)),
        goes_on(choice_next(repl, pick)),
        wait_of(repl.awaiting) is CompactionUsage && repl.state is Some ==> goes_on(
            compaction_next(lang, repl, usage),
        ),
{
}

/// Leaving the menu never strands the prompt in a session that is gone. Once the
/// session in use was deleted there, that is remembered, and every way out of the
/// menu without a choice asks for another session.
pub proof fn law_lost_session_is_replaced(
    lang: Lang,
    repl: RemoteRepl,
    state: SessionState,
    data: Json,
    message: Seq<char>,
)
    ensures
        repl.chooser.lost_active ==> chooser_after(repl).lost_active,
        wait_of(repl.awaiting) matches Wait::ChooserDelete(id, _) ==> id == repl.session_id@
            ==> chooser_after(repl).lost_active,
        repl.chooser.lost_active ==> choice_next(repl, SessionPick::Cancelled) == asks(
            Request::ListSessions,
            Wait::FallbackList,
        ),
        repl.chooser.lost_active && wait_of(repl.awaiting) is Listed && listed_sessions(data).len()
            == 0 ==> answer_next(lang, repl, state, data).wait is FallbackList,
        repl.chooser.lost_active && wait_of(repl.awaiting) is ChooserDelete ==> failure_next(
            lang,
            repl,
            message,
        ).wait is FallbackList,
{
}

/// A compaction whose usage cannot be read ends the prompt and changes no figures,
/// neither when its answer comes nor when reading it fails.
pub proof fn law_unreadable_usage_changes_nothing(
    lang: Lang,
    repl: RemoteRepl,
    state: SessionState,
    data: Json,
    message: String,
)
    requires
        wait_of(repl.awaiting) is Compacted,
        has_usage(data),
    ensures
        informed(repl, state, data) == (RemoteRepl { state: Some(state), ..repl }),
        answer_next(lang, repl, state, data).acts == seq![Act::DecodeUsage],
        forall|waiting: RemoteRepl|
            wait_of(waiting.awaiting) == answer_next(lang, repl, state, data).wait
                ==> compaction_counted(waiting, Err::<Usage, String>(message)) == waiting
                && #[trigger] compaction_next(lang, waiting, Err::<Usage, String>(message)) == done(
                Act::Fail(message@),
            ),
{
}

/// A reset forgets what was spent: neither the total nor the footer keeps any
/// of it.
pub proof fn law_reset_forgets_spending(repl: RemoteRepl, state: SessionState, data: Json)
    requires
        wait_of(repl.awaiting) is ResetDone || wait_of(repl.awaiting) is Wiped,
    ensures
        informed(repl, state, data).cumulative.total == 0,
        informed(repl, state, data).footer.token_usage.cumulative_tokens is None,
        informed(repl, state, data).footer.token_usage.turn_tokens == 0,
{
}

/// An answer of the daemon never makes the prompt ask for anything to be changed:
/// it only looks sessions up.
pub proof fn law_answers_change_nothing_by_themselves(
    repl: &mut RemoteRepl,
    lang: Lang,
    state: SessionState,
    data: &Json,
    r: Vec<ReplAction>,
    i: int,
)
    requires
        call_ensures(RemoteRepl::replied, (repl, lang, state, data), r),
        0 <= i < r@.len(),
    ensures
        r@[i] is Ask ==> r@[i]->Ask_0 is ListSessions || r@[i]->Ask_0 is SessionState,
        !(r@[i] is RunTurn || r@[i] is Leave || r@[i] is Record),
{
    let next = answer_next(lang, *old(repl), state, *data);
    assert(acts(r@).len() == r@.len());
    assert(acts(r@) == next.acts);
    assert(acts(r@)[i] == crate::repl::act_of(r@[i]));
    assert(next.acts.len() <= 3);
    assert(i == 0 || i == 1 || i == 2);
}

/// A session is deleted, and everything wiped, only where the user said yes to
/// just that; anything else calls it off.
pub proof fn law_destruction_takes_a_yes(
    repl: &mut RemoteRepl,
    lang: Lang,
    line: &str,
    r: Vec<ReplAction>,
)
    requires
        call_ensures(RemoteRepl::answered, (repl, lang, line), r),
    ensures
        ({
            let did = acts(r@);
            let wait = wait_of(old(repl).awaiting);
            let after = wait_of(final(repl).awaiting);
            let word = crate::text::trimmed(line@);
            let yes = word == "y"@ || word == "Y"@ || word == "yes"@ || word == "YES"@;
            &&& wait is DeleteAnswer && yes ==> did == seq![
                Act::Ask(Request::DeleteSession(wait->DeleteAnswer_0)),
            ] && after == Wait::Deleted(wait->DeleteAnswer_1)
            &&& wait is WipeAnswer && yes ==> did == seq![Act::Ask(Request::Wipe)] && after is Wiped
            &&& (wait is DeleteAnswer || wait is WipeAnswer) && !yes ==> did.len() == 1 && did[0]
                is Note && after is Input
            &&& !(wait is DeleteAnswer || wait is WipeAnswer) ==> did.len() == 0 && after == wait
            &&& *final(repl) == (RemoteRepl { awaiting: final(repl).awaiting, ..*old(repl) })
        }),
{
}

/// Which session is deleted: the one whose state came, and it is remembered
/// whether that is the one in use.
pub proof fn law_deletion_is_about_the_session_that_came(
    repl: &mut RemoteRepl,
    lang: Lang,
    state: SessionState,
    data: &Json,
    r: Vec<ReplAction>,
)
    requires
        call_ensures(RemoteRepl::replied, (repl, lang, state, data), r),
        old(repl).awaiting is DeleteState,
    ensures
        r@.len() == 1 && r@[0] is Confirm,
        final(repl).awaiting is DeleteAnswer,
        final(repl).awaiting->DeleteAnswer_session_id@ == state.session_id@,
        final(repl).awaiting->DeleteAnswer_active <==> state.session_id@ == old(repl).session_id@,
{
    assert(acts(r@).len() == r@.len());
    assert(acts(r@)[0] == crate::repl::act_of(r@[0]));
}

/// Where the prompt goes behind each answer about sessions: to the one that was
/// made, the one with the wanted number, the one that was asked for; and where
/// the one in use is archived or deleted, to another.
pub proof fn law_answers_about_sessions(
    repl: &mut RemoteRepl,
    lang: Lang,
    state: SessionState,
    data: &Json,
    r: Vec<ReplAction>,
)
    requires
        call_ensures(RemoteRepl::replied, (repl, lang, state, data), r),
    ensures
        ({
            let did = acts(r@);
            let wait = wait_of(old(repl).awaiting);
            let after = wait_of(final(repl).awaiting);
            let listed = listed_sessions(*data);
            &&& final(repl).session_id == old(repl).session_id
            &&& final(repl).mode == old(repl).mode
            &&& wait is SwitchState ==> did == seq![Act::Switch] && after is Input
            &&& wait is Created ==> (member(*data, "session"@) matches Some(session) ==> (member(
                session,
                "session_id"@,
            ) matches Some(Json::Text(id)) ==> did == seq![
                Act::Ask(Request::SessionState(Target::Id(id@))),
            ] && after is SwitchState))
            &&& wait is Created && member(*data, "session"@) is None ==> did.len() == 1 && did[0]
                is Note && after is Input
            &&& wait is SwitchNumber && 1 <= wait->SwitchNumber_0 <= listed.len() ==> did == seq![
                Act::Ask(Request::SessionState(Target::Id(listed[wait->SwitchNumber_0 - 1].id))),
            ] && after is SwitchState
            &&& wait is DeleteNumber && 1 <= wait->DeleteNumber_0 <= listed.len() ==> did == seq![
                Act::Ask(Request::SessionState(Target::Id(listed[wait->DeleteNumber_0 - 1].id))),
            ] && after is DeleteState
            &&& wait is SwitchNumber && (wait->SwitchNumber_0 == 0 || wait->SwitchNumber_0
                > listed.len()) ==> did.len() == 1 && did[0] is Note && after is Input
            &&& wait is DeleteNumber && (wait->DeleteNumber_0 == 0 || wait->DeleteNumber_0
                > listed.len()) ==> did.len() == 1 && did[0] is Note && after is Input
            &&& wait is Listed && listed.len() > 0 ==> did == seq![Act::Choose(listed)] && after
                is Choice
            &&& wait is Archived ==> did.len() == 2 && did[0] is Note && did[1] == Act::Ask(
                Request::ListSessions,
            ) && after is FallbackList
            &&& wait == Wait::Deleted(true) ==> did.len() == 2 && did[0] is Note && did[1]
                == Act::Ask(Request::ListSessions) && after is FallbackList
            &&& wait == Wait::Deleted(false) ==> did.len() == 1 && did[0] is Note && after is Input
            &&& wait is StoppedJobs ==> did.len() == 2 && did[0] is DropStrip && did[1] is Note
                && after is Input
            &&& wait is Renamed || wait is WorkspaceState || wait is Unbound || wait is Bound || wait
                is Popped ==> did.len() == 1 && did[0] is Note && after is Input
            &&& wait is ResetDone || wait is Wiped ==> did.len() == 3 && did[0] is ClearInput
                && did[1] is ReloadQueue && did[2] is Note && after is Input
            &&& wait is Undone ==> did.len() >= 1 && did[0] is Note && after is Input
            &&& wait is Undone ==> (member(*data, "prompt"@) matches Some(Json::Text(prompt))
                ==> did.len() == 2 && did[1] == Act::Prefill(prompt@))
            &&& wait is Undone && member(*data, "prompt"@) is None ==> did.len() == 1
            &&& wait is PersonaReload || wait is ConfigReload || wait is VariantReload ==> did
                == seq![Act::Ask(Request::SessionState(Target::Id(old(repl).session_id@)))]
            &&& wait is Input || wait is Turn || wait is Choice ==> did.len() == 0 && after == wait
        }),
{
}

/// The figures of the session come from the daemon's answer where turns were
/// undone or popped, or one was cancelled, and are forgotten behind a reset; other
/// answers leave them alone.
pub proof fn law_figures_come_with_the_answer(
    repl: &mut RemoteRepl,
    lang: Lang,
    state: SessionState,
    data: &Json,
    r: Vec<ReplAction>,
)
    requires
        call_ensures(RemoteRepl::replied, (repl, lang, state, data), r),
    ensures
        ({
            let wait = wait_of(old(repl).awaiting);
            let shown = final(repl).footer.token_usage;
            &&& final(repl).state == Some(state)
            &&& wait is Undone || wait is Popped || wait == Wait::Active(Refresh::Cancelled) || wait
                == Wait::Default(Refresh::Cancelled) ==> {
                &&& final(repl).cumulative.total == state.cumulative_tokens
                &&& final(repl).cumulative.prompt == state.cumulative_prompt_tokens
                &&& final(repl).cumulative.cache_read == state.cumulative_cache_read_tokens
                &&& shown.session_tokens == state.context_tokens
                &&& shown.context_window == state.context_window
            }
            &&& wait is ResetDone || wait is Wiped ==> {
                &&& final(repl).cumulative.total == 0 && final(repl).cumulative.prompt == 0
                &&& final(repl).cumulative.cache_read == 0
                &&& shown.session_tokens == state.context_tokens
                &&& shown.context_window == state.context_window
            }
            &&& wait is Renamed || wait is Archived || wait is Listed || wait is SwitchState || wait
                is Deleted || wait is Bound || wait is Unbound || wait is WorkspaceState
                ==> final(repl).cumulative == old(repl).cumulative && final(repl).footer == old(repl).footer
        }),
{
}

/// A refused or failed request is reported in the daemon's own words and leads
/// back to the line; where the state of the session in use cannot be had, that of
/// the daemon is asked for instead.
pub proof fn law_failures_lead_back(
    repl: &mut RemoteRepl,
    lang: Lang,
    message: &str,
    r: Vec<ReplAction>,
)
    requires
        call_ensures(RemoteRepl::failed, (repl, lang, message), r),
    ensures
        ({
            let did = acts(r@);
            let wait = wait_of(old(repl).awaiting);
            let after = wait_of(final(repl).awaiting);
            let note = Act::Note(red_note(error_of(lang, message@)));
            &&& wait is Active ==> did == seq![Act::Ask(Request::Status)] && after == Wait::Default(
                wait->Active_0,
            )
            &&& wait is Archived || wait is Renamed || wait is Deleted || wait is Created || wait
                is Undone || wait is Popped || wait is Compacted || wait is ResetDone || wait
                is Wiped || wait is SwitchState || wait is Listed ==> did == seq![note] && after
                is Input
            &&& wait is StoppedJobs ==> did.len() == 3 && did[0] == note && after is Input
            &&& wait == Wait::Default(Refresh::Config) || wait == Wait::Default(Refresh::Models)
                || wait == Wait::Default(Refresh::Variant) || wait == Wait::Default(
                Refresh::Persona,
            ) ==> did == seq![Act::Fail(message@)]
            &&& wait == Wait::Default(Refresh::Failed) || wait == Wait::Default(Refresh::Cancelled)
                ==> did.len() == 0 && after is Input
            &&& *final(repl) == (RemoteRepl { awaiting: final(repl).awaiting, ..*old(repl) })
        }),
{
}

/// The menu of the sessions does with a session what was chosen for it.
pub proof fn law_menu_does_what_was_chosen(
    repl: &mut RemoteRepl,
    pick: SessionPick,
    r: Vec<ReplAction>,
)
    requires
        call_ensures(RemoteRepl::chosen, (repl, pick), r),
    ensures
        ({
            let did = acts(r@);
            let after = wait_of(final(repl).awaiting);
            &&& pick is Switch ==> did == seq![
                Act::Ask(Request::SessionState(target_of(pick->Switch_0))),
            ] && after is SwitchState
            &&& pick is Delete ==> did == seq![
                Act::Ask(Request::DeleteSession(pick->session_id@)),
            ] && after == Wait::ChooserDelete(pick->session_id@, pick->index)
            &&& pick is Cancelled && !old(repl).chooser.lost_active ==> did.len() == 0 && after
                is Input
            &&& pick is Cancelled && old(repl).chooser.lost_active ==> did == seq![
                Act::Ask(Request::ListSessions),
            ] && after is FallbackList
        }),
{
}

/// A persona that was changed has the configuration read again; one that was not
/// leads back to the prompt, and so does a failure, which is shown.
pub proof fn law_changed_persona_is_read_again(
    repl: &mut RemoteRepl,
    persona: Result<bool, String>,
    r: Vec<ReplAction>,
)
    requires
        call_ensures(RemoteRepl::persona_picked, (repl, persona), r),
    ensures
        persona == Ok::<bool, String>(true) ==> acts(r@) == seq![Act::Ask(Request::ReloadConfig)]
            && final(repl).awaiting is PersonaReload,
        persona == Ok::<bool, String>(false) ==> r@.len() == 0 && final(repl).awaiting is Input,
        persona matches Err(error) ==> acts(r@) == seq![Act::Note(red_note(error@))] && final(repl).awaiting is Input,
{
    assert(acts(r@).len() == r@.len());
}

/// Where models were picked, the session is looked up again; a failure is shown.
pub proof fn law_picked_models_are_looked_up(
    repl: &mut RemoteRepl,
    outcome: Result<(), String>,
    r: Vec<ReplAction>,
)
    requires
        call_ensures(RemoteRepl::models_picked, (repl, outcome), r),
    ensures
        outcome is Ok ==> acts(r@) == seq![
            Act::Ask(Request::SessionState(Target::Id(old(repl).session_id@))),
        ] && wait_of(final(repl).awaiting) == Wait::Active(Refresh::Models),
        outcome matches Err(error) ==> acts(r@) == seq![Act::Note(red_note(error@))] && final(repl).awaiting is Input,
{
}

/// The turns that were chosen are popped, in the session in use, and no others.
pub proof fn law_chosen_turns_are_popped(
    repl: &mut RemoteRepl,
    lang: Lang,
    end: TurnsEnd,
    r: Vec<ReplAction>,
)
    requires
        call_ensures(RemoteRepl::turns_picked, (repl, lang, end), r),
    ensures
        end matches TurnsEnd::Chosen(ids) ==> acts(r@) == seq![
            Act::Ask(Request::PopTurns(old(repl).session_id@, texts(ids@))),
        ] && final(repl).awaiting is Popped,
        end is Cancelled ==> r@.len() == 0 && final(repl).awaiting is Input,
        end is Nothing ==> r@.len() == 1 && r@[0] is Note && final(repl).awaiting is Input,
{
    assert(acts(r@).len() == r@.len());
    if end is Nothing {
        assert(acts(r@)[0] == crate::repl::act_of(r@[0]));
    }
}

/// A workspace is bound to the path in full, to the session in use.
pub proof fn law_workspace_is_bound_to_the_full_path(
    repl: &mut RemoteRepl,
    lang: Lang,
    path: Result<String, String>,
    r: Vec<ReplAction>,
)
    requires
        call_ensures(RemoteRepl::path_checked, (repl, lang, path), r),
        old(repl).awaiting is CheckedPath,
    ensures
        path matches Ok(full) ==> acts(r@) == seq![
            Act::Ask(Request::BindWorkspace(old(repl).session_id@, Some(full@))),
        ] && wait_of(final(repl).awaiting) == Wait::Bound(full@),
        path is Err ==> r@.len() == 1 && r@[0] is Note && final(repl).awaiting is Input,
{
    assert(acts(r@).len() == r@.len());
    if path is Err {
        assert(acts(r@)[0] == crate::repl::act_of(r@[0]));
    }
}

/// Ctrl+C at the line stops the jobs of the session in use; a closed screen of the
/// configuration has it read again; a changed variant too.
pub proof fn law_jobs_are_stopped_in_the_session(
    repl: &mut RemoteRepl,
    r: Vec<ReplAction>,
)
    requires
        call_ensures(RemoteRepl::stop_jobs, (repl,), r),
    ensures
        acts(r@) == seq![Act::Ask(Request::StopJobs(old(repl).session_id@))],
        final(repl).awaiting is StoppedJobs,
        final(repl).session_id == old(repl).session_id,
{
}

/// A configuration that was open is read again.
pub proof fn law_closed_configuration_is_read_again(repl: &mut RemoteRepl, r: Vec<ReplAction>)
    requires
        call_ensures(RemoteRepl::config_closed, (repl,), r),
    ensures
        acts(r@) == seq![Act::Ask(Request::ReloadConfig)],
        final(repl).awaiting is ConfigReload,
{
}

/// A variant that was changed has the configuration read again.
pub proof fn law_changed_variant_is_read_again(
    repl: &mut RemoteRepl,
    lang: Lang,
    end: VariantOutcome,
    r: Vec<ReplAction>,
)
    requires
        call_ensures(RemoteRepl::variant_picked, (repl, lang, end), r),
    ensures
        end is Updated ==> acts(r@) == seq![Act::Ask(Request::ReloadConfig)] && final(repl).awaiting
            is VariantReload,
        end is Cancelled ==> r@.len() == 0 && final(repl).awaiting is Input,
        end is Loading || end is Rejected ==> r@.len() == 1 && r@[0] is Note && final(repl).awaiting
            is Input,
{
    assert(acts(r@).len() == r@.len());
    if end is Loading || end is Rejected {
        assert(acts(r@)[0] == crate::repl::act_of(r@[0]));
    }
}

/// A finished turn brings its figures to the footer; behind one that was called
/// off or failed, which is said, the session's state is asked for; a daemon that
/// is gone ends the prompt.
pub proof fn law_turns_end_as_they_ended(
    repl: &mut RemoteRepl,
    lang: Lang,
    end: TurnEnd,
    r: Vec<ReplAction>,
)
    requires
        call_ensures(RemoteRepl::turn_ended, (repl, lang, end), r),
    ensures
        ({
            let did = acts(r@);
            let after = wait_of(final(repl).awaiting);
            &&& end is Finished ==> {
                &&& did == seq![Act::FetchJobs, Act::RefreshFooter]
                &&& after is Input
                &&& final(repl).cumulative == end->cumulative
                &&& end->result.usage is None ==> final(repl).footer == old(repl).footer
                &&& end->result.usage is Some ==> {
                    let used = end->result.usage->0;
                    let shown = final(repl).footer.token_usage;
                    &&& shown.turn_tokens == used.total_tokens
                    &&& shown.turn_prompt_tokens == used.prompt_tokens
                    &&& shown.turn_cached_tokens == used.cache_read_tokens
                    &&& shown.session_tokens == end->context_tokens
                    &&& shown.context_window == end->context_window
                }
            }
            &&& end is CoreStopped ==> did.len() == 1 && did[0] is Fail
            &&& end is Cancelled ==> did.len() == 2 && did[0] is Frame && did[1] == Act::Ask(
                Request::SessionState(Target::Id(old(repl).session_id@)),
            ) && after == Wait::Active(Refresh::Cancelled)
            &&& end is Failed ==> did.len() == 2 && did[0] == Act::Frame(
                red_note(error_of(lang, end->Failed_0@)) + "\n"@,
            ) && did[1] == Act::Ask(
                Request::SessionState(Target::Id(old(repl).session_id@)),
            ) && after == Wait::Active(Refresh::Failed)
            &&& !(end is Finished) ==> final(repl).cumulative == old(repl).cumulative && final(repl).footer == old(repl).footer
            &&& final(repl).session_id == old(repl).session_id
        }),
{
}

/// What is said on leaving counts the commands that were stopped, and is said
/// only where there were any.
pub proof fn law_farewell_counts_what_was_stopped(lang: Lang, data: &Json, r: Option<String>)
    requires
        call_ensures(farewell_note, (lang, data), r),
    ensures
        member(*data, "stopped"@) is None ==> r is None,
        member(*data, "stopped"@) matches Some(Json::Unsigned(n)) ==> (r is Some <==> n > 0),
{
}

/// A refresh goes over to the daemon's own session where that is another one.
pub proof fn law_refresh_follows_the_daemon(
    repl: &mut RemoteRepl,
    lang: Lang,
    state: SessionState,
    data: &Json,
    r: Vec<ReplAction>,
    why: Refresh,
)
    requires
        call_ensures(RemoteRepl::replied, (repl, lang, state, data), r),
        wait_of(old(repl).awaiting) == Wait::Default(why) || wait_of(old(repl).awaiting)
            == Wait::Active(why),
    ensures
        ({
            let did = acts(r@);
            let other = wait_of(old(repl).awaiting) is Default && state.session_id@ != old(repl).session_id@;
            &&& why is Config || why is Variant ==> (did.contains(Act::Switch) <==> other)
                && did.last() is Rebuild
            &&& why is Persona || why is Models ==> did == seq![Act::Rebuild]
            &&& why is Failed && other ==> did == seq![Act::Switch]
            &&& why is Failed && !other ==> did.len() == 0
            &&& why is Cancelled ==> did.len() == 0
        }),
{
    let did = acts(r@);
    let other = wait_of(old(repl).awaiting) is Default && state.session_id@ != old(repl).session_id@;
    if why is Config || why is Variant {
        if other {
            assert(did[0] is Switch);
        } else {
            assert(did =~= seq![Act::Rebuild]);
        }
    }
}

/// A report counts where it is there and is not null.
pub proof fn law_reports_that_say_something(data: Json)
    ensures
        member(data, "usage"@) is None ==> !has_usage(data),
        member(data, "usage"@) == Some(Json::Null) ==> !has_usage(data),
        member(data, "usage"@) is Some && member(data, "usage"@) != Some(Json::Null) ==> has_usage(
            data,
        ),
{
}

} // verus!
