use laozhou::answers::{farewell_note, TurnEnd, TurnsEnd, VariantOutcome};
use laozhou::footer::{ModelChoice, ModelConfig, ReplFooterStatus};
use laozhou::json::Json;
use laozhou::lang::Lang;
use laozhou::mode::AgentMode;
use laozhou::models::{
    apply_session_model_override, footer_config_for_session, initial_marks, list_persona_files,
    models_picked, persona_at, persona_listing, persona_menu, persona_named, print_model_choices,
    run_list_models, run_models_for_session, run_persona_picker, session_model_override_snapshot,
    set_session_models, ModelEntry, ModelsRequest,
};
use laozhou::notes::{
    join_message, run_session_archive, run_session_delete, run_session_new, run_session_rename,
    run_wipe, workspace_note_text, WipeStep,
};
use laozhou::repl::{Awaiting, RemoteRepl, ReplAction, ReplRequest};
use laozhou::session::{
    cli_pick_session, confirms, display_session_name, expand_tilde, fallback_entry, given_name, print_session_list,
    reopened_at, repl_note, resolve_cli_session_target, resolve_session_id_for_turn,
    run_session_command, run_workspace_command, select_session_target, session_argument,
    session_list_entries, session_list_line, session_select_line, session_select_search, CliPickStep,
    ListUse,
    SessionArgument, SessionListEntry, SessionPick, SessionRef, WorkspaceRequest,
};
use laozhou::menu::InlineSelectOutcome;
use laozhou::screen::TerminalOp;
use laozhou::tail::LiveReplTail;
use laozhou::tokens::{ChatResult, SessionState, TokenMeter, TurnTokens, Usage};
use laozhou::usage::UsageSnapshot;

fn text(value: &str) -> Json {
    Json::Text(value.to_string())
}

fn object(entries: Vec<(&str, Json)>) -> Json {
    Json::Object(
        entries
            .into_iter()
            .map(|(key, value)| (key.to_string(), value))
            .collect(),
    )
}

fn state(id: &str) -> SessionState {
    SessionState {
        session_id: id.to_string(),
        session_name: format!("name of {id}"),
        context_tokens: 7,
        context_window: Some(1_000),
        cumulative_tokens: 30,
        cumulative_prompt_tokens: 20,
        cumulative_cache_read_tokens: 10,
        workspace: None,
    }
}

fn config() -> ModelConfig {
    ModelConfig {
        active: vec![ModelChoice {
            provider_id: "openai".to_string(),
            model: "gpt-5".to_string(),
        }],
        context_window: None,
        windows: Vec::new(),
        mixed_model_endpoint_display: "off".to_string(),
    }
}

fn repl() -> RemoteRepl {
    RemoteRepl::new(
        Lang::En,
        AgentMode::Normal,
        &state("s1"),
        &config(),
        Some("high"),
    )
}

fn sessions() -> Json {
    object(vec![(
        "sessions",
        Json::Array(vec![
            object(vec![
                ("session_id", text("a")),
                ("name", text("")),
                ("turn_count", Json::Unsigned(3)),
                (
                    "last_user_content",
                    text("  first line\nof a rather long message  "),
                ),
            ]),
            object(vec![
                ("session_id", text("b")),
                ("name", text("Work")),
                ("is_current", Json::Bool(true)),
                ("workspace", text("/srv/work")),
            ]),
        ]),
    )])
}

fn entries() -> Vec<SessionListEntry> {
    session_list_entries(&sessions())
}

fn notes(actions: &[ReplAction]) -> Vec<String> {
    actions
        .iter()
        .filter_map(|action| match action {
            ReplAction::Note(note) => Some(note.clone()),
            _ => None,
        })
        .collect()
}

#[test]
fn the_list_of_sessions_is_read_from_the_daemon() {
    let entries = entries();
    assert_eq!(entries.len(), 2);
    assert_eq!(entries[0].id, "a");
    assert!(!entries[0].is_current);
    assert_eq!(entries[0].turns, 3);
    assert_eq!(entries[0].snippet, "first line of a rather l…");
    assert_eq!(entries[0].workspace, None);
    assert!(entries[1].is_current);
    assert_eq!(entries[1].turns, 0);
    assert_eq!(entries[1].snippet, "");
    assert_eq!(entries[1].workspace.as_deref(), Some("/srv/work"));
    assert!(session_list_entries(&Json::Null).is_empty());
}

#[test]
fn sessions_are_listed_with_their_number() {
    let entries = entries();
    assert_eq!(
        session_list_line(Lang::En, 1, &entries[0], false),
        "   1. New session  3 turns  first line of a rather l…"
    );
    assert_eq!(
        session_list_line(Lang::En, 12, &entries[1], true),
        "* 12. Work  \x1b[2m0 turns    [/srv/work]\x1b[0m"
    );
    let lines = print_session_list(Lang::En, &entries, false);
    assert_eq!(lines[0], "sessions:");
    assert_eq!(lines.len(), 4);
    assert_eq!(lines[3], "");
    assert_eq!(
        print_session_list(Lang::En, &Vec::new(), true),
        ["\x1b[2mno sessions\x1b[0m", ""]
    );
    assert!(matches!(
        cli_pick_session(
            SessionPick::Delete { session_id: "a".to_string(), index: 2 },
            None
        ),
        (CliPickStep::Delete(SessionRef::Id { id }), Some(2)) if id == "a"
    ));
    assert!(matches!(
        cli_pick_session(SessionPick::Cancelled, Some(1)),
        (CliPickStep::Leave, Some(1))
    ));
    assert!(matches!(
        cli_pick_session(SessionPick::Switch(SessionRef::Current), None),
        (CliPickStep::Switch(SessionRef::Current), None)
    ));
    assert_eq!(
        session_select_line(Lang::En, &entries[1], None),
        "* Work  0 turns  [/srv/work]"
    );
    assert_eq!(
        session_select_line(Lang::En, &entries[1], Some("a")),
        "  Work  0 turns  [/srv/work]"
    );
    assert_eq!(
        session_select_search(Lang::En, &entries[1]),
        "Work  /srv/work"
    );
    assert_eq!(display_session_name(Lang::Zh, " "), "新会话");
}

#[test]
fn sessions_are_found_by_number_name_or_identity() {
    let entries = entries();
    assert!(matches!(
        session_argument("2"),
        SessionArgument::Number(2)
    ));
    assert!(matches!(session_argument("x2"), SessionArgument::Name(name) if name == "x2"));
    assert!(matches!(
        resolve_cli_session_target(Lang::En, &entries, 1),
        Ok(SessionRef::Id { id }) if id == "a"
    ));
    assert_eq!(
        resolve_cli_session_target(Lang::En, &entries, 0).unwrap_err(),
        "no session with this number: 0"
    );
    assert_eq!(
        resolve_session_id_for_turn(Lang::En, &entries, "wORK").unwrap(),
        "b"
    );
    assert_eq!(
        resolve_session_id_for_turn(Lang::En, &entries, "a").unwrap(),
        "a"
    );
    assert_eq!(
        resolve_session_id_for_turn(Lang::En, &entries, "3").unwrap_err(),
        "no session with this number: 3"
    );
    assert_eq!(
        resolve_session_id_for_turn(Lang::En, &entries, "nobody").unwrap_err(),
        "session not found: nobody"
    );
    assert_eq!(fallback_entry(&entries).as_deref(), Some("b"));
    assert_eq!(fallback_entry(&Vec::new()), None);
    assert_eq!(reopened_at(&entries, None, Some(9)), 1);
    assert_eq!(reopened_at(&entries, Some("a"), None), 0);
    assert!(matches!(
        select_session_target(&entries, InlineSelectOutcome::Deleted(1)),
        SessionPick::Delete { session_id, index: 1 } if session_id == "b"
    ));
    assert_eq!(run_session_command(&entries, true), ListUse::Choose);
    assert_eq!(run_session_command(&entries, false), ListUse::Print);
    assert_eq!(run_session_command(&Vec::new(), true), ListUse::Print);
}

#[test]
fn only_an_explicit_yes_confirms() {
    for answer in ["y", " Y\n", "yes", "YES"] {
        assert!(confirms(answer));
    }
    for answer in ["", "n", "Yes", "yes please"] {
        assert!(!confirms(answer));
    }
}

#[test]
fn arguments_of_session_commands() {
    assert_eq!(given_name(Some("  a b ")).as_deref(), Some("a b"));
    assert_eq!(given_name(Some("  ")), None);
    assert!(matches!(
        run_workspace_command(None),
        WorkspaceRequest::Show
    ));
    assert!(matches!(
        run_workspace_command(Some(" CLEAR ")),
        WorkspaceRequest::Unbind
    ));
    assert!(matches!(
        run_workspace_command(Some("~/x")),
        WorkspaceRequest::Bind(path) if path == "~/x"
    ));
    assert_eq!(expand_tilde("~", Some("/home/u")), "/home/u");
    assert_eq!(expand_tilde("~/x", Some("/home/u")), "/home/u/x");
    assert_eq!(expand_tilde("~/x", Some("/home/u/")), "/home/u/x");
    assert_eq!(expand_tilde("~//etc", Some("/home/u")), "/etc");
    assert_eq!(expand_tilde("~x", Some("/home/u")), "~x");
    assert_eq!(expand_tilde("~/x", None), "~/x");
    assert_eq!(run_session_rename(Lang::En, " n ").unwrap(), "n");
    assert_eq!(
        run_session_rename(Lang::En, " ").unwrap_err(),
        "usage: laozhou rename <name>"
    );
    assert_eq!(
        run_session_new(Lang::En, ""),
        "created and switched to session: New session"
    );
    assert_eq!(
        run_session_archive(Lang::En, "B"),
        ["session archived", "switched to session: B"]
    );
    assert_eq!(
        run_session_delete(Lang::En, true, "B"),
        ["session deleted", "switched to session: B"]
    );
    assert_eq!(run_session_delete(Lang::En, false, "B"), ["cancelled"]);
    assert_eq!(
        workspace_note_text(Lang::En, Some("/w")),
        "session workspace: /w"
    );
    assert_eq!(run_wipe(true, false), WipeStep::Wipe);
    assert_eq!(run_wipe(false, true), WipeStep::Confirm);
    assert_eq!(run_wipe(false, false), WipeStep::NeedsTerminal);
    assert_eq!(
        join_message(vec![" a".to_string(), "b ".to_string()]),
        "a b"
    );
}

#[test]
fn a_line_is_chat_a_command_or_the_end() {
    let mut repl = repl();
    assert!(matches!(
        &repl.submitted(Lang::En, AgentMode::Plan, "  hello  ")[..],
        [ReplAction::Record(a), ReplAction::RunTurn(b)] if a == "hello" && b == "hello"
    ));
    assert_eq!(repl.mode, AgentMode::Plan);
    assert!(matches!(repl.awaiting, Awaiting::Turn));
    assert!(repl
        .submitted(Lang::En, AgentMode::Normal, "   ")
        .is_empty());
    for line in ["exit", "QUIT", "/exit"] {
        assert!(matches!(
            &repl.submitted(Lang::En, AgentMode::Normal, line)[..],
            [ReplAction::Leave]
        ));
    }
    assert_eq!(
        notes(&repl.submitted(Lang::En, AgentMode::Normal, "/nope x")),
        ["\x1b[2munknown command; try /help: /nope\x1b[0m\n"]
    );
    assert_eq!(
        notes(&repl.submitted(Lang::En, AgentMode::Normal, "/help me")),
        ["\x1b[2mthis command takes no arguments: /help\x1b[0m\n"]
    );
    assert_eq!(
        notes(&repl.submitted(Lang::En, AgentMode::Normal, "/pop 0")),
        ["\x1b[31merror: pop count must be greater than zero\x1b[0m"]
    );
    assert!(matches!(repl.awaiting, Awaiting::Input));
}

#[test]
fn a_slash_line_is_never_sent() {
    let mut repl = repl();
    for line in ["/new x", "/co", "/wipe", "/undo", "/usage", "/models a/b"] {
        assert!(!repl
            .submitted(Lang::En, AgentMode::Normal, line)
            .iter()
            .any(|action| matches!(action, ReplAction::RunTurn(_))));
    }
}

#[test]
fn a_new_session_is_made_and_switched_to() {
    let mut repl = repl();
    assert!(matches!(
        &repl.submitted(Lang::En, AgentMode::Normal, "/new Work ")[..],
        [ReplAction::Ask(ReplRequest::CreateSession { wanted: Some(name) })] if name == "Work"
    ));
    let made = object(vec![("session", object(vec![("session_id", text("s2"))]))]);
    assert!(matches!(
        &repl.replied(Lang::En, state("s1"), &made)[..],
        [ReplAction::Ask(ReplRequest::SessionState { target: SessionRef::Id { id } })] if id == "s2"
    ));
    assert!(matches!(
        &repl.replied(Lang::En, state("s2"), &Json::Null)[..],
        [ReplAction::Switch]
    ));

    let mut live = LiveReplTail::new(
        AgentMode::Normal,
        Vec::new(),
        Vec::new(),
        ReplFooterStatus::from_config(Lang::En, &config(), 0, TurnTokens::none()),
        (0, 0),
    );
    live.editor.input = "draft".to_string();
    let steps = repl
        .switch(
            Lang::En,
            &config(),
            None,
            vec!["earlier".to_string()],
            &mut live,
            (80, 24),
        )
        .unwrap();
    assert_eq!(repl.session_id, "s2");
    assert_eq!(repl.cumulative.total, 30);
    assert_eq!(live.editor.history, ["earlier"]);
    assert_eq!(live.editor.input, "");
    assert!(matches!(
        &steps[0],
        TerminalOp::Bytes(bytes)
            if bytes == "\x1b[2mswitched to session: name of s2\x1b[0m\n\n".as_bytes()
    ));

    repl.state = Some(state(""));
    assert_eq!(
        repl.switch(Lang::En, &config(), None, Vec::new(), &mut live, (80, 24))
            .unwrap_err(),
        "session state has no id"
    );
    assert_eq!(repl.session_id, "s2");

    repl.submitted(Lang::En, AgentMode::Normal, "/new");
    assert_eq!(
        notes(&repl.replied(Lang::En, state("s1"), &Json::Null)),
        ["\x1b[31mcreated session has no id\x1b[0m\n"]
    );
}

#[test]
fn deleting_the_own_session_in_the_menu_leads_to_another() {
    let mut repl = repl();
    repl.submitted(Lang::En, AgentMode::Normal, "/session");
    assert!(matches!(
        &repl.replied(Lang::En, state("s1"), &sessions())[..],
        [ReplAction::Choose(entries)] if entries.len() == 2
    ));
    assert!(matches!(
        &repl.chosen(SessionPick::Delete { session_id: "s1".to_string(), index: 1 })[..],
        [ReplAction::Ask(ReplRequest::DeleteSession { session })] if session == "s1"
    ));
    assert!(matches!(
        &repl.replied(Lang::En, state("s1"), &Json::Null)[..],
        [ReplAction::Ask(ReplRequest::ListSessions)]
    ));
    assert!(repl.chooser.lost_active);
    assert_eq!(repl.chooser.cursor, Some(1));
    repl.replied(Lang::En, state("s1"), &sessions());
    assert!(matches!(
        &repl.chosen(SessionPick::Cancelled)[..],
        [ReplAction::Ask(ReplRequest::ListSessions)]
    ));
    assert!(matches!(
        &repl.replied(Lang::En, state("s1"), &sessions())[..],
        [ReplAction::Ask(ReplRequest::SessionState { target: SessionRef::Id { id } })] if id == "b"
    ));
}

#[test]
fn deleting_a_session_asks_first() {
    let mut repl = repl();
    repl.submitted(Lang::En, AgentMode::Normal, "/delete");
    assert!(matches!(
        &repl.replied(Lang::En, state("s1"), &Json::Null)[..],
        [ReplAction::Confirm(prompt)]
            if prompt == "delete this session and all of its history? [y/N] "
    ));
    assert_eq!(
        notes(&repl.answered(Lang::En, "no\n")),
        ["\x1b[2mcancelled\x1b[0m\n"]
    );
    repl.submitted(Lang::En, AgentMode::Normal, "/delete");
    repl.replied(Lang::En, state("s1"), &Json::Null);
    assert!(matches!(
        &repl.answered(Lang::En, "y\n")[..],
        [ReplAction::Ask(ReplRequest::DeleteSession { session })] if session == "s1"
    ));
    let actions = repl.replied(Lang::En, state("s1"), &Json::Null);
    assert_eq!(notes(&actions), ["\x1b[2msession deleted\x1b[0m"]);
    assert!(matches!(repl.awaiting, Awaiting::FallbackList));
}

#[test]
fn other_commands_and_their_answers() {
    let mut repl = repl();
    repl.submitted(Lang::En, AgentMode::Normal, "/rename New name");
    assert_eq!(
        notes(&repl.replied(Lang::En, state("s1"), &Json::Null)),
        ["\x1b[2msession renamed: New name\x1b[0m\n"]
    );
    assert_eq!(
        notes(&repl.submitted(Lang::En, AgentMode::Normal, "/rename")),
        ["\x1b[2musage: /rename <name>\x1b[0m\n"]
    );
    repl.submitted(Lang::En, AgentMode::Normal, "/workspace");
    assert_eq!(
        notes(&repl.replied(Lang::En, state("s1"), &Json::Null)),
        ["\x1b[2mno workspace bound; using the client working directory\x1b[0m\n"]
    );
    assert!(matches!(
        &repl.submitted(Lang::En, AgentMode::Normal, "/workspace ~/x")[..],
        [ReplAction::CheckPath(path)] if path == "~/x"
    ));
    assert_eq!(
        notes(&repl.path_checked(Lang::En, Err("not there".to_string()))),
        ["\x1b[31minvalid workspace path: ~/x (not there)\x1b[0m\n"]
    );
    repl.submitted(Lang::En, AgentMode::Normal, "/workspace ~/x");
    assert!(matches!(
        &repl.path_checked(Lang::En, Ok("/home/u/x".to_string()))[..],
        [ReplAction::Ask(ReplRequest::BindWorkspace { session, path: Some(path) })]
            if session == "s1" && path == "/home/u/x"
    ));
    assert_eq!(
        notes(&repl.replied(Lang::En, state("s1"), &Json::Null)),
        ["\x1b[2mworkspace bound: /home/u/x\x1b[0m\n"]
    );

    repl.submitted(Lang::En, AgentMode::Normal, "/undo");
    let answer = object(vec![
        ("removed", Json::Unsigned(2)),
        ("prompt", text("again")),
    ]);
    assert!(matches!(
        &repl.replied(Lang::En, state("s1"), &answer)[..],
        [ReplAction::Note(note), ReplAction::Prefill(prompt)]
            if note == "undone messages: 2\n" && prompt == "again"
    ));
    assert_eq!(repl.footer.token_usage.session_tokens, 7);

    repl.submitted(Lang::En, AgentMode::Normal, "/pop");
    assert_eq!(
        notes(&repl.turns_picked(Lang::En, TurnsEnd::Nothing)),
        ["\x1b[2mno conversation turns are available to pop\x1b[0m\n"]
    );
    repl.submitted(Lang::En, AgentMode::Normal, "/pop");
    assert!(matches!(
        &repl.turns_picked(Lang::En, TurnsEnd::Chosen(vec!["t1".to_string()]))[..],
        [ReplAction::Ask(ReplRequest::PopTurns { turn_ids, .. })] if turn_ids == &["t1"]
    ));
    let answer = object(vec![
        ("turns", Json::Unsigned(1)),
        ("archived", Json::Bool(true)),
    ]);
    assert_eq!(
        notes(&repl.replied(Lang::En, state("s1"), &answer)),
        ["\x1b[2mpopped 1 turn · archived\x1b[0m\n"]
    );

    repl.submitted(Lang::En, AgentMode::Normal, "/compact");
    assert_eq!(
        notes(&repl.replied(Lang::En, state("s1"), &Json::Null)),
        ["\x1b[2mnothing to compact\x1b[0m\n"]
    );

    repl.submitted(Lang::En, AgentMode::Normal, "/variant");
    assert_eq!(
        notes(&repl.variant_picked(
            Lang::En,
            VariantOutcome::Rejected("no such variant".to_string())
        )),
        ["\x1b[31mno such variant\x1b[0m"]
    );
    let snapshot = UsageSnapshot {
        requests: 1,
        prompt_tokens: 2,
        cache_read_tokens: 0,
        cache_write_tokens: 0,
        completion_tokens: 3,
        reasoning_tokens: 0,
        total_tokens: 5,
        conversation_tokens: 5,
        last_conversation_usage: None,
        last_usage: None,
    };
    repl.submitted(Lang::En, AgentMode::Normal, "/usage");
    let shown = notes(&repl.usage_read(Lang::En, &snapshot));
    assert!(shown[0].contains("Token usage"));
    assert!(shown[0].ends_with("\n\n"));
}

/// A prompt whose compaction was answered with a record of usage.
fn compacting(usage: Json) -> (RemoteRepl, Vec<ReplAction>) {
    let mut repl = repl();
    repl.submitted(Lang::En, AgentMode::Normal, "/compact");
    let answer = object(vec![
        ("usage", usage),
        ("usage_estimated", Json::Bool(true)),
    ]);
    let after = SessionState {
        context_tokens: 3,
        cumulative_tokens: 90,
        ..state("s1")
    };
    let actions = repl.replied(Lang::En, after, &answer);
    (repl, actions)
}

#[test]
fn a_compaction_shows_what_it_used() {
    let (mut repl, actions) = compacting(object(vec![("total_tokens", Json::Unsigned(12))]));
    assert!(matches!(&actions[..], [ReplAction::DecodeUsage]));
    assert!(matches!(
        repl.awaiting,
        Awaiting::CompactionUsage { estimated: true }
    ));
    assert_eq!(repl.cumulative.total, 30);
    assert_eq!(repl.footer.token_usage.session_tokens, 7);
    let usage = Usage {
        prompt_tokens: 8,
        completion_tokens: 4,
        total_tokens: 12,
        cache_read_tokens: 5,
    };
    let actions = repl.compaction_read(Lang::En, Ok(usage));
    let want = TokenMeter {
        turn_tokens: 12,
        turn_prompt_tokens: 8,
        turn_cached_tokens: 5,
        session_tokens: 3,
        context_window: Some(1_000),
        cumulative_tokens: Some(90),
        cumulative_prompt_tokens: 20,
        cumulative_cached_tokens: 10,
    };
    assert!(matches!(
        &actions[..],
        [ReplAction::Note(note), ReplAction::PrintTokens { meter, estimated: true }]
            if note == "\x1b[2mcontext compacted\x1b[0m\n" && *meter == want
    ));
    assert!(matches!(repl.awaiting, Awaiting::Input));
    assert_eq!(repl.cumulative.total, 90);
    assert_eq!(repl.footer.token_usage.session_tokens, 3);
}

#[test]
fn unreadable_usage_of_a_compaction_ends_the_prompt() {
    let (mut repl, actions) = compacting(text("none of your business"));
    assert!(matches!(&actions[..], [ReplAction::DecodeUsage]));
    let actions = repl.compaction_read(Lang::En, Err("invalid type".to_string()));
    assert!(matches!(
        &actions[..],
        [ReplAction::Fail(message)] if message == "invalid type"
    ));
    assert_eq!(repl.cumulative.total, 30);
    assert_eq!(repl.footer.token_usage.session_tokens, 7);
}

#[test]
fn a_compaction_without_usage_had_nothing_to_do() {
    let (repl, actions) = compacting(Json::Null);
    assert_eq!(notes(&actions), ["\x1b[2mnothing to compact\x1b[0m\n"]);
    assert!(matches!(repl.awaiting, Awaiting::Input));
    assert_eq!(repl.cumulative.total, 90);
    assert_eq!(repl.footer.token_usage.session_tokens, 3);
}

#[test]
fn usage_is_only_taken_where_it_was_asked_for() {
    let mut repl = repl();
    let actions = repl.compaction_read(Lang::En, Err("late".to_string()));
    assert!(actions.is_empty());
    assert!(matches!(repl.awaiting, Awaiting::Input));
}

#[test]
fn a_reset_forgets_what_was_spent() {
    let mut repl = repl();
    assert_eq!(repl.cumulative.total, 30);
    repl.submitted(Lang::En, AgentMode::Normal, "/reset");
    let actions = repl.replied(Lang::En, state("s1"), &Json::Null);
    assert!(matches!(
        &actions[..],
        [
            ReplAction::ClearInput,
            ReplAction::ReloadQueue,
            ReplAction::Note(_)
        ]
    ));
    assert_eq!(repl.cumulative, TurnTokens::none());
    assert_eq!(repl.footer.token_usage.cumulative_tokens, None);
    assert_eq!(repl.footer.token_usage.turn_tokens, 0);
}

#[test]
fn failures_are_noted_or_worked_around() {
    let mut repl = repl();
    repl.submitted(Lang::En, AgentMode::Normal, "/archive");
    assert_eq!(
        notes(&repl.failed(Lang::En, "gone")),
        ["\x1b[31merror: gone\x1b[0m\n"]
    );
    assert!(matches!(repl.awaiting, Awaiting::Input));

    repl.stop_jobs();
    let actions = repl.failed(Lang::En, "gone");
    assert_eq!(
        notes(&actions),
        [
            "\x1b[31merror: gone\x1b[0m\n",
            "\x1b[2mstopped 0 background task(s)\x1b[0m\n"
        ]
    );
    repl.stop_jobs();
    assert_eq!(
        notes(&repl.replied(
            Lang::En,
            state("s1"),
            &object(vec![("stopped", Json::Unsigned(2))])
        )),
        ["\x1b[2mstopped 2 background task(s)\x1b[0m\n"]
    );

    // A session that is gone makes way for the daemon's own.
    repl.config_closed();
    repl.replied(Lang::En, state("s1"), &Json::Null);
    assert!(matches!(
        &repl.failed(Lang::En, "gone")[..],
        [ReplAction::Ask(ReplRequest::Status)]
    ));
    assert!(matches!(
        &repl.replied(Lang::En, state("other"), &Json::Null)[..],
        [ReplAction::Switch, ReplAction::Rebuild]
    ));
    assert!(matches!(
        &repl.rebuilt(Lang::En, &config(), None)[..],
        [ReplAction::ShowFooter, ReplAction::Note(note)] if note == "configuration reloaded\n"
    ));

    repl.models_picked(Ok(()));
    repl.failed(Lang::En, "gone");
    assert!(matches!(
        &repl.failed(Lang::En, "really gone")[..],
        [ReplAction::Fail(message)] if message == "really gone"
    ));
}

#[test]
fn a_turn_ends_in_one_of_four_ways() {
    let mut repl = repl();
    let result = ChatResult {
        content: "reply".to_string(),
        usage: Some(Usage {
            prompt_tokens: 4,
            completion_tokens: 2,
            total_tokens: 6,
            cache_read_tokens: 1,
        }),
        usage_estimated: false,
        provider_id: None,
        model: None,
    };
    let total = TurnTokens {
        total: 36,
        prompt: 24,
        cache_read: 11,
    };
    let actions = repl.turn_ended(
        Lang::En,
        TurnEnd::Finished {
            result,
            context_tokens: 50,
            context_window: Some(100),
            cumulative: total,
        },
    );
    assert!(matches!(
        &actions[..],
        [ReplAction::FetchJobs, ReplAction::RefreshFooter]
    ));
    assert_eq!(repl.cumulative, total);
    assert_eq!(repl.footer.token_usage.turn_tokens, 6);
    assert_eq!(repl.footer.token_usage.session_tokens, 50);

    assert!(matches!(
        &repl.turn_ended(Lang::En, TurnEnd::CoreStopped)[..],
        [ReplAction::Fail(_)]
    ));
    assert!(matches!(
        &repl.turn_ended(Lang::En, TurnEnd::Cancelled)[..],
        [ReplAction::Frame(frame), ReplAction::Ask(ReplRequest::SessionState { .. })]
            if frame == "\x1b[2mcancelled\x1b[0m\n\n"
    ));
    repl.replied(Lang::En, state("s1"), &Json::Null);
    assert_eq!(repl.cumulative.total, 30);
    assert!(matches!(
        &repl.turn_ended(Lang::En, TurnEnd::Failed("broken".to_string()))[..],
        [ReplAction::Frame(frame), ReplAction::Ask(_)] if frame == "\x1b[31merror: broken\x1b[0m\n\n"
    ));
    assert!(repl.replied(Lang::En, state("s1"), &Json::Null).is_empty());

    assert_eq!(
        farewell_note(Lang::En, &object(vec![("stopped", Json::Unsigned(3))])).as_deref(),
        Some("\x1b[2mstopped 3 background command(s)\x1b[0m")
    );
    assert_eq!(farewell_note(Lang::En, &Json::Null), None);
}

#[test]
fn a_note_is_written_above_the_tail() {
    let mut live = LiveReplTail::new(
        AgentMode::Normal,
        Vec::new(),
        Vec::new(),
        ReplFooterStatus::from_config(Lang::En, &config(), 0, TurnTokens::none()),
        (0, 3),
    );
    let steps = repl_note(&mut live, "hello", (80, 24));
    assert!(matches!(&steps[0], TerminalOp::Bytes(bytes) if bytes == b"hello\n"));
    assert!(matches!(&steps[1], TerminalOp::QueryOutputCursor));
}

fn models() -> Vec<ModelEntry> {
    [("openai", "gpt-5", true), ("zen", "pickle", false)]
        .into_iter()
        .map(|(provider, model, active)| ModelEntry {
            provider_id: provider.to_string(),
            model: model.to_string(),
            label: format!("{provider} / {model}"),
            active,
        })
        .collect()
}

fn choice(provider: &str, model: &str) -> ModelChoice {
    ModelChoice {
        provider_id: provider.to_string(),
        model: model.to_string(),
    }
}

#[test]
fn models_of_a_session_are_marked_and_chosen() {
    let models = models();
    let own = Some(vec![choice("zen", "pickle")]);
    assert_eq!(initial_marks(&models, &None), [true, false]);
    assert_eq!(initial_marks(&models, &own), [false, true]);
    assert_eq!(
        print_model_choices(Lang::En, &models, &own),
        [
            "[ ] 1. openai / gpt-5",
            "[*] 2. zen / pickle",
            "[*] = models pinned to the current session"
        ]
    );
    assert_eq!(
        run_list_models(Lang::En, &models, &None).unwrap().len(),
        4
    );
    assert!(run_list_models(Lang::En, &Vec::new(), &None).is_err());

    let (chosen, note) = models_picked(
        Lang::En,
        &models,
        &vec![true, false],
        &vec![true, true],
    );
    let chosen = chosen.unwrap();
    assert_eq!(chosen.len(), 2);
    assert_eq!(chosen[1].model, "pickle");
    assert_eq!(note, "session models updated");
    let (chosen, note) = models_picked(
        Lang::En,
        &models,
        &vec![true, false],
        &vec![false, false],
    );
    assert!(chosen.unwrap().is_empty());
    assert_eq!(note, "this session now follows the global active pool");
    let (chosen, note) = models_picked(
        Lang::En,
        &models,
        &vec![true, false],
        &vec![true, false],
    );
    assert!(chosen.is_none());
    assert_eq!(note, "no changes");

    assert!(set_session_models(Lang::En, &models, Vec::new())
        .unwrap()
        .is_none());
    assert!(
        set_session_models(Lang::En, &models, vec![choice("zen", "pickle")])
            .unwrap()
            .is_some()
    );
    assert_eq!(
        set_session_models(Lang::En, &models, vec![choice("zen", "other")]).unwrap_err(),
        "unknown model: zen/other"
    );
    assert!(matches!(
        run_models_for_session(Lang::En, true, Some(" Default "), true),
        Ok(ModelsRequest::FollowGlobal)
    ));
    assert!(matches!(
        run_models_for_session(Lang::En, true, None, false),
        Ok(ModelsRequest::List)
    ));
    assert!(run_models_for_session(Lang::En, false, None, true).is_err());

    assert_eq!(session_model_override_snapshot(Some("x"), "y"), "x");
    assert_eq!(session_model_override_snapshot(None, "y"), "y");
    let mut active = None;
    assert!(apply_session_model_override(
        &mut active,
        Err("busy".to_string())
    ));
    assert!(active.is_none());
    assert!(!apply_session_model_override(
        &mut active,
        Ok(Some(vec![choice("zen", "pickle")]))
    ));
    assert_eq!(active.unwrap().len(), 1);
    assert!(footer_config_for_session(None, Ok(None)).is_none());
}

#[test]
fn personas_are_listed_and_found() {
    let files = ["b.md", "System-Prompt.md", "Alice.md", "notes.txt"]
        .map(String::from)
        .to_vec();
    let personas = list_persona_files(&files);
    assert_eq!(personas, ["Alice.md", "b.md"]);
    assert_eq!(persona_named(Lang::En, &personas, "alice").unwrap(), "Alice.md");
    assert_eq!(persona_named(Lang::En, &personas, "LIC.md").unwrap(), "Alice.md");
    assert_eq!(persona_named(Lang::En, &personas, "Laozhou").unwrap(), "");
    assert_eq!(persona_named(Lang::En, &personas, "内置").unwrap(), "");
    assert_eq!(
        persona_named(Lang::En, &personas, "zed").unwrap_err(),
        "no persona file matches: zed"
    );
    let (items, initial) = persona_menu(Lang::En, &personas, "b.md");
    assert_eq!(items, ["Laozhou (built-in default)", "Alice.md", "b.md"]);
    assert_eq!(initial, 2);
    assert_eq!(persona_menu(Lang::En, &personas, "gone.md").1, 0);
    assert_eq!(persona_at(&personas, 0).as_deref(), Some(""));
    assert_eq!(persona_at(&personas, 2).as_deref(), Some("b.md"));
    assert_eq!(persona_at(&personas, 3), None);
    assert_eq!(
        persona_listing(Lang::En, &personas, ""),
        [
            "current persona: Laozhou (built-in default)",
            "  Alice.md",
            "  b.md",
            "switch with: /persona <name>"
        ]
    );
    assert_eq!(
        run_persona_picker(Lang::En, "b.md", "b.md"),
        (false, "no changes".to_string())
    );
    assert_eq!(
        run_persona_picker(Lang::En, "b.md", ""),
        (
            true,
            "active persona: Laozhou (built-in default)".to_string()
        )
    );
}
