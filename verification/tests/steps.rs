use laozhou::about::{help_text, help_texts};
use laozhou::args::{
    KbCommand, KbEmbedArgs, KbEmbedCommand, KbEmbedReindexArgs, KbSearchArgs, MemoryCommand,
    MemoryRememberArgs, MemorySearchArgs,
};
use laozhou::chat::{expand_shell_pasted_text_placeholders, extract_image_placeholders};
use laozhou::daemon::{restart_next, RestartPhase};
use laozhou::jobs::{job_ids, JobOverview};
use laozhou::json::Json;
use laozhou::knowledge::{
    kb_report, memory_report, run_kb, run_memory, KbAnswer, KbFile, KbRequest, MemoryAnswer,
    MemoryRequest,
};
use laozhou::lang::Lang;
use laozhou::menu::menu_anchor;
use laozhou::mode::AgentMode;
use laozhou::notices::{notice, Notice};
use laozhou::remote::{
    handle_agent_event, question_step, queue_step, remote_event_calls, waits_on, QuestionReply,
    QuestionStep, QueueStep, RemoteEvent, RendererCall,
};
use laozhou::screen::{synchronized_terminal_update, CursorAfterUpdate};
use laozhou::daemon::RestartPhase::{
    Discard, Fail, Launch, Prepare, Refresh, ShowStatus, Stop,
};
use laozhou::screen::TerminalOp::{BeginUpdate, ClearLine, EndUpdate, HideCursor, ShowCursor};
use laozhou::session::{fallback_entry, session_list_entries, SessionListEntry};

fn session(id: &str, current: bool) -> Json {
    Json::Object(vec![
        ("session_id".to_string(), Json::Text(id.to_string())),
        ("is_current".to_string(), Json::Bool(current)),
    ])
}

fn listed(sessions: Vec<Json>) -> Vec<SessionListEntry> {
    session_list_entries(&Json::Object(vec![(
        "sessions".to_string(),
        Json::Array(sessions),
    )]))
}

#[test]
fn leaving_a_question_stops_the_turn() {
    assert_eq!(question_step(QuestionReply::Answered), QuestionStep::Answer);
    assert_eq!(
        question_step(QuestionReply::Unavailable),
        QuestionStep::Close
    );
    assert_eq!(
        question_step(QuestionReply::Closed),
        QuestionStep::CancelTurn
    );
    assert_eq!(
        question_step(QuestionReply::Cancelled),
        QuestionStep::CancelTurn
    );
}

#[test]
fn a_refused_message_is_given_back() {
    assert!(matches!(
        queue_step(Lang::En, true, true),
        QueueStep::Append
    ));
    assert!(matches!(
        queue_step(Lang::En, true, false),
        QueueStep::Enqueue
    ));
    for external in [false, true] {
        assert!(matches!(
            queue_step(Lang::En, false, external),
            QueueStep::GiveBack(note)
                if note == "could not queue the message; the reply may have just finished"
        ));
    }
    assert!(matches!(
        queue_step(Lang::Zh, false, false),
        QueueStep::GiveBack(note) if note == "无法排队消息；当前回复可能刚刚结束"
    ));
}

#[test]
fn help_is_told_in_the_language_of_the_user() {
    assert_eq!(
        help_text(Lang::En, "", "plan"),
        Some("Run in read-only planning mode")
    );
    assert_eq!(help_text(Lang::Zh, "", "plan"), Some("使用只读计划模式运行"));
    assert_eq!(
        help_text(Lang::En, "skills prune", ""),
        Some("Remove disabled generated skills")
    );
    assert_eq!(
        help_text(Lang::Zh, "skills remove", "name"),
        Some("skill 名称")
    );
    assert_eq!(help_text(Lang::En, "skills prune", "name"), None);
    for text in help_texts() {
        assert!(help_text(Lang::En, text.command, text.argument).is_some());
    }
}

#[test]
fn the_prompt_falls_back_to_a_listed_session() {
    assert_eq!(fallback_entry(&listed(Vec::new())), None);
    assert_eq!(
        fallback_entry(&listed(vec![session("a", false), session("b", false)])),
        Some("a".to_string())
    );
    assert_eq!(
        fallback_entry(&listed(vec![session("a", false), session("b", true)])),
        Some("b".to_string())
    );
}

#[test]
fn a_plain_message_is_kept() {
    let message = "nothing [here] to fill";
    assert_eq!(extract_image_placeholders(message, Vec::new()).0, message);
    assert_eq!(
        expand_shell_pasted_text_placeholders(message, &Vec::new()),
        message
    );
}

/// The phases of a restart that fails where `failing` says so.
fn restart(prepared: bool, failing: Option<RestartPhase>) -> Vec<RestartPhase> {
    let mut phase = RestartPhase::Prepare;
    let mut path = vec![phase];
    while phase != RestartPhase::ShowStatus && phase != RestartPhase::Fail {
        phase = restart_next(phase, prepared, failing == Some(phase));
        path.push(phase);
    }
    path
}

#[test]
fn a_failed_restart_leaves_nothing_behind() {
    for prepared in [false, true] {
        assert_eq!(
            restart(prepared, None),
            [Prepare, Stop, Refresh, Launch, ShowStatus]
        );
        assert_eq!(restart(prepared, Some(Prepare)), [Prepare, Fail]);
    }
    assert_eq!(restart(true, Some(Stop)), [Prepare, Stop, Discard, Fail]);
    assert_eq!(restart(false, Some(Stop)), [Prepare, Stop, Fail]);
    assert_eq!(
        restart(true, Some(Refresh)),
        [Prepare, Stop, Refresh, Discard, Fail]
    );
    assert_eq!(
        restart(true, Some(Launch)),
        [Prepare, Stop, Refresh, Launch, Discard, Fail]
    );
}

#[test]
fn jobs_are_stopped_while_they_run() {
    let job = |id: &str, running: bool| JobOverview {
        job_id: id.to_string(),
        title: String::new(),
        kind: "command".to_string(),
        status: String::new(),
        runtime_seconds: 0,
        session_id: None,
        running,
    };
    let jobs = vec![job("a", true), job("b", false), job("c", true)];
    assert_eq!(job_ids(&jobs, true), ["a", "c"]);
    assert_eq!(job_ids(&jobs, false), ["b"]);
    assert!(job_ids(&Vec::new(), true).is_empty());
}

#[test]
fn events_of_the_daemon_are_drawn_for_its_clients() {
    assert!(handle_agent_event(Lang::En, RemoteEvent::Superseded).is_empty());
    assert!(matches!(
        &remote_event_calls(Lang::En, RemoteEvent::Superseded, false)[..],
        [RendererCall::ResetReasoning]
    ));
    let consumed = || RemoteEvent::QueueConsumed {
        prompt_ids: vec!["q1".to_string()],
        mode: AgentMode::Plan,
    };
    assert!(handle_agent_event(Lang::En, consumed()).is_empty());
    assert!(remote_event_calls(Lang::En, consumed(), false).is_empty());
    assert!(matches!(
        &remote_event_calls(Lang::En, consumed(), true)[..],
        [RendererCall::PrepareForExternalOutput]
    ));
    assert!(matches!(
        &remote_event_calls(Lang::Zh, RemoteEvent::CompactStart, true)[..],
        [RendererCall::WriteSystemMessage(text), RendererCall::TickSpinner]
            if text == "正在压缩上下文..."
    ));
    assert!(waits_on(QuestionReply::Closed));
    assert!(!waits_on(QuestionReply::Cancelled));
}

#[test]
fn an_update_of_the_screen_is_enclosed() {
    assert!(matches!(
        &synchronized_terminal_update(CursorAfterUpdate::Preserve, vec![ClearLine])[..],
        [BeginUpdate, ClearLine, EndUpdate]
    ));
    assert!(matches!(
        &synchronized_terminal_update(CursorAfterUpdate::Shown, vec![ClearLine])[..],
        [HideCursor, BeginUpdate, ClearLine, EndUpdate, ShowCursor]
    ));
    assert!(matches!(
        &synchronized_terminal_update(CursorAfterUpdate::Hidden, Vec::new())[..],
        [HideCursor, BeginUpdate, EndUpdate]
    ));
}

#[test]
fn a_menu_ends_at_the_cursor() {
    assert_eq!(menu_anchor(Some((4, 20)), 12), 9);
    assert_eq!(menu_anchor(Some((4, 5)), 12), 0);
    assert_eq!(menu_anchor(None, 12), 0);
}

#[test]
fn notices_are_told_in_the_language_of_the_user() {
    assert_eq!(notice(Lang::En, Notice::Cancelled), "cancelled");
    assert_eq!(notice(Lang::Zh, Notice::Cancelled), "已取消");
    assert_eq!(
        notice(Lang::En, Notice::DaemonNotRunning),
        "Laozhou daemon is not running"
    );
}

#[test]
fn the_knowledge_base_is_asked_and_reported() {
    let words = || vec!["how".to_string(), "to ".to_string(), "boot".to_string()];
    assert!(matches!(
        run_kb(KbCommand::Search(KbSearchArgs { query: words(), limit: Some(3) })),
        KbRequest::Search { query, limit: Some(3) } if query == "how to  boot"
    ));
    assert!(matches!(run_kb(KbCommand::Reindex), KbRequest::List));
    let embed = KbEmbedArgs {
        command: KbEmbedCommand::Reindex(KbEmbedReindexArgs { quiet: true }),
    };
    assert!(matches!(
        run_kb(KbCommand::Embed(embed)),
        KbRequest::Embed { quiet: true }
    ));
    assert_eq!(
        kb_report(
            Lang::En,
            KbAnswer::Added(vec!["a.md".to_string(), "b.md".to_string()])
        ),
        ["added a.md", "added b.md"]
    );
    let file = KbFile {
        name: "a.md".to_string(),
        size_bytes: 12,
    };
    assert_eq!(
        kb_report(Lang::En, KbAnswer::Listed(vec![file])),
        ["a.md\t12 bytes"]
    );
    assert_eq!(
        kb_report(Lang::En, KbAnswer::Indexed(2)),
        ["keyword index is rebuilt on demand; files tracked: 2"]
    );
    assert_eq!(
        kb_report(Lang::Zh, KbAnswer::Removed("a.md".to_string())),
        ["已移除 a.md"]
    );
    assert_eq!(
        kb_report(Lang::En, KbAnswer::Text("found".to_string())),
        ["found"]
    );
    assert!(kb_report(Lang::En, KbAnswer::Done).is_empty());
}

#[test]
fn the_memory_is_asked_and_reported() {
    let search = MemorySearchArgs {
        query: vec![" tea ".to_string()],
        limit: None,
        forgotten: true,
    };
    assert!(matches!(
        run_memory(MemoryCommand::Search(search)),
        MemoryRequest::Search { query, limit: 10, forgotten: true } if query == "tea"
    ));
    let fact = MemoryRememberArgs {
        content: vec!["likes".to_string(), "tea".to_string()],
        source: "cli".to_string(),
    };
    assert!(matches!(
        run_memory(MemoryCommand::Remember(fact)),
        MemoryRequest::Remember { content, source } if content == "likes tea" && source == "cli"
    ));
    assert_eq!(
        memory_report(Lang::En, MemoryAnswer::Remembered("7".to_string())),
        "remembered fact: 7"
    );
    assert_eq!(
        memory_report(Lang::En, MemoryAnswer::Cleared),
        "cleared assistant memory"
    );
}
