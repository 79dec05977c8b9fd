use laozhou::commands::{
    complete_repl_command, parse_repl_input, repl_command_table, repl_help_lines, ReplInput,
};
use laozhou::daemon_log::{
    check_log_lines, daemon_process_alive, format_daemon_log_line, lines_wanted,
    recent_daemon_log_lines, tail_file_lines, DaemonLogFollowCursor,
    DaemonLogStreamFormatter, FileTail, LogFollower,
};
use laozhou::echo::{QueuedPrompt, QueuedPromptAttachment};
use laozhou::edit::{
    insert_char_at_cursor, insert_str_at_cursor, remove_char_before_cursor, remove_range_chars,
};
use laozhou::editor::{
    Event, KeyCode, KeyModifiers, LiveEditorAction, LiveReplEditor, PromptAction,
};
use laozhou::footer::{short_model_name, ModelConfig, ReplFooterStatus};
use laozhou::frame::terminal_frame_layout;
use laozhou::jobs::{
    background_job_lines, format_job_duration, retain_session_jobs, BackgroundReport, JobOverview,
    JobsFeed, ReportRow, SharedJobsFeed, WakeRun, Watermarks,
};
use laozhou::json::Json;
use laozhou::keyboard::{KeyboardEnhancementState, LiveRawMode};
use laozhou::lang::Lang;
use laozhou::layout::repl_move_cursor_vertical_for_cols;
use laozhou::live::{
    handle_live_agent_event, idle_tick, run_live_agent_turn, watch_input, AgentEventKind, IdleStep,
    LiveEventStep, LocalTurnStep, WatchInput,
};
use laozhou::menu::{InlineSelectOutcome, Menu, MenuEnd, MenuKind, SinglePicker};
use laozhou::mode::{ipc_mode_from_name, ipc_mode_name, AgentMode};
use laozhou::paste::pasted_text_placeholder;
use laozhou::picker::{fuzzy_matches, inline_fuzzy_scroll};
use laozhou::placeholder::{
    expand_pasted_text_placeholders, find_repl_placeholders, placeholder_after_or_at_cursor,
    placeholder_before_or_at_cursor, PastedText,
};
use laozhou::placement::{live_tail_next_start, live_tail_placement};
use laozhou::pop::{
    chosen_turns, execute_pop, pop_outcome, pop_step, run_pop, PopPath, PopRequest, PopStep,
};
use laozhou::remote::{
    decode_event, handle_agent_event, remote_turn_summary, strip_tick, turn_input, RemoteTurn,
    RendererCall, TurnInput, TurnStep,
};
use laozhou::sanitize::strip_terminal_control_sequences;
use laozhou::screen::TerminalOp;
use laozhou::tail::{ChatStreamKind, LiveReplTail};
use laozhou::tokens::{format_compact_count, TurnTokens};
use laozhou::transfer::{
    archive_name_at, default_export_name, import_blocked, readable_bytes, run_export, run_import,
    ExportOptions, ExportReport, ImportReport,
};
use laozhou::usage::{compact_watermark_text, prints_meter_again, WatermarkThresholds};
use laozhou::variant::{
    execute_variant, run_variant, variant_menu, variant_menu_column_widths, ThinkingVariantOptions,
    VariantMenuItem, VariantPlan,
};
use laozhou::width::{
    pad_visible_width, truncate_display, truncate_visible_width, visible_width, wrap_visible_width,
};

const PLAIN: KeyModifiers = KeyModifiers {
    control: false,
    shift: false,
};
const CONTROL: KeyModifiers = KeyModifiers {
    control: true,
    shift: false,
};
const SIZE: Option<(u16, u16)> = Some((80, 24));

fn key(code: KeyCode, modifiers: KeyModifiers) -> Event {
    Event::Key {
        code,
        modifiers,
        release: false,
    }
}

fn strings(values: &[&str]) -> Vec<String> {
    values.iter().map(|value| value.to_string()).collect()
}

fn footer() -> ReplFooterStatus {
    let config = ModelConfig {
        active: Vec::new(),
        context_window: None,
        windows: Vec::new(),
        mixed_model_endpoint_display: String::new(),
    };
    ReplFooterStatus::from_config(Lang::En, &config, 0, TurnTokens::none())
}

fn tail() -> LiveReplTail {
    LiveReplTail::new(
        AgentMode::Normal,
        Vec::new(),
        Vec::new(),
        footer(),
        (0, 2),
    )
}

fn queued(id: &str, seq: i64) -> QueuedPrompt {
    QueuedPrompt {
        prompt_id: id.to_string(),
        seq,
        content: id.to_string(),
        display_content: id.to_string(),
        attachments: vec![QueuedPromptAttachment::Path {
            path: "/x".to_string(),
        }],
        uploaded_attachments: Vec::new(),
        submitted_at: String::new(),
    }
}

fn job(id: &str, session: Option<&str>) -> JobOverview {
    JobOverview {
        job_id: id.to_string(),
        title: "build the world".to_string(),
        kind: "command".to_string(),
        status: "running".to_string(),
        runtime_seconds: 75,
        session_id: session.map(str::to_string),
        running: id != "done",
    }
}

#[test]
fn stripping_is_idempotent_and_keeps_clean_text() {
    let text = "a\x1b[31mb\x1b]0;title\x07c\u{9}d\r\x00";
    let once = strip_terminal_control_sequences(text);
    assert_eq!(strip_terminal_control_sequences(&once), once);
    assert!(!once.contains('\x1b'));
    assert_eq!(strip_terminal_control_sequences("kept 文字\n"), "kept 文字\n");
}

#[test]
fn placeholders_are_apart_and_touched_one_at_a_time() {
    let input = "[Image 1][Pasted 2: ~3 lines] x [Image 3: a.png]";
    let found = find_repl_placeholders(input);
    assert_eq!(found.len(), 3);
    for pair in found.windows(2) {
        assert!(pair[0].0 < pair[0].1 && pair[0].1 <= pair[1].0);
    }
    assert_eq!(placeholder_before_or_at_cursor(input, 9), Some((0, 9)));
    assert_eq!(placeholder_after_or_at_cursor(input, 9), Some((9, 29)));
    assert!(find_repl_placeholders("[Image x] [Pasted 1").is_empty());
}

#[test]
fn pasted_text_comes_back() {
    for lang in [Lang::En, Lang::Zh] {
        let token = pasted_text_placeholder(lang, 2, 40);
        assert_eq!(find_repl_placeholders(&token), [(0, token.chars().count())]);
        let pasted = vec![
            None,
            Some(PastedText {
                text: "long".to_string(),
            }),
        ];
        assert_eq!(
            expand_pasted_text_placeholders(&format!("a {token} b"), &pasted),
            "a long b"
        );
        assert_eq!(expand_pasted_text_placeholders("plain", &pasted), "plain");
    }
    assert_eq!(
        expand_pasted_text_placeholders("[Pasted 9: ~3 lines]", &Vec::new()),
        "[Pasted 9: ~3 lines]"
    );
}

#[test]
fn taking_back_undoes_inserting() {
    let mut value = "中文".to_string();
    let mut cursor = 1;
    insert_char_at_cursor(&mut value, &mut cursor, 'x');
    remove_char_before_cursor(&mut value, &mut cursor);
    assert_eq!((value.as_str(), cursor), ("中文", 1));
    insert_str_at_cursor(&mut value, &mut cursor, "abc");
    remove_range_chars(&mut value, 1, 4);
    assert_eq!(value, "中文");
}

#[test]
fn vertical_moves_stay_in_the_text() {
    let text = "abcdef\nxy";
    for cursor in 0..=9 {
        for direction in [-1, 1] {
            let moved = repl_move_cursor_vertical_for_cols("  ", text, cursor, direction, 8);
            assert!(moved <= 9);
            assert_eq!(
                moved,
                repl_move_cursor_vertical_for_cols("  ", text, cursor, direction, 8)
            );
        }
    }
    assert_eq!(repl_move_cursor_vertical_for_cols("", "ab\ncd", 1, 1, 80), 4);
}

#[test]
fn widths_are_kept() {
    for max in 0..12 {
        assert!(visible_width(&truncate_visible_width("ab中文cd", max)) <= max);
        assert_eq!(
            visible_width(&pad_visible_width(
                &truncate_visible_width("ab中文cd", max),
                max
            )),
            max
        );
    }
    assert_eq!(
        wrap_visible_width("ab中文cd", 4).concat(),
        "ab中文cd"
    );
    assert_eq!(wrap_visible_width("ab中文cd", 4), ["ab中", "文cd"]);
    assert_eq!(truncate_display("abcdef", 4), "abc…");
}

#[test]
fn modes_are_named_and_cycle() {
    for mode in [AgentMode::Normal, AgentMode::Plan, AgentMode::Chat] {
        assert_eq!(ipc_mode_from_name(ipc_mode_name(mode)), mode);
        assert_eq!(mode.next().next().next(), mode);
        assert_ne!(mode.next(), mode);
    }
}

#[test]
fn commands_are_distinct_and_complete_to_themselves() {
    let table = repl_command_table();
    assert_eq!(table.len(), 20);
    for (index, spec) in table.iter().enumerate() {
        assert!(table[..index].iter().all(|other| other.name != spec.name));
        assert!(matches!(
            parse_repl_input(&spec.name.to_uppercase()),
            ReplInput::Slash(command, "") if command == spec.command
        ));
    }
    assert_eq!(complete_repl_command("/wi"), Some("/wipe"));
    assert_eq!(complete_repl_command("/"), None);
    let help = repl_help_lines(Lang::En);
    assert_eq!(help.len(), 20);
    assert!(help[0].starts_with("  /new [name]"));
}

#[test]
fn keys_keep_the_cursor_inside() {
    let mut editor = LiveReplEditor::new(AgentMode::Normal, strings(&["old entry"]));
    for code in [
        KeyCode::Char('a'),
        KeyCode::Left,
        KeyCode::Left,
        KeyCode::Char('[') ,
        KeyCode::Home,
        KeyCode::Backspace,
        KeyCode::End,
        KeyCode::Right,
        KeyCode::Up,
        KeyCode::Down,
        KeyCode::Delete,
    ] {
        editor.edit_key(code, PLAIN, SIZE);
        assert!(editor.cursor <= editor.input.chars().count());
    }
}

#[test]
fn escape_twice_interrupts_and_keeps_the_draft() {
    let mut editor = LiveReplEditor::new(AgentMode::Normal, Vec::new());
    editor.input = "draft".to_string();
    let escape = || key(KeyCode::Esc, PLAIN);
    assert!(matches!(
        editor.handle_event(Lang::En, escape(), 0, SIZE, true),
        LiveEditorAction::Redraw
    ));
    assert!(editor.escape_armed_until.is_some());
    // Any other event disarms.
    editor.handle_event(Lang::En, key(KeyCode::Left, PLAIN), 10, SIZE, true);
    assert!(editor.escape_armed_until.is_none());
    editor.handle_event(Lang::En, escape(), 20, SIZE, true);
    // Too late.
    assert!(matches!(
        editor.handle_event(Lang::En, escape(), 2_020, SIZE, true),
        LiveEditorAction::Redraw
    ));
    assert!(matches!(
        editor.handle_event(Lang::En, escape(), 2_030, SIZE, true),
        LiveEditorAction::Interrupt
    ));
    assert_eq!(editor.input, "draft");
    let control_c = || key(KeyCode::Char('c'), CONTROL);
    assert!(matches!(
        editor.handle_event(Lang::En, control_c(), 3_000, SIZE, true),
        LiveEditorAction::Redraw
    ));
    assert_eq!(editor.input, "");
    assert!(matches!(
        editor.handle_event(Lang::En, control_c(), 3_000, SIZE, true),
        LiveEditorAction::Interrupt
    ));
    assert!(matches!(
        editor.handle_event(Lang::En, key(KeyCode::Char('d'), CONTROL), 3_000, SIZE, true),
        LiveEditorAction::Exit
    ));
}

#[test]
fn the_plain_prompt_submits_what_was_typed() {
    let mut editor = LiveReplEditor::for_prompt(AgentMode::Normal, "again\x1b[0m", Vec::new());
    assert_eq!(editor.cursor, 5);
    assert!(matches!(
        editor.read_repl_input(Lang::En, key(KeyCode::Char('!'), PLAIN), SIZE),
        PromptAction::Render
    ));
    assert!(matches!(
        editor.read_repl_input(Lang::En, key(KeyCode::Enter, PLAIN), SIZE),
        PromptAction::Submit { content, echo, .. } if content == "again!" && echo == "again!"
    ));
}

#[test]
fn escape_keeps_the_draft_of_the_plain_prompt() {
    let mut editor = LiveReplEditor::for_prompt(AgentMode::Plan, "draft", Vec::new());
    assert!(matches!(
        editor.read_repl_input(Lang::En, key(KeyCode::Esc, PLAIN), SIZE),
        PromptAction::Render
    ));
    assert_eq!((editor.input.as_str(), editor.cursor), ("draft", 5));
    assert!(matches!(
        editor.read_repl_input(Lang::En, key(KeyCode::Enter, PLAIN), SIZE),
        PromptAction::Submit { content, images, .. } if content == "draft" && images.is_empty()
    ));
    assert_eq!(editor.mode, AgentMode::Plan);
}

#[test]
fn output_stays_above_the_margin() {
    let layout = terminal_frame_layout(b"a\nb\nc\nd\n", (0, 3), 10, Some(4));
    assert!(layout.cursor.1 <= 4);
    assert!(layout.occupied_bottom.unwrap() <= 4);
}

#[test]
fn the_same_total_moves_nothing() {
    let mut footer = footer();
    let total = TurnTokens {
        total: 5,
        prompt: 4,
        cache_read: 1,
    };
    assert!(footer.update_cumulative_tokens(total));
    assert!(!footer.update_cumulative_tokens(total));
    assert_eq!(short_model_name("zen/models/big-pickle", "zen"), "big-pickle");
    assert_eq!(format_compact_count(999), "999");
    assert_eq!(format_compact_count(1_500), "1.5k");
    assert_eq!(format_compact_count(2_000_000), "2M");
}

#[test]
fn background_turns_are_claimed_and_reported_once() {
    let mut shared = SharedJobsFeed::new();
    shared.repl_session = Some("s".to_string());
    shared.absorb_overview(
        vec![job("j1", Some("s")), job("j2", Some("other"))],
        vec![WakeRun {
            run_id: "r1".to_string(),
            session_id: "s".to_string(),
            label: "done".to_string(),
        }],
    );
    assert_eq!(shared.jobs.len(), 1);
    let mut marks = Watermarks { seen: Vec::new() };
    assert_eq!(marks.start("s", 7), 7);
    shared.mark_rendered("t1");
    let row = |seq: i64, turn: &str| ReportRow {
        seq,
        turn_id: turn.to_string(),
        display: "d".to_string(),
        reply: "r".to_string(),
    };
    shared.absorb_reports(&mut marks, "s", vec![row(8, "t1"), row(9, "t2")]);
    assert_eq!(marks.find("s"), Some(9));
    assert_eq!(marks.start("s", 1), 9);
    let mut feed = JobsFeed::Shared(shared);
    assert_eq!(
        feed.claim_wake_run("s"),
        Some(("r1".to_string(), "done".to_string()))
    );
    assert_eq!(feed.claim_wake_run("s"), None);
    let reports = feed.take_reports();
    assert_eq!(reports.len(), 1);
    assert_eq!(reports[0].turn_id, "t2");
    assert!(feed.take_reports().is_empty());

    let mut jobs = vec![job("a", Some("x")), job("b", None)];
    retain_session_jobs(&mut jobs, Some("x"));
    assert!(jobs.iter().any(|job| job.job_id == "a"));
    assert_eq!(format_job_duration(59), "59s");
    assert_eq!(format_job_duration(75), "1m 15s");
    assert_eq!(format_job_duration(3_661), "1h 01m");
    let lines = background_job_lines(Lang::En, &vec![job("a", None)], 0, 40);
    assert_eq!(lines.len(), 2);
    assert!(lines.iter().all(|line| visible_width(line) <= 40));
    let lines = background_job_lines(Lang::En, &vec![job("a", None), job("b", None)], 0, 40);
    assert_eq!(lines.len(), 4);
    assert!(lines[0].is_empty() && lines[2].is_empty());
    assert!(lines[1].contains("a · build the world") && lines[3].contains("b · build the world"));
    assert!(background_job_lines(Lang::En, &Vec::new(), 0, 40).is_empty());
}

#[test]
fn an_idle_prompt_draws_only_what_moved() {
    let mut live = tail();
    let mut feed = JobsFeed::Local(Vec::new());
    assert!(matches!(
        idle_tick(&mut live, &mut feed, vec![job("a", None)], true, None),
        IdleStep::Wait
    ));
    assert!(live.jobs.is_empty());
    assert!(matches!(
        idle_tick(&mut live, &mut feed, vec![job("a", None)], false, None),
        IdleStep::Redraw
    ));
    assert!(matches!(
        idle_tick(&mut live, &mut feed, vec![job("a", None)], false, None),
        IdleStep::TickStrip
    ));
    let mut later = job("a", None);
    later.runtime_seconds += 1;
    assert!(matches!(
        idle_tick(&mut live, &mut feed, vec![later.clone()], false, None),
        IdleStep::Redraw
    ));
    assert!(!live.set_jobs(vec![later.clone()]));
    later.title = "another title".to_string();
    assert!(live.set_jobs(vec![later]));
    assert_eq!(live.jobs[0].title, "another title");
}

#[test]
fn the_tail_keeps_its_place() {
    for row in 0..30 {
        let placed = live_tail_placement(3, row, 5, 24, false);
        assert!(placed.tail_start > placed.output_row);
        let anchored = live_tail_placement(0, row, 5, 24, true);
        assert!(anchored.anchored);
        assert_eq!(anchored.tail_start + 5, 23);
    }
    assert_eq!(live_tail_next_start(18, 3, 18), 18);
}

#[test]
fn the_queue_is_in_order() {
    let mut live = tail();
    for (id, seq) in [("b", 2), ("c", 3), ("a", 1)] {
        live.append_queued(queued(id, seq));
    }
    assert_eq!(
        live.queued
            .iter()
            .map(|prompt| prompt.prompt_id.as_str())
            .collect::<Vec<_>>(),
        ["a", "b", "c"]
    );
    let steps = live.consume_queued(&strings(&["a", "c"]), AgentMode::Normal, 80, 24);
    assert!(!steps.is_empty());
    assert_eq!(live.queued.len(), 1);
    assert!(live
        .drop_queued(Lang::En, &strings(&["zz"]), (80, 24))
        .is_empty());
    assert!(!live
        .drop_queued(Lang::En, &strings(&["b"]), (80, 24))
        .is_empty());
    assert!(live.queued.is_empty());
    assert!(live.rendered);
    assert!(matches!(
        live.show_background_report(
            &BackgroundReport {
                turn_id: "t".to_string(),
                headline: "[后台任务完成] x".to_string(),
                reply: "r".to_string(),
            },
            &strings(&["r"]),
            24
        )
        .first(),
        Some(_)
    ));
}

#[test]
fn a_reply_is_what_was_streamed() {
    let mut turn = RemoteTurn::new();
    let text = |value: &str| {
        Json::Object(vec![("delta".to_string(), Json::Text(value.to_string()))])
    };
    let mut steps = Vec::new();
    for (kind, value) in [
        ("assistant.delta", "Hel"),
        ("reasoning.delta", "why"),
        ("assistant.delta", "lo"),
    ] {
        let event = decode_event(kind, &text(value));
        steps.push(turn.absorb(&event));
    }
    assert!(steps.iter().all(|step| matches!(step, TurnStep::Continue)));
    assert!(matches!(
        turn.absorb(&decode_event("run.completed", &Json::Null)),
        TurnStep::Completed
    ));
    let summary = remote_turn_summary(turn, &Json::Null, None);
    assert_eq!(summary.result.content, "Hello");
    assert_eq!(summary.reasoning.as_deref(), Some("why"));
    assert_eq!(summary.context_tokens, 0);
    assert!(matches!(
        decode_event("no such event", &Json::Null),
        laozhou::remote::RemoteEvent::Unknown
    ));
    assert!(handle_agent_event(Lang::En, laozhou::remote::RemoteEvent::Unknown).is_empty());
    assert!(matches!(
        &handle_agent_event(
            Lang::En,
            laozhou::remote::RemoteEvent::Delta {
                kind: ChatStreamKind::Content,
                text: "x".to_string()
            }
        )[..],
        [RendererCall::WriteChunk { .. }, RendererCall::TickSpinner]
    ));
    assert_eq!(strip_tick(7, false), (8, true));
    assert_eq!(strip_tick(7, true), (8, false));
    assert_eq!(strip_tick(u32::MAX, false), (0, true));
    assert!(matches!(
        turn_input(Lang::En, LiveEditorAction::Interrupt, false, true),
        TurnInput::Cancel
    ));
}

#[test]
fn raw_mode_is_handed_over() {
    let mut raw = LiveRawMode::start(KeyboardEnhancementState::enable(false, true));
    raw.handoff();
    let end = raw.end();
    assert!(!end.restore && !end.show_cursor && !end.pop_keyboard);
    let mut adopted = LiveRawMode::adopt(false);
    adopted.keep_cursor_hidden();
    let end = adopted.end();
    assert!(end.restore && !end.show_cursor && end.pop_keyboard);
}

#[test]
fn the_tail_stays_away_while_the_screen_is_taken() {
    let mut live = tail();
    live.external_output_active = true;
    assert_eq!(
        handle_live_agent_event(&mut live, AgentEventKind::Other),
        LiveEventStep::PassOn
    );
    assert!(live.external_output_active);
    assert_eq!(
        handle_live_agent_event(&mut live, AgentEventKind::ToolResult),
        LiveEventStep::HandleAndReturn
    );
    assert!(!live.external_output_active);
}

#[test]
fn log_lines_do_not_depend_on_how_they_are_read() {
    let stream = b"one\r\ntwo\nthree\xff\nrest";
    let mut whole = Vec::new();
    DaemonLogStreamFormatter::new().push(stream, false, &mut whole);
    let mut formatter = DaemonLogStreamFormatter::new();
    let mut piecewise = Vec::new();
    for byte in stream {
        formatter.push(&[*byte], false, &mut piecewise);
    }
    assert_eq!(piecewise, whole);
    assert_eq!(whole, ["one", "two", "three\u{fffd}"]);
    assert_eq!(format_daemon_log_line("foreign line", false), "foreign line");
    let all = vec![strings(&["a", "b"]), strings(&["c", "d"])];
    let tails = vec![
        tail_file_lines("a\nb\n", 3),
        tail_file_lines("c\nd\n", 3),
    ];
    assert_eq!(
        recent_daemon_log_lines(&all, 3),
        recent_daemon_log_lines(&tails, 3)
    );
    assert_eq!(lines_wanted(2, 5), 3);

    let file = b"first\nsecond\nthird\n";
    let mut end = FileTail::new(20_000);
    assert_eq!(end.next_block(1), Some((11_808, 8_192)));
    end = FileTail::new(file.len() as u64);
    assert_eq!(end.next_block(1), Some((0, 19)));
    end.absorb(file[13..].to_vec());
    assert_eq!(end.next_block(1), Some((0, 13)));
    assert_eq!(end.next_block(0), None);
    end.absorb(file[6..13].to_vec());
    assert_eq!(end.newline_count, 2);
    assert_eq!(end.next_block(1), None);
    assert_eq!(end.lines(1), ["third"]);
    end.absorb(file[..6].to_vec());
    assert_eq!(end.next_block(9), None);
    assert_eq!(end.lines(9), ["first", "second", "third"]);
    assert_eq!(end.lines(2), ["second", "third"]);
    assert!(daemon_process_alive(1, false, true));
    assert!(!daemon_process_alive(0, true, true));
    assert!(check_log_lines(Lang::En, 0).is_err());
    assert_eq!(check_log_lines(Lang::En, 100_000), Ok(100_000));
    assert!(check_log_lines(Lang::En, 100_001).is_err());
}

#[test]
fn following_a_log_ends_with_the_daemon() {
    let mut follower = LogFollower::new(
        DaemonLogFollowCursor {
            current: Some("laozhou.2026-07-28.log".to_string()),
            current_offset: 5,
            fallback: None,
            fallback_offset: 0,
        },
        42,
    );
    let plan = follower.rotate(&strings(&["daemon.log", "laozhou.2026-07-29.log"]));
    assert!(plan.current_changed && plan.fallback_changed);
    assert_eq!(plan.old_current.as_deref(), Some("laozhou.2026-07-28.log"));
    assert_eq!(plan.old_offset, 5);
    assert_eq!(follower.offset, 0);
    assert!(follower.reads_current());
    assert!(follower.keep_following(false, None, false, false));
    assert!(follower.keep_following(false, None, false, false));
    assert!(!follower.keep_following(false, None, false, false));
    assert!(follower.keep_following(true, None, false, false));
    assert_eq!(follower.misses, 0);
    assert!(follower.keep_following(false, Some(43), false, false));
    assert_eq!(follower.known_pid, Some(43));
}

#[test]
fn menus_rank_scroll_and_delete_with_care() {
    let items = strings(&["alpha", "beta", "alphabet"]);
    assert_eq!(
        fuzzy_matches(&items, "")
            .iter()
            .map(|found| found.1)
            .collect::<Vec<_>>(),
        [0, 1, 2]
    );
    let found = fuzzy_matches(&items, "alph");
    assert_eq!(found.len(), 2);
    assert_eq!(found, fuzzy_matches(&items, "alph"));
    for selected in 0..20 {
        let first = inline_fuzzy_scroll(selected, 4, 5);
        assert!(first <= selected && selected < first + 5);
    }

    let mut menu = Menu::new(vec![false, false]);
    assert_eq!(
        menu.key(MenuKind::Toggle, KeyCode::Tab, PLAIN, &vec![0, 1]),
        MenuEnd::Open
    );
    assert_eq!(menu.active, [true, false]);
    assert_eq!(
        menu.key(MenuKind::Toggle, KeyCode::Enter, PLAIN, &vec![0, 1]),
        MenuEnd::Confirmed
    );
    assert_eq!(
        menu.key(MenuKind::Toggle, KeyCode::Char('c'), CONTROL, &vec![0, 1]),
        MenuEnd::Cancelled
    );

    let mut picker = SinglePicker::new(2, 1);
    let found = vec![0, 1];
    assert_eq!(
        picker.inline_single_select_deletable(KeyCode::Char('d'), PLAIN, &found, true),
        None
    );
    assert_eq!(picker.query, "d");
    let mut picker = SinglePicker::new(2, 1);
    assert_eq!(
        picker.inline_single_select_deletable(KeyCode::Delete, PLAIN, &found, false),
        None
    );
    assert_eq!(picker.confirming, None);
    assert_eq!(
        picker.inline_single_select_deletable(KeyCode::Delete, PLAIN, &found, true),
        None
    );
    assert_eq!(picker.confirming, Some(1));
    assert_eq!(
        picker.inline_single_select_deletable(KeyCode::Char('y'), PLAIN, &found, true),
        Some(InlineSelectOutcome::Deleted(1))
    );
    let mut picker = SinglePicker::new(2, 0);
    assert_eq!(
        picker.inline_single_select_deletable(KeyCode::Enter, PLAIN, &found, true),
        Some(InlineSelectOutcome::Chosen(0))
    );
}

#[test]
fn variants_are_confirmed_as_they_are() {
    let options = |selected: Option<&str>| ThinkingVariantOptions {
        provider_id: "p".to_string(),
        model: "m".to_string(),
        variants: strings(&["low", "high"]),
        selected: selected.map(str::to_string),
    };
    let item = VariantMenuItem::from_options(&options(Some("high")));
    assert_eq!(item.selection().2.as_deref(), Some("high"));
    let menu = variant_menu(&vec![options(None), options(Some("low"))]);
    assert_eq!(
        menu.selections()
            .into_iter()
            .map(|selection| selection.2)
            .collect::<Vec<_>>(),
        [None, Some("low".to_string())]
    );
    for available in 2..60 {
        let (left, right) = variant_menu_column_widths(Lang::En, &menu.items, available);
        assert!(left + right <= available);
    }
    let available = strings(&["low", "high"]);
    assert!(matches!(
        execute_variant(Lang::En, Some("HIGH"), 1, &available, "/variant"),
        VariantPlan::Assign(Some(name)) if name == "high"
    ));
    assert!(matches!(
        execute_variant(Lang::En, Some("high"), 2, &available, "/variant"),
        VariantPlan::Rejected(_)
    ));
    assert!(matches!(
        execute_variant(Lang::En, None, 2, &available, "/variant"),
        VariantPlan::Choose
    ));
    assert_eq!(
        run_variant(Lang::En, Some(" high "), false),
        Ok(Some("high".to_string()))
    );
    assert!(run_variant(Lang::En, Some(" "), false).is_err());
    assert_eq!(run_variant(Lang::En, None, true), Ok(None));
}

#[test]
fn the_clipboard_redraws_unless_the_screen_is_taken() {
    for external in [false, true] {
        let copy = || LiveEditorAction::Copy("c".to_string());
        let read = || LiveEditorAction::ReadClipboard;
        assert!(matches!(
            turn_input(Lang::En, copy(), external, true),
            TurnInput::Copy { text, redraw } if text == "c" && redraw != external
        ));
        assert!(matches!(
            turn_input(Lang::En, read(), external, true),
            TurnInput::ReadClipboard { redraw } if redraw != external
        ));
        assert!(matches!(
            run_live_agent_turn(copy(), external),
            LocalTurnStep::Copy { text, redraw } if text == "c" && redraw != external
        ));
        assert!(matches!(
            run_live_agent_turn(read(), external),
            LocalTurnStep::ReadClipboard { redraw } if redraw != external
        ));
        assert!(matches!(
            watch_input(copy(), external, true),
            WatchInput::Copy { text, redraw } if text == "c" && redraw != external
        ));
        assert!(matches!(
            watch_input(read(), external, true),
            WatchInput::ReadClipboard { redraw } if redraw != external
        ));
    }
}

#[test]
fn popping_goes_on_by_what_there_is() {
    let some = || strings(&["a", "b"]);
    let oldest = PopRequest::Oldest(2);
    for path in [PopPath::Direct, PopPath::Daemon, PopPath::Prompt] {
        assert!(matches!(
            pop_step(&oldest, some(), None, path),
            PopStep::Pop(ids) if ids == ["a", "b"]
        ));
        assert!(matches!(
            pop_step(&PopRequest::Choose, Vec::new(), None, path),
            PopStep::NothingToPop
        ));
        assert!(matches!(
            pop_step(&PopRequest::Choose, some(), None, path),
            PopStep::OpenMenu
        ));
        assert!(matches!(
            pop_step(&PopRequest::Choose, some(), Some(None), path),
            PopStep::Leave
        ));
        assert!(matches!(
            pop_step(&PopRequest::Choose, some(), Some(Some(vec![false, true])), path),
            PopStep::Pop(ids) if ids == ["b"]
        ));
    }
    let none_marked =
        |path| pop_step(&PopRequest::Choose, some(), Some(Some(vec![false, false])), path);
    assert!(matches!(none_marked(PopPath::Direct), PopStep::Leave));
    assert!(matches!(none_marked(PopPath::Daemon), PopStep::NothingToPop));
    assert!(matches!(none_marked(PopPath::Prompt), PopStep::Pop(ids) if ids.is_empty()));
    for path in [PopPath::Direct, PopPath::Daemon] {
        assert!(matches!(
            pop_step(&oldest, Vec::new(), None, path),
            PopStep::NothingToPop
        ));
    }
    assert!(matches!(
        pop_step(&oldest, Vec::new(), None, PopPath::Prompt),
        PopStep::Pop(ids) if ids.is_empty()
    ));
}

#[test]
fn popping_counts_and_reports() {
    assert!(matches!(
        execute_pop(Lang::En, Some(2), false),
        Ok(PopRequest::Oldest(2))
    ));
    assert!(execute_pop(Lang::En, Some(0), true).is_err());
    assert!(execute_pop(Lang::En, None, false).is_err());
    assert!(matches!(
        execute_pop(Lang::En, None, true),
        Ok(PopRequest::Choose)
    ));
    assert_eq!(
        chosen_turns(&strings(&["a", "b", "c"]), &vec![true, false, true]),
        ["a", "c"]
    );
    assert_eq!(pop_outcome(0, true, true), None);
    assert_eq!(
        run_pop(Lang::En, pop_outcome(2, true, false)).as_deref(),
        Some(
            "\x1b[2mpopped 2 turns · not archived (evicted-context archiving is disabled)\x1b[0m\n"
        )
    );
}

#[test]
fn exports_and_imports_report() {
    assert_eq!(readable_bytes(0), "0 B");
    assert_eq!(readable_bytes(1_023), "1023 B");
    assert_eq!(readable_bytes(1_024), "1.0 KB");
    assert_eq!(readable_bytes(1_536), "1.5 KB");
    assert_eq!(readable_bytes(5 * 1024 * 1024), "5.0 MB");
    assert_eq!(readable_bytes(3 << 30), "3.0 GB");
    for bytes in [1_075, 1_126, 52_378, 104_857, 1 << 40, u64::MAX] {
        let size = bytes as f64;
        let expected = if size < 1_024.0 {
            format!("{bytes} B")
        } else if size < 1_048_576.0 {
            format!("{:.1} KB", size / 1_024.0)
        } else if size < 1_073_741_824.0 {
            format!("{:.1} MB", size / 1_048_576.0)
        } else {
            format!("{:.1} GB", size / 1_073_741_824.0)
        };
        assert_eq!(readable_bytes(bytes), expected);
    }
    assert_eq!(
        archive_name_at(Some(" host\n"), "20260101-000000"),
        "laozhou-export-host-20260101-000000.tar.gz"
    );
    let name = default_export_name(None);
    assert!(name.starts_with("laozhou-export-laozhou-2") && name.ends_with(".tar.gz"));
    assert_eq!(name.len(), "laozhou-export-laozhou-20260101-000000.tar.gz".len());
    let report = ExportReport {
        by_unit: vec![("config".to_string(), 2_048)],
        entries: 3,
        bytes: 2_048,
        archive: None,
        secrets_included: true,
    };
    let options = ExportOptions {
        all: false,
        index: false,
        dry_run: true,
    };
    let (lines, warning) = run_export(Lang::En, options, &report);
    assert_eq!(lines.len(), 3);
    assert_eq!(lines[0], "      2.0 KB  config");
    assert_eq!(lines[1], "Dry run: 3 files, 2.0 KB would be packed.");
    assert_eq!(warning, None);
    let report = ExportReport {
        archive: Some("/x.tar.gz".to_string()),
        ..report
    };
    let options = ExportOptions {
        all: true,
        dry_run: false,
        ..options
    };
    let (lines, warning) = run_export(Lang::En, options, &report);
    assert_eq!(lines, ["Exported 3 files (2.0 KB) to /x.tar.gz"]);
    assert!(warning.unwrap().contains("--no-secrets"));
    assert!(import_blocked(Lang::En, true).is_some());
    assert!(import_blocked(Lang::En, false).is_none());
    let lines = run_import(
        Lang::En,
        &ImportReport {
            backup: None,
            restored: 3,
            unknown_units: strings(&["new"]),
            cleared_workspaces: 0,
            index_included: true,
            secrets_included: true,
        },
    );
    assert_eq!(lines[0], "Restored 3 files.");
    assert!(lines[1].ends_with(": new"));
}

#[test]
fn watermarks_and_meters() {
    let thresholds = WatermarkThresholds {
        notice: 50,
        prune: 60,
        compact: 70,
        force: 90,
    };
    let text = compact_watermark_text(Lang::En, 65, 100, thresholds);
    assert!(text.starts_with("Context watermarks: 65 / 100 · "));
    assert!(prints_meter_again(false, 1, 2));
    assert!(!prints_meter_again(true, 1, 2));
    assert!(!prints_meter_again(false, 2, 2));
    let mut live = tail();
    assert!(matches!(
        live.apply_output_frame(b"x", (80, 24))[..],
        [TerminalOp::Bytes(_), TerminalOp::QueryOutputCursor]
    ));
    assert!(live.apply_output_frame(b"", (80, 24)).is_empty());
}
