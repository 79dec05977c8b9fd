use laozhou::args::{
    bare_route, entry_of, extract_debug_flag, mode_of, shell_of, skips_logging, starts_with_init,
    BareRoute, Cli, Command, DaemonArgs, DaemonCommand, DaemonLogsArgs, Entry, VoiceArgs, WebArgs,
};
use laozhou::attachments::{
    fresh_prompt_id, ipc_images, persist_remote_queued_submission, queued_prompt_attachments,
    queued_prompt_id, remote_image_preview, ImageAttachment,
};
use laozhou::chat::{
    append_stdin_if_piped, create_ephemeral_session, ephemeral_session_name,
    expand_shell_pasted_text_placeholders, extract_image_placeholders, image_files,
    is_remote_turn_cancelled, one_shot_session, reads_on, run_chat_with_options,
    run_clipboard_paste, run_shell_classify, run_shell_intercept, turn_display, turn_error_text,
    ChatRoute, SessionOverride, TurnDisplay, TurnError, TurnSession,
};
use laozhou::daemon::{
    print_daemon_status, run_daemon_command, run_web, settings_stand, web_launch_config,
    DaemonStep, PasswordSource, WebStep,
};
use laozhou::direct::{
    handle_post_turn_overflow, run_direct_repl, undo_note, DirectAction, DirectRepl, Overflow,
};
use laozhou::echo::QueuedPromptAttachment;
use laozhou::editor::{ClipboardContent, LiveReplEditor, LiveSubmission};
use laozhou::footer::{ModelChoice, ModelConfig, ModelWindow, ReplFooterStatus};
use laozhou::help::print_repl_help;
use laozhou::history::{
    load_persistent_repl_history, load_repl_input_history, persist_repl_history_entry,
    repl_history_file, run_history, ConversationEntry, HistoryEntry,
};
use laozhou::json::Json;
use laozhou::lang::Lang;
use laozhou::mode::AgentMode;
use laozhou::placeholder::PastedImage;
use laozhou::remote::IpcFrame;
use laozhou::replay::{session_replay_frame, ReplayEntry, ReplayStep, TurnReplay};
use laozhou::setup::{
    alarm_worker_paths, append_alarm_log, build_tool_registry, init_title, print_init_step,
    restore_live_output_processing, run_config, run_init, AlarmNews, InitKind, PromptFacts,
    ToolBase,
};
use laozhou::skills::{skill_dir, skill_line, skill_names, skill_stats, SkillEntry};
use laozhou::tokens::{ChatResult, TurnTokens, Usage};
use laozhou::voice::{
    is_exit_command, run_voice, run_voice_ui, voice_notes, wake_reply, VoiceAction, VoiceEvent,
    VoicePhase, VoiceSettings,
};
use std::path::PathBuf;

fn text(value: &str) -> Json {
    Json::Text(value.to_string())
}

fn object(entries: Vec<(&str, Json)>) -> Json {
    Json::Object(
        entries
            .into_iter()
            .map(|(key, value)| (key.to_string(), value))
            .collect(),
    )
}

fn strings(values: &[&str]) -> Vec<String> {
    values.iter().map(|value| value.to_string()).collect()
}

fn result(total: Option<u64>) -> ChatResult {
    ChatResult {
        content: String::new(),
        usage: total.map(|total_tokens| Usage {
            prompt_tokens: 1,
            completion_tokens: 1,
            total_tokens,
            cache_read_tokens: 0,
        }),
        usage_estimated: false,
        provider_id: Some("openai".to_string()),
        model: Some("gpt-5".to_string()),
    }
}

#[test]
fn written_history_is_read_back() {
    let mut file = String::new();
    let entries = ["plain", "two\nlines \"quoted\" \\ \t\u{1} 中文", "last"];
    for entry in entries {
        file.push_str(&persist_repl_history_entry(&format!("  {entry} ")).unwrap());
    }
    assert_eq!(file.lines().count(), 3);
    assert_eq!(file.lines().next(), Some("\"plain\""));
    assert_eq!(
        file.lines().nth(1),
        Some("\"two\\nlines \\\"quoted\\\" \\\\ \\t\\u0001 中文\"")
    );
    let (read, rewritten) = load_persistent_repl_history(Some(&file));
    assert_eq!(read, entries);
    assert_eq!(rewritten, None);
    assert_eq!(persist_repl_history_entry("  \n"), None);
    assert_eq!(repl_history_file(), "repl-history.jsonl");
}

#[test]
fn a_long_history_is_cut_and_written_anew() {
    let mut file = String::from("no json\n\"  \"\n");
    for index in 0..205 {
        file.push_str(&persist_repl_history_entry(&format!("entry {index}")).unwrap());
    }
    let (read, rewritten) = load_persistent_repl_history(Some(&file));
    assert_eq!(read.len(), 200);
    assert_eq!(read[0], "entry 5");
    let rewritten = rewritten.unwrap();
    assert!(rewritten.ends_with("\"entry 204\"\n"));
    let (again, unchanged) = load_persistent_repl_history(Some(&rewritten));
    assert_eq!(again, read);
    assert_eq!(unchanged, None);
    assert!(load_persistent_repl_history(None).0.is_empty());
}

#[test]
fn histories_are_merged_without_doubles() {
    let entry = |role: &str, content: &str| ConversationEntry {
        role: role.to_string(),
        content: content.to_string(),
    };
    let conversation = vec![
        entry("user", "\x1b[31mred\x1b[0m"),
        entry("user", "   "),
        entry("user", "\x1b[31m"),
        entry("assistant", "reply"),
    ];
    assert_eq!(
        load_repl_input_history(&conversation, strings(&["red", "other", "other"])),
        ["red", "other"]
    );
}

#[test]
fn past_messages_are_listed() {
    let entry = |role: &str| HistoryEntry {
        timestamp: "12:00".to_string(),
        role: role.to_string(),
        content: "c".to_string(),
        reasoning: Some("r".to_string()),
    };
    let view = run_history(entry("assistant_clarification_clarification"), false);
    assert_eq!(view.header, "12:00 assistant");
    assert!(view.is_reply);
    assert_eq!(view.reasoning.as_deref(), Some("r"));
    let view = run_history(entry("user"), true);
    assert_eq!(view.header, "12:00 user");
    assert!(!view.is_reply);
    assert_eq!(view.reasoning, None);
}

#[test]
fn images_travel_with_a_message() {
    let images = || {
        vec![
            Some(PastedImage::Binary {
                mime: "image/png".to_string(),
                data: b"hello world~".to_vec(),
            }),
            None,
            Some(PastedImage::Path("/tmp/x.png".to_string())),
        ]
    };
    let sent = ipc_images(&images());
    assert!(matches!(
        &sent[0],
        Some(ImageAttachment::Binary { mime, data })
            if mime == "image/png" && data == b"hello world~"
    ));
    assert!(sent[1].is_none());
    assert!(matches!(&sent[2], Some(ImageAttachment::Path { path }) if path == "/tmp/x.png"));

    let kept = queued_prompt_attachments(&images());
    assert_eq!(kept.len(), 2);
    assert!(matches!(
        &kept[0],
        QueuedPromptAttachment::Binary { data_base64, .. } if data_base64 == "aGVsbG8gd29ybGR+"
    ));
    for (bytes, expected) in [
        (&b""[..], ""),
        (&b"\xff"[..], "/w=="),
        (&b"\xff\xef"[..], "/+8="),
    ] {
        let kept = queued_prompt_attachments(&vec![Some(PastedImage::Binary {
            mime: String::new(),
            data: bytes.to_vec(),
        })]);
        assert!(matches!(
            &kept[0],
            QueuedPromptAttachment::Binary { data_base64, .. } if data_base64 == expected
        ));
    }

    let submission = LiveSubmission {
        content: "long".to_string(),
        display_content: "short".to_string(),
        images: images(),
    };
    let accepted = persist_remote_queued_submission(
        Some(IpcFrame::TurnUpdateAccepted {
            prompt_id: "q1".to_string(),
            seq: 4,
            submitted_at: "now".to_string(),
        }),
        &submission,
    )
    .unwrap();
    assert_eq!(accepted.prompt_id, "q1");
    assert_eq!(accepted.display_content, "short");
    assert_eq!(accepted.attachments.len(), 2);
    assert_eq!(
        persist_remote_queued_submission(None, &submission).unwrap_err(),
        "Laozhou core closed the queue connection"
    );
    assert_eq!(
        persist_remote_queued_submission(Some(IpcFrame::Ack), &submission).unwrap_err(),
        "Laozhou core returned an invalid queue response"
    );
    assert_eq!(queued_prompt_id(1_234, 5), "queued_1234_5");
    assert!(fresh_prompt_id(99).starts_with("queued_99_"));
}

#[test]
fn previews_keep_still_pictures() {
    let preview = remote_image_preview("image/jpeg", vec![1, 2, 3]).unwrap();
    assert_eq!(preview.suffix, ".jpg");
    assert_eq!(preview.bytes, [1, 2, 3]);
    assert_eq!(
        remote_image_preview("image/x", Vec::new()).unwrap().suffix,
        ".img"
    );
    assert!(remote_image_preview("image/gif", vec![1, 2, 3]).is_err());
}

#[test]
fn a_pipe_is_added_to_the_message() {
    assert_eq!(append_stdin_if_piped("m".to_string(), None), "m");
    assert_eq!(
        append_stdin_if_piped("m".to_string(), Some(b" \n".to_vec())),
        "m"
    );
    assert_eq!(
        append_stdin_if_piped(String::new(), Some(b" piped \n".to_vec())),
        "piped"
    );
    assert_eq!(
        append_stdin_if_piped("m".to_string(), Some(b"a\xffb".to_vec())),
        "m\n\n---\n(stdin)\na\u{fffd}b"
    );
    let long = append_stdin_if_piped(String::new(), Some(vec![b'x'; 60_000]));
    assert_eq!(long.len(), 50_000);
    assert!(reads_on(49_999, false));
    assert!(!reads_on(50_000, false));
    assert!(!reads_on(0, true));
}

#[test]
fn shells_hand_over_what_was_typed() {
    assert_eq!(run_shell_classify("fish", true), 0);
    assert_eq!(run_shell_classify("bash", false), 1);
    assert_eq!(run_shell_classify("tcsh", true), 2);
    assert!(run_shell_intercept(Lang::En, "zsh", "hello").is_ok());
    assert_eq!(
        run_shell_intercept(Lang::En, "tcsh", "hello").unwrap_err(),
        "unsupported shell: tcsh"
    );
    assert_eq!(
        run_shell_intercept(Lang::En, "zsh", "  ").unwrap_err(),
        "not a natural language command"
    );
    assert_eq!(
        run_clipboard_paste(Lang::En, &ClipboardContent::Text("a\nb\nc".to_string()), 4)
            .as_deref(),
        Some("[Pasted 4: ~3 lines]")
    );
    assert_eq!(
        run_clipboard_paste(
            Lang::En,
            &ClipboardContent::ImagePath {
                path: "/".to_string(),
                filename: None
            },
            1
        )
        .as_deref(),
        Some("[Image 1: image]")
    );
    assert_eq!(
        run_clipboard_paste(Lang::En, &ClipboardContent::Nothing, 1),
        None
    );
}

#[test]
fn image_placeholders_are_numbered_anew() {
    let message = "see [Image 7: a.png] and [Image 12: b.png] or [Image 3]";
    assert_eq!(
        image_files(message),
        [Some("a.png".to_string()), None, None]
    );
    let (clean, images) =
        extract_image_placeholders(message, vec![Some("/c/a.png".to_string()), None, None]);
    assert_eq!(clean, "see [Image 1] and [Image 2] or [Image 3]");
    assert!(matches!(&images[0], Some(PastedImage::Path(path)) if path == "/c/a.png"));
    assert!(images[1].is_none());
    assert_eq!(extract_image_placeholders("none", Vec::new()).0, "none");
}

#[test]
fn pasted_texts_of_a_shell_come_back() {
    let message = "x [Pasted 1: ~3 lines] y [Pasted 2: ~4 lines]";
    assert_eq!(
        expand_shell_pasted_text_placeholders(
            message,
            &vec![Some("one\ntwo\nthree".to_string()), None]
        ),
        "x one\ntwo\nthree y [Pasted 2: ~4 lines]"
    );
}

#[test]
fn one_shot_turns_choose_their_session() {
    assert!(matches!(
        one_shot_session(Some("s9".to_string()), false).daemon_override(),
        SessionOverride::Use(id) if id == "s9"
    ));
    assert!(matches!(
        TurnSession::Ephemeral.daemon_override(),
        SessionOverride::MakeAndDiscard
    ));
    assert!(matches!(
        TurnSession::Current.daemon_override(),
        SessionOverride::Unset
    ));
    assert_eq!(ephemeral_session_name(Lang::En), "One-shot");
    let made = object(vec![("session", object(vec![("session_id", text("s3"))]))]);
    assert_eq!(create_ephemeral_session(&made).unwrap(), "s3");
    assert_eq!(
        create_ephemeral_session(&Json::Null).unwrap_err(),
        "Laozhou core returned an invalid response"
    );
    assert_eq!(run_chat_with_options("", true), ChatRoute::Prompt);
    assert_eq!(run_chat_with_options("m", true), ChatRoute::Direct);
    assert_eq!(run_chat_with_options("m", false), ChatRoute::Daemon);
    assert_eq!(
        turn_display(Some(false), true, true),
        TurnDisplay {
            hide_reasoning: true,
            hide_tool_calls: true,
            show_token_usage: false
        }
    );
    assert!(is_remote_turn_cancelled(&TurnError::Cancelled));
    assert_eq!(
        turn_error_text(Lang::En, &TurnError::Other("x".to_string())),
        "x"
    );
}

#[test]
fn the_debug_flag_is_taken_once() {
    let mut args = strings(&["laozhou", "ask", "--debug", "x", "--", "--debug"]);
    assert!(extract_debug_flag(&mut args));
    assert_eq!(args, ["laozhou", "ask", "x", "--", "--debug"]);
    assert!(!extract_debug_flag(&mut args));
    assert_eq!(args.len(), 5);
    let mut args = strings(&["--debug"]);
    assert!(!extract_debug_flag(&mut args));
}

#[test]
fn command_lines_lead_somewhere() {
    let cli = || Cli {
        plan: false,
        debug: false,
        stdout: false,
        session: None,
        continue_session: false,
        shell_intercept: true,
        shell_classify: false,
        shell: None,
        stdin: false,
        clipboard_paste: false,
        command: None,
        message: Vec::new(),
    };
    assert_eq!(entry_of(&cli()), Entry::Intercept);
    assert_eq!(shell_of(&cli()), "fish");
    assert_eq!(
        entry_of(&Cli {
            clipboard_paste: true,
            ..cli()
        }),
        Entry::ClipboardPaste
    );
    assert!(skips_logging(&Some(Command::Daemon(DaemonArgs {
        port: None,
        command: Some(DaemonCommand::Logs(DaemonLogsArgs { lines: None })),
    }))));
    assert!(!skips_logging(&None));
    assert_eq!(mode_of(true), AgentMode::Plan);
    assert!(starts_with_init(&None, false));
    assert!(!starts_with_init(&Some(Command::Init), false));
    assert!(!starts_with_init(&None, true));
    assert_eq!(bare_route(Lang::En, "", true, false), Ok(BareRoute::Prompt));
    assert_eq!(
        bare_route(Lang::En, "", false, true),
        Ok(BareRoute::OneShot)
    );
    assert!(bare_route(Lang::En, "", true, true).is_err());
}

fn web_args() -> WebArgs {
    WebArgs {
        port: 8300,
        bind: None,
        password: None,
        password_file: None,
        port_explicit: false,
    }
}

#[test]
fn the_web_front_end_is_launched_as_asked() {
    let plan = web_launch_config(
        Lang::En,
        WebArgs {
            password: Some("very-secret".to_string()),
            port: 9400,
            ..web_args()
        },
    )
    .unwrap()
    .unwrap();
    assert_eq!(plan.port, 9400);
    assert!(matches!(plan.password, PasswordSource::Text(word) if word == "very-secret"));
    let plan = web_launch_config(
        Lang::En,
        WebArgs {
            password_file: Some(PathBuf::from("/tmp/p")),
            ..web_args()
        },
    )
    .unwrap()
    .unwrap();
    assert!(
        matches!(plan.password, PasswordSource::File(path) if path == PathBuf::from("/tmp/p"))
    );
    assert_eq!(
        web_launch_config(
            Lang::En,
            WebArgs {
                password: Some(String::new()),
                ..web_args()
            }
        )
        .unwrap_err(),
        "WebUI password cannot be empty"
    );
    assert_eq!(
        web_launch_config(
            Lang::En,
            WebArgs {
                password: Some("é".repeat(1_025)),
                ..web_args()
            }
        )
        .unwrap_err(),
        "WebUI password cannot exceed 1,024 characters"
    );
    assert!(web_launch_config(
        Lang::En,
        WebArgs {
            password: Some("é".repeat(1_024)),
            ..web_args()
        }
    )
    .is_ok());
    assert_eq!(run_web(&web_args(), true), WebStep::ShowUrls);
    let with_port = WebArgs {
        port_explicit: true,
        ..web_args()
    };
    assert_eq!(run_web(&with_port, true), WebStep::Refuse);
    assert_eq!(run_web(&with_port, false), WebStep::Launch);
    let empty = WebArgs {
        password: Some(String::new()),
        ..web_args()
    };
    assert_eq!(run_web(&empty, false), WebStep::AskPassword);
    assert!(settings_stand(Lang::En, false).contains("restart it"));
}

#[test]
fn daemon_commands_take_a_port_to_start_with() {
    let args = |port: Option<u16>, command: Option<DaemonCommand>| DaemonArgs { port, command };
    assert!(matches!(
        run_daemon_command(Lang::En, args(Some(9_412), None), false),
        Ok(DaemonStep::Start { port: Some(9_412) })
    ));
    assert!(run_daemon_command(Lang::En, args(Some(1), None), true)
        .unwrap_err()
        .contains("already owns Web settings"));
    assert!(matches!(
        run_daemon_command(Lang::En, args(Some(1), Some(DaemonCommand::Restart)), true),
        Ok(DaemonStep::Restart { port: Some(1) })
    ));
    assert_eq!(
        run_daemon_command(Lang::En, args(Some(1), Some(DaemonCommand::Stop)), false).unwrap_err(),
        "--port only applies to daemon start or restart"
    );
    let data = object(vec![
        (
            "runtime",
            object(vec![("turn_engine", text("running"))]),
        ),
        (
            "platforms",
            object(vec![(
                "qq",
                object(vec![
                    ("enabled", Json::Bool(true)),
                    ("listen_port", Json::Unsigned(8_090)),
                    (
                        "connected_accounts",
                        Json::Array(vec![
                            Json::Unsigned(12),
                            text("x"),
                            Json::Negative(-3),
                            Json::Unsigned(u64::MAX),
                        ]),
                    ),
                ]),
            )]),
        ),
    ]);
    assert_eq!(
        print_daemon_status(Lang::En, 42, &strings(&["http://a"]), &data),
        [
            "Laozhou daemon: running (PID 42)",
            "WebUI: http://a",
            "Turn engine: running",
            "Tencent QQ: ws://localhost:8090/ws · connected: 12, -3"
        ]
    );
    assert_eq!(
        print_daemon_status(Lang::En, 42, &Vec::new(), &Json::Null)[2..],
        ["Turn engine: ready", "Tencent QQ: disabled"]
    );
}

#[test]
fn lines_of_the_direct_prompt() {
    let ask = |line: &str| run_direct_repl(Lang::En, line);
    assert!(matches!(ask(" Exit "), DirectAction::Leave));
    assert!(matches!(ask("/he"), DirectAction::Help));
    assert!(matches!(ask("/help me"), DirectAction::RunTurn(text) if text == "/help me"));
    assert!(matches!(ask("/new x"), DirectAction::RunTurn(_)));
    assert!(matches!(ask("/models  a/b "), DirectAction::PickModels(Some(name)) if name == "a/b"));
    assert!(matches!(ask("/variant"), DirectAction::PickVariant(None)));
    assert!(matches!(ask("/pop 3"), DirectAction::Pop(Some(3))));
    assert!(matches!(
        ask("/pop x"),
        DirectAction::Complain(text)
            if text == "\x1b[31merror: pop count must be a positive integer\x1b[0m"
    ));
    assert!(matches!(ask("/wipe now"), DirectAction::Wipe));
    assert!(matches!(ask("  "), DirectAction::Idle));
    assert_eq!(undo_note(Lang::En, 2, false), "context compaction undone");
    assert_eq!(undo_note(Lang::En, 2, true), "undone messages: 2");
    assert_eq!(undo_note(Lang::En, 0, false), "undone messages: 0");
}

#[test]
fn figures_of_the_direct_prompt() {
    let config = ModelConfig {
        active: vec![ModelChoice {
            provider_id: "openai".to_string(),
            model: "gpt-5".to_string(),
        }],
        context_window: None,
        windows: vec![ModelWindow {
            provider_id: "openai".to_string(),
            model: "gpt-5".to_string(),
            window: Some(400),
        }],
        mixed_model_endpoint_display: "all".to_string(),
    };
    let mut repl = DirectRepl {
        footer: ReplFooterStatus::from_config(Lang::En, &config, 0, TurnTokens::none()),
        cumulative: TurnTokens::none(),
        show_shortcut_hint: true,
    };
    let turn = result(Some(10));
    assert_eq!(
        repl.turn_finished(&turn, &config, None, 50, Some(9)),
        None
    );
    assert_eq!(repl.cumulative.total, 10);
    assert_eq!(repl.footer.token_usage.context_window, Some(400));
    assert_eq!(
        repl.overflow_handled(
            Lang::En,
            &turn,
            &Overflow::Compacted(result(Some(5))),
            20,
            Some(9)
        ),
        None
    );
    assert_eq!(repl.cumulative.total, 15);
    assert_eq!(repl.footer.token_usage.turn_tokens, 15);
    assert_eq!(repl.footer.token_usage.session_tokens, 20);
    assert!(!repl.show_shortcut_hint);
    assert_eq!(
        repl.overflow_handled(
            Lang::En,
            &turn,
            &Overflow::Failed("full".to_string()),
            1,
            None
        )
        .as_deref(),
        Some("\x1b[31merror: full\x1b[0m\n")
    );
    assert_eq!(repl.footer.token_usage.session_tokens, 20);
    repl.turn_cancelled(None, 33);
    assert_eq!(repl.cumulative.total, 15);
    assert_eq!(repl.footer.token_usage.session_tokens, 33);
    assert_eq!(
        repl.compacted(Lang::En, None, 30, None).as_deref(),
        Some("\x1b[2mnothing to compact\x1b[0m")
    );
    repl.forgotten(0, None);
    assert_eq!(repl.cumulative, TurnTokens::none());
    let mut total = TurnTokens::none();
    assert_eq!(
        handle_post_turn_overflow(&mut total, &result(None)),
        TurnTokens::none()
    );
    assert_eq!(
        handle_post_turn_overflow(&mut total, &result(Some(3))).total,
        3
    );
    total.total = u64::MAX;
    total.add_result(&result(Some(3)));
    assert_eq!(total.total, u64::MAX);

    let mixed = ModelConfig {
        active: vec![
            ModelChoice {
                provider_id: "openai".to_string(),
                model: "gpt-5".to_string(),
            },
            ModelChoice {
                provider_id: "zen".to_string(),
                model: "pickle".to_string(),
            },
        ],
        ..config
    };
    assert_eq!(
        repl.turn_finished(&turn, &mixed, Some("high"), 50, Some(9))
            .as_deref(),
        Some("\x1b[2mopenai / gpt-5 · high\x1b[0m\n")
    );
    assert_eq!(repl.footer.token_usage.context_window, Some(9));

    let mut editor = LiveReplEditor::new(AgentMode::Normal, Vec::new());
    editor.prefill("再来".to_string());
    assert_eq!((editor.input.as_str(), editor.cursor), ("再来", 2));
    editor.clear_input();
    assert_eq!((editor.input.as_str(), editor.cursor), ("", 0));
}

#[test]
fn a_conversation_by_voice_goes_round() {
    let settings = VoiceSettings {
        enabled: true,
        wake_enabled: true,
        wake_word: "nobody".to_string(),
        speak_replies: true,
        tts_backend: "xiaomi".to_string(),
        xiaomi_tts_voice: String::new(),
    }
    .with_persona("老周".to_string(), "deep".to_string());
    assert_eq!(settings.wake_word, "老周");
    assert_eq!(settings.xiaomi_tts_voice, "deep");
    assert!(settings.has_speech());
    let step = |phase, event| run_voice_ui(Lang::En, phase, event, &settings, false);
    assert!(matches!(
        step(VoicePhase::Waking, VoiceEvent::Space),
        (
            VoicePhase::Recording,
            VoiceAction::WakeUp {
                pressed: true,
                speak: true
            }
        )
    ));
    assert!(matches!(
        step(VoicePhase::Waking, VoiceEvent::Quit),
        (VoicePhase::Over, VoiceAction::Nothing)
    ));
    assert!(matches!(
        step(VoicePhase::Waking, VoiceEvent::Recorded),
        (VoicePhase::Waking, VoiceAction::Nothing)
    ));
    assert!(matches!(
        step(
            VoicePhase::Recognizing,
            VoiceEvent::Recognized("hello".to_string())
        ),
        (VoicePhase::Thinking, VoiceAction::Ask(_))
    ));
    assert!(matches!(
        step(
            VoicePhase::Recognizing,
            VoiceEvent::Recognized(String::new())
        ),
        (VoicePhase::Waking, VoiceAction::Show(_))
    ));
    assert!(matches!(
        step(
            VoicePhase::Recognizing,
            VoiceEvent::Recognized("再见 老周".to_string())
        ),
        (VoicePhase::Over, VoiceAction::Nothing)
    ));
    assert!(matches!(
        step(
            VoicePhase::Thinking,
            VoiceEvent::Replied(" \n".to_string())
        ),
        (VoicePhase::Waking, VoiceAction::Finish { speak: false })
    ));
    assert!(matches!(
        run_voice_ui(
            Lang::En,
            VoicePhase::Thinking,
            VoiceEvent::Replied("ok".to_string()),
            &settings,
            true
        ),
        (VoicePhase::Over, VoiceAction::Finish { speak: true })
    ));
    assert!(matches!(
        step(
            VoicePhase::Thinking,
            VoiceEvent::TurnFailed("x".to_string())
        ),
        (VoicePhase::Waking, VoiceAction::Complain(text)) if text == "error: x"
    ));
    assert!(matches!(
        step(VoicePhase::Over, VoiceEvent::Heard),
        (VoicePhase::Over, VoiceAction::Nothing)
    ));
    let changed = settings.with_args(&VoiceArgs {
        once: false,
        no_wake: true,
        no_tts: true,
        wake_word: Some(" Miyu ".to_string()),
    });
    assert!(!changed.waits_for_wake());
    assert!(!changed.speak_replies);
    assert_eq!(changed.wake_word, "Miyu");
    assert_eq!(wake_reply(Lang::En, "hey MIYU"), "Here");
    assert_eq!(wake_reply(Lang::Zh, "老周"), "我在");
    assert!(is_exit_command(" QUIT now"));
    assert!(is_exit_command("不聊了"));
    assert!(!is_exit_command("quitting"));
    assert_eq!(voice_notes(Lang::En, false, false).len(), 2);
    assert_eq!(voice_notes(Lang::En, false, true).len(), 1);
    assert!(voice_notes(Lang::En, true, false).is_empty());
    assert!(run_voice(Lang::En, true).is_ok());
    assert_eq!(
        run_voice(Lang::En, false).unwrap_err(),
        "voice mode requires an interactive terminal"
    );
}

#[test]
fn finished_turns_are_drawn_part_by_part() {
    let replay = TurnReplay {
        display_content: "  ".to_string(),
        assistant_content: "unused".to_string(),
        is_job_wake: false,
        entries: vec![
            ReplayEntry::Text {
                text: "a".to_string(),
            },
            ReplayEntry::ToolCall {
                name: "ls".to_string(),
                arguments: "{}".to_string(),
            },
            ReplayEntry::ToolResult {
                name: "ls".to_string(),
                ok: true,
                output: "x".to_string(),
            },
        ],
    };
    assert!(matches!(
        &session_replay_frame(&vec![replay], AgentMode::Normal, 80)[..],
        [
            ReplayStep::Content(_),
            ReplayStep::ToolCall { .. },
            ReplayStep::ToolResult { ok: true, .. },
            ReplayStep::EndTurn
        ]
    ));
}

#[test]
fn setting_things_up() {
    assert_eq!(
        init_title(Lang::En, InitKind::FirstRun),
        "Laozhou first start"
    );
    assert_eq!(
        print_init_step("Writing default config", "/c"),
        "  Writing default config   ✓ /c"
    );
    assert_eq!(
        run_init(Lang::En, false, "/c"),
        "initialized Laozhou at /c"
    );
    assert_eq!(
        run_init(Lang::En, true, "/c"),
        "\nInitialization complete.\n"
    );
    let paths = alarm_worker_paths(PathBuf::from("/s"), PathBuf::from("/k"));
    assert_eq!(paths.state_dir, Some(PathBuf::from("/s")));
    assert_eq!(paths.cache_dir, Some(PathBuf::from("/k")));
    assert_eq!(paths.config_dir, None);
    assert_eq!(
        append_alarm_log(
            "a1",
            &AlarmNews::Scheduled {
                seconds: 60,
                source: None
            }
        ),
        "a1: scheduled in 60s; source=builtin\n"
    );
    assert_eq!(
        append_alarm_log("a1", &AlarmNews::Failed("no device".to_string())),
        "a1: audio playback failed: no device\n"
    );
    let plan = build_tool_registry(true, true, AgentMode::Plan, true);
    assert_eq!(plan.base, ToolBase::Readonly);
    assert!(plan.skills && !plan.skill_authoring && plan.ask_question);
    assert_eq!(
        build_tool_registry(false, true, AgentMode::Normal, true).base,
        ToolBase::Empty
    );
    assert_eq!(restore_live_output_processing(8, 1, 4), 13);
    let facts = PromptFacts {
        persona: " alice.md ".to_string(),
        persona_file: Some("/p/alice.md".to_string()),
        persona_file_exists: true,
        custom_prompt: String::new(),
        custom_prompt_file: "/p/system-prompt.md".to_string(),
        identity: String::new(),
        prompts_dir: "/p".to_string(),
        identities_dir: "/i".to_string(),
        system_prompt: "first\r\nsecond".to_string(),
    };
    assert_eq!(
        run_config(&facts),
        [
            "base_prompt_source: persona (/p/alice.md)",
            "active_persona: alice.md",
            "active_persona_file: /p/alice.md",
            "active_identity: (none)",
            "prompts_dir: /p",
            "identities_dir: /i",
            "system_prompt_first_line: first",
            "system_prompt_chars: 13"
        ]
    );
    let help = print_repl_help(Lang::En);
    assert_eq!(help[0], "commands:");
    assert_eq!(help.last().unwrap(), "  Ctrl+D      exit");
}

#[test]
fn skills_stay_in_their_directory() {
    assert_eq!(skill_dir(Lang::En, " tidy ", true).unwrap(), "tidy");
    for name in ["", ".", "..", "a/b", "a\\b"] {
        assert_eq!(
            skill_dir(Lang::En, name, true).unwrap_err(),
            format!("invalid skill name: {name}")
        );
    }
    assert_eq!(
        skill_dir(Lang::En, "tidy", false).unwrap_err(),
        "skill not found: tidy"
    );
    let entry = |name: &str, is_skill: bool| SkillEntry {
        name: name.to_string(),
        is_skill,
    };
    assert_eq!(
        skill_names(&vec![entry("z", true), entry("n", false), entry("a", true)]),
        ["a", "z"]
    );
    assert_eq!(skill_line(Lang::En, "z", true), "z [disabled]");
    let stats = skill_stats(&vec![true, false, false]);
    assert_eq!((stats.skills, stats.disabled, stats.enabled), (3, 1, 2));
}
