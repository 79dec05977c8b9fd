use laozhou::args::WebArgs;
use laozhou::attachments::remote_image_preview;
use laozhou::chat::{one_shot_session, TurnSession};
use laozhou::daemon::{daemon_web_status_lines, web_launch_config};
use laozhou::daemon_log::{
    active_reply_log_color, daemon_log_files, daemon_log_follow_cursor_for_files,
    format_daemon_log_line, format_daemon_log_line_with_state, parse_daemon_log_line,
    read_daemon_log_delta, recent_daemon_log_lines, tail_file_lines, write_daemon_log_delta,
    DaemonLogStreamFormatter, FileOffset, LogColor,
};
use laozhou::history::{load_repl_input_history, ConversationEntry};
use laozhou::json::{remote_tool_image_asset_id, Json};
use laozhou::lang::Lang;
use laozhou::remote::{
    first_reload_attempt, retry_config_reload, validate_config_reload_response,
    validate_ipc_command_response, ConfigReloadResponse, ErrorCode, IpcFrame, ReloadStep,
};
use laozhou::setup::write_default_kb_update_progress;

/// Text as a stream would hold it.
fn streamed(lines: &[String]) -> String {
    lines.iter().map(|line| format!("{line}\n")).collect()
}

/// Reads what a file holds behind the position, as a follower does.
fn delta(
    contents: &[u8],
    offset: &mut u64,
    formatter: &mut DaemonLogStreamFormatter,
    output: &mut Vec<String>,
) -> bool {
    let plan = read_daemon_log_delta(contents.len() as u64, *offset);
    write_daemon_log_delta(
        formatter,
        offset,
        plan.reset,
        contents.len() as u64,
        &contents[plan.start as usize..],
        false,
        output,
    )
}

#[test]
fn one_shot_turns_default_to_a_throwaway_session() {
    assert!(matches!(
        one_shot_session(None, false),
        TurnSession::Ephemeral
    ));
    assert!(matches!(one_shot_session(None, true), TurnSession::Current));
}

#[test]
fn bare_web_does_not_override_the_persisted_launch_config() {
    let args = WebArgs {
        port: 8300,
        bind: None,
        password: None,
        password_file: None,
        port_explicit: false,
    };

    assert!(web_launch_config(Lang::En, args).unwrap().is_none());
}

#[test]
fn config_reload_response_uses_codes_and_supports_legacy_busy_errors() {
    assert_eq!(
        validate_config_reload_response(Some(IpcFrame::Error {
            code: Some(ErrorCode::Busy),
            message: "localized busy message".to_string(),
        }))
        .unwrap(),
        ConfigReloadResponse::Busy
    );
    assert_eq!(
        validate_config_reload_response(Some(IpcFrame::Error {
            code: None,
            message: "Laozhou is busy with another operation".to_string(),
        }))
        .unwrap(),
        ConfigReloadResponse::Busy
    );
    assert!(validate_config_reload_response(Some(IpcFrame::Error {
        code: None,
        message: "invalid configuration".to_string(),
    }))
    .is_err());
}

#[test]
fn config_reload_retries_busy_responses_until_success() {
    let mut attempt = first_reload_attempt(4).unwrap();
    let mut observed = 0;
    loop {
        observed += 1;
        let response = if observed < 3 {
            ConfigReloadResponse::Busy
        } else {
            ConfigReloadResponse::Reloaded
        };
        match retry_config_reload(Lang::En, attempt, 4, 0, response) {
            ReloadStep::Done => break,
            ReloadStep::Retry(_) => attempt += 1,
            ReloadStep::GiveUp(message) => panic!("gave up: {message}"),
        }
    }

    assert_eq!(observed, 3);
}

#[test]
fn config_reload_stops_after_the_attempt_limit() {
    let mut attempt = first_reload_attempt(3).unwrap();
    let mut observed = 0;
    let error = loop {
        observed += 1;
        match retry_config_reload(Lang::En, attempt, 3, 0, ConfigReloadResponse::Busy) {
            ReloadStep::Done => panic!("the daemon never stopped being busy"),
            ReloadStep::Retry(_) => attempt += 1,
            ReloadStep::GiveUp(message) => break message,
        }
    };

    assert_eq!(observed, 3);
    assert!(error.contains('3'));
}

#[test]
fn config_reload_retries_coded_busy_frames_over_ipc() {
    let mut attempt = first_reload_attempt(4).unwrap();
    let mut answered = 0;
    for number in 1..=3 {
        let frame = if number < 3 {
            IpcFrame::Error {
                code: Some(ErrorCode::Busy),
                message: "Laozhou is busy with another operation".to_string(),
            }
        } else {
            IpcFrame::Ack
        };
        let response = validate_config_reload_response(Some(frame)).unwrap();
        answered += 1;
        match retry_config_reload(Lang::En, attempt, 4, 0, response) {
            ReloadStep::Done => break,
            ReloadStep::Retry(_) => attempt += 1,
            ReloadStep::GiveUp(message) => panic!("gave up: {message}"),
        }
    }
    assert_eq!((answered, attempt), (3, 3));
}

#[test]
fn daemon_web_urls_are_rendered_on_separate_aligned_lines() {
    let urls = vec![
        "http://127.0.0.1:8300".to_string(),
        "http://192.168.1.2:8300".to_string(),
    ];
    assert_eq!(
        daemon_web_status_lines("WebUI:", &urls),
        [
            "WebUI: http://127.0.0.1:8300",
            "       http://192.168.1.2:8300",
        ]
    );
    assert_eq!(
        daemon_web_status_lines("WebUI：", &urls),
        [
            "WebUI： http://127.0.0.1:8300",
            "        http://192.168.1.2:8300",
        ]
    );
}

#[test]
fn daemon_log_formatter_parses_targets_and_preserves_multiline_content() {
    let parsed = parse_daemon_log_line(
        "2026-07-29T12:34:56.789Z  INFO laozhou::qq: listener ready port=8090",
    )
    .unwrap();
    assert_eq!(parsed.level, "INFO");
    assert_eq!(parsed.module, "laozhou::qq");
    assert_eq!(parsed.message, "listener ready port=8090");

    let rendered = format_daemon_log_line(
        "2026-07-29T12:34:56.789Z  INFO laozhou::qq: listener ready port=8090",
        false,
    );
    assert!(!rendered.contains('\x1b'));
    assert!(rendered.ends_with("[INFO] [laozhou::qq] listener ready port=8090"));
    assert_eq!(
        format_daemon_log_line("判断原因：保留这一行原有的内容", true),
        "判断原因：保留这一行原有的内容"
    );
}

#[test]
fn daemon_log_formatter_supports_legacy_lines_and_tty_colors() {
    let legacy = "2026-07-29T12:34:56.789Z  WARN OneBot connection closed reason=timeout";
    let parsed = parse_daemon_log_line(legacy).unwrap();
    assert_eq!(parsed.module, "laozhou");
    assert_eq!(parsed.message, "OneBot connection closed reason=timeout");

    let rendered = format_daemon_log_line(legacy, true);
    assert!(rendered.contains('\x1b'));
    assert!(rendered.contains("[WARN]"));
    assert!(rendered.ends_with("OneBot connection closed reason=timeout"));
}

#[test]
fn daemon_log_formatter_colors_entire_active_reply_decisions() {
    let mut formatter = DaemonLogStreamFormatter::new();
    let mut reply = Vec::new();
    formatter.push(
        b"2026-07-29T12:34:56.789Z  INFO laozhou::qq: \xe3\x80\x90\xe7\xbb\xad\xe8\x81\x8a\xe7\xaa\x97\xe5\x8f\xa3\xe5\x88\xa4\xe6\x96\xad\xef\xbc\x9a\xe5\x9b\x9e\xe5\xa4\x8d\xe3\x80\x91\n\xe7\xbb\x93\xe6\x9e\x9c\xef\xbc\x9a\xe5\x9b\x9e\xe5\xa4\x8d\n",
        true,
        &mut reply,
    );
    let reply = streamed(&reply);
    assert!(reply.lines().all(|line| line.contains('\x1b')));

    let mut no_reply = Vec::new();
    formatter.push(
        b"2026-07-29T12:34:57.789Z  INFO laozhou::qq: \xe3\x80\x90\xe4\xb8\xbb\xe5\x8a\xa8\xe5\x9b\x9e\xe5\xa4\x8d\xe5\x88\xa4\xe6\x96\xad\xef\xbc\x9a\xe4\xb8\x8d\xe5\x9b\x9e\xe5\xa4\x8d\xe3\x80\x91\n\xe7\xbb\x93\xe6\x9e\x9c\xef\xbc\x9a\xe4\xb8\x8d\xe5\x9b\x9e\xe5\xa4\x8d\n",
        true,
        &mut no_reply,
    );
    let no_reply = streamed(&no_reply);
    assert!(no_reply.lines().all(|line| line.contains('\x1b')));
    assert_ne!(reply, no_reply);

    let mut reset = Vec::new();
    formatter.push(
        b"2026-07-29T12:34:58.789Z  INFO laozhou::qq: listener ready\nplain continuation\n",
        false,
        &mut reset,
    );
    let reset = streamed(&reset);
    assert!(reset.ends_with("[INFO] [laozhou::qq] listener ready\nplain continuation\n"));
}

#[test]
fn daemon_log_formatter_recognizes_english_active_reply_decisions() {
    assert_eq!(
        active_reply_log_color("[Active reply decision: reply]\nResult: reply"),
        Some(LogColor::Green)
    );
    assert_eq!(
        active_reply_log_color("[Continuation decision: no reply]\nResult: no reply"),
        Some(LogColor::DarkGrey)
    );

    let mut color = None;
    let timestamp = format_daemon_log_line_with_state(
        "2026-07-29T12:34:56.789Z  INFO laozhou::qq: ",
        true,
        &mut color,
    );
    assert!(timestamp.contains("[INFO]"));
    assert_eq!(color, None);
    let title =
        format_daemon_log_line_with_state("[Active reply decision: reply]", true, &mut color);
    assert_eq!(color, Some(LogColor::Green));
    assert!(title.contains('\x1b'));
    assert!(format_daemon_log_line_with_state("Result: reply", true, &mut color).contains('\x1b'));
}

#[test]
fn daemon_log_stream_formatter_waits_for_complete_lines() {
    let mut formatter = DaemonLogStreamFormatter::new();
    let mut output = Vec::new();
    formatter.push(
        b"2026-07-29T12:34:56.789Z  INFO laozhou::qq: part",
        false,
        &mut output,
    );
    assert!(output.is_empty());

    formatter.push(b"ial\n  continuation\nlast", false, &mut output);
    let rendered = streamed(&output);
    assert!(rendered.contains("[INFO] [laozhou::qq] partial\n"));
    assert!(rendered.ends_with("  continuation\n"));

    let mut tail = Vec::new();
    formatter.finish(false, &mut tail);
    assert_eq!(streamed(&tail), "last\n");
}

#[test]
fn recent_daemon_logs_keep_multiline_order_across_rotated_files() {
    let names = vec![
        "laozhou.2026-07-29.log".to_string(),
        "laozhou.2026-07-28.log".to_string(),
    ];
    let files = daemon_log_files(&names, false);
    assert_eq!(files, ["laozhou.2026-07-28.log", "laozhou.2026-07-29.log"]);
    let tails = vec![
        tail_file_lines(
            "2026-07-28T12:00:00Z  INFO laozhou::qq: old event\n  old continuation\n",
            4,
        ),
        tail_file_lines(
            "2026-07-29T12:00:00Z  WARN laozhou::qq: new event\n  new continuation\n判断原因：保持多行\n",
            4,
        ),
    ];

    let lines = recent_daemon_log_lines(&tails, 4);
    assert_eq!(
        lines,
        [
            "  old continuation",
            "2026-07-29T12:00:00Z  WARN laozhou::qq: new event",
            "  new continuation",
            "判断原因：保持多行",
        ]
    );
    let rendered = lines
        .iter()
        .map(|line| format_daemon_log_line(line, false))
        .collect::<Vec<_>>()
        .join("\n");
    assert!(!rendered.contains('\x1b'));
    assert!(rendered.contains("[WARN] [laozhou::qq] new event"));
    assert!(rendered.ends_with("  new continuation\n判断原因：保持多行"));
}

#[test]
fn recent_daemon_logs_include_unstructured_daemon_stream_before_rotating_logs() {
    let files = daemon_log_files(&vec!["laozhou.2026-07-29.log".to_string()], true);
    assert_eq!(files, ["daemon.log", "laozhou.2026-07-29.log"]);
    let tails = vec![
        tail_file_lines("startup banner\npanic: boom\n", 3),
        tail_file_lines("2026-07-29T12:00:00Z  INFO laozhou::qq: listener ready\n", 3),
    ];

    let lines = recent_daemon_log_lines(&tails, 3);
    assert_eq!(
        lines,
        [
            "startup banner",
            "panic: boom",
            "2026-07-29T12:00:00Z  INFO laozhou::qq: listener ready",
        ]
    );
}

#[test]
fn daemon_log_follow_cursor_starts_after_the_snapshot_for_each_source() {
    let files = daemon_log_files(&vec!["laozhou.2026-07-29.log".to_string()], true);
    let tails = vec![
        tail_file_lines("before fallback\n", 10),
        tail_file_lines("before rotating\n", 10),
    ];
    assert_eq!(
        recent_daemon_log_lines(&tails, 10),
        ["before fallback", "before rotating"]
    );
    let offsets = files
        .iter()
        .map(|name| FileOffset {
            name: name.clone(),
            offset: 16,
        })
        .collect();
    let cursor = daemon_log_follow_cursor_for_files(&files, &offsets, &Vec::new());
    assert_eq!(cursor.current.as_deref(), Some("laozhou.2026-07-29.log"));
    assert_eq!(cursor.fallback.as_deref(), Some("daemon.log"));
    assert_eq!(cursor.current_offset, 16);
    assert_eq!(cursor.fallback_offset, 16);

    let mut formatter = DaemonLogStreamFormatter::new();
    let mut output = Vec::new();
    let mut offset = cursor.current_offset;
    assert!(delta(
        b"before rotating\nafter rotating\n",
        &mut offset,
        &mut formatter,
        &mut output
    ));
    formatter.finish(false, &mut output);
    assert_eq!(streamed(&output), "after rotating\n");
}

#[test]
fn daemon_log_delta_avoids_duplicates_across_append_rotation_and_truncation() {
    let mut formatter = DaemonLogStreamFormatter::new();
    let mut output = Vec::new();

    let mut old = b"old partial".to_vec();
    let mut old_offset = 0;
    assert!(delta(&old, &mut old_offset, &mut formatter, &mut output));
    assert!(output.is_empty());
    old.extend_from_slice(b" completed\nold tail\n");
    assert!(delta(&old, &mut old_offset, &mut formatter, &mut output));
    formatter.finish(false, &mut output);

    let mut current =
        b"2026-07-29T12:00:00Z  INFO laozhou::qq: first\n  continuation\n".to_vec();
    let mut offset = 0;
    assert!(delta(&current, &mut offset, &mut formatter, &mut output));
    assert!(!delta(&current, &mut offset, &mut formatter, &mut output));

    current.extend_from_slice(b"2026-07-29T12:00:01Z  INFO laozhou::qq: \xe7\xbe");
    assert!(delta(&current, &mut offset, &mut formatter, &mut output));
    current.extend_from_slice(b"\xa4\xe8\x81\x8a\n");
    assert!(delta(&current, &mut offset, &mut formatter, &mut output));

    current.extend_from_slice(b"dangling");
    assert!(delta(&current, &mut offset, &mut formatter, &mut output));
    let current = b"reset\n".to_vec();
    assert!(delta(&current, &mut offset, &mut formatter, &mut output));
    assert_eq!(offset, 6);

    let rendered = streamed(&output);
    assert!(!rendered.contains('\x1b'));
    assert_eq!(rendered.matches("old partial completed").count(), 1);
    assert_eq!(rendered.matches("old tail").count(), 1);
    assert_eq!(rendered.matches("[INFO] [laozhou::qq] first").count(), 1);
    assert_eq!(rendered.matches("  continuation").count(), 1);
    assert_eq!(rendered.matches("[INFO] [laozhou::qq] 群聊").count(), 1);
    assert_eq!(rendered.matches("dangling").count(), 1);
    assert_eq!(rendered.matches("reset").count(), 1);
}

#[test]
fn repl_history_loads_user_messages_from_state() {
    let entry = |role: &str, content: &str| ConversationEntry {
        role: role.to_string(),
        content: content.to_string(),
    };
    let conversation = vec![
        entry("user", "first"),
        entry("assistant", "reply"),
        entry("user", "second"),
    ];

    assert_eq!(
        load_repl_input_history(&conversation, Vec::new()),
        vec!["first".to_string(), "second".to_string()]
    );
}

#[test]
fn progress_is_emitted_as_a_complete_line() {
    let message = "fetching repository";

    assert_eq!(
        write_default_kb_update_progress(message),
        format!("[default-kb] {}\n", message)
    );
}

#[test]
fn web_tool_image_event_exposes_asset_id_to_remote_cli() {
    let text = |value: &str| Json::Text(value.to_string());
    let event = Json::Object(vec![
        ("run_id".to_string(), text("run-1")),
        ("name".to_string(), text("show_meme")),
        (
            "asset".to_string(),
            Json::Object(vec![
                ("id".to_string(), text("img-1")),
                ("mime".to_string(), text("image/gif")),
            ]),
        ),
    ]);
    assert_eq!(remote_tool_image_asset_id(&event), Some("img-1"));
    assert_eq!(remote_tool_image_asset_id(&Json::Object(Vec::new())), None);
}

#[test]
fn ipc_command_response_distinguishes_errors_and_closed_connections() {
    assert!(validate_ipc_command_response(Some(IpcFrame::Ack)).is_ok());
    let rejected = validate_ipc_command_response(Some(IpcFrame::Error {
        code: None,
        message: "Laozhou is busy with another operation".to_string(),
    }))
    .unwrap_err();
    assert!(rejected.message().contains("busy with another operation"));

    let closed = validate_ipc_command_response(None).unwrap_err();
    assert!(closed
        .message()
        .contains("closed the connection without a response"));

    let unexpected = validate_ipc_command_response(Some(IpcFrame::Accepted {
        turn_id: None,
        run_id: "run-test".to_string(),
    }))
    .unwrap_err();
    assert!(unexpected.message().contains("unexpected response"));
}

#[test]
fn remote_gif_asset_is_converted_to_static_png() {
    let mut gif = Vec::new();
    {
        let mut encoder = image::codecs::gif::GifEncoder::new(&mut gif);
        encoder
            .encode_frames((0..2).map(|value| {
                image::Frame::from_parts(
                    image::RgbaImage::from_pixel(32, 32, image::Rgba([value, 20, 40, 255])),
                    0,
                    0,
                    image::Delay::from_numer_denom_ms(100, 1),
                )
            }))
            .unwrap();
    }
    let preview = remote_image_preview("image/gif", gif).unwrap();
    assert_eq!(preview.suffix, ".png");
    assert!(preview.bytes.starts_with(b"\x89PNG\r\n\x1a\n"));
    assert_eq!(
        image::load_from_memory(&preview.bytes).unwrap().width(),
        32
    );
}
