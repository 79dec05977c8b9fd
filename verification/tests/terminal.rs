use laozhou::echo::{
    committed_user_messages_text, primary_footer_text, queued_prompt_lines, repl_shortcut_hint_line,
    submitted_echo_bar, QueuedPrompt,
};
use laozhou::editor::LiveReplEditor;
use laozhou::footer::{
    mixed_model_endpoint_label, repl_footer_left, repl_footer_line, ModelChoice, ModelConfig,
    ReplFooterStatus,
};
use laozhou::frame::terminal_frame_layout;
use laozhou::keyboard::{strategy_for_platform, KeyboardEnhancementStrategy};
use laozhou::lang::{t, Lang};
use laozhou::live::{handle_live_agent_event, AgentEventKind, LiveEventStep};
use laozhou::mode::AgentMode;
use laozhou::placement::{
    live_frame_output_bottom, live_tail_next_start, live_tail_placement, max_live_tail_start,
    LiveTailPlacement,
};
use laozhou::replay::{session_replay_frame, ReplayStep, TurnReplay};
use laozhou::sanitize::strip_terminal_control_sequences;
use laozhou::tail::{ChatStreamChunk, ChatStreamKind, LiveReplTail};
use laozhou::tokens::{ChatResult, TurnTokens, Usage};
use laozhou::width::{truncate_visible_width, visible_width};

fn config(models: &[(&str, &str)]) -> ModelConfig {
    ModelConfig {
        active: models
            .iter()
            .map(|(provider, model)| ModelChoice {
                provider_id: provider.to_string(),
                model: model.to_string(),
            })
            .collect(),
        context_window: None,
        windows: Vec::new(),
        mixed_model_endpoint_display: "repl".to_string(),
    }
}

fn tokens(total: u64, prompt: u64, cache_read: u64) -> TurnTokens {
    TurnTokens {
        total,
        prompt,
        cache_read,
    }
}

fn footer() -> ReplFooterStatus {
    ReplFooterStatus::from_config(
        Lang::En,
        &config(&[("openai", "gpt-5")]),
        0,
        TurnTokens::none(),
    )
}

fn tail(external_output_active: bool) -> LiveReplTail {
    LiveReplTail {
        editor: LiveReplEditor::new(AgentMode::Normal, Vec::new()),
        queued: Vec::new(),
        pending_chunks: Vec::new(),
        footer: footer(),
        output_cursor: (0, 0),
        tail_start: 0,
        tail_rows: 0,
        input_cursor: (0, 0),
        rendered: false,
        external_output_active,
        raw_mode_handoff: false,
        jobs: Vec::new(),
        job_spinner: 0,
    }
}

#[test]
fn terminal_frame_tracks_ansi_and_wide_graphemes() {
    let layout = terminal_frame_layout("\x1b[32mAB\x1b[0m\n中👨‍👩‍👧‍👦".as_bytes(), (3, 2), 12, None);

    assert_eq!(layout.cursor, (4, 3));
    assert_eq!(layout.occupied_bottom, Some(3));
}

#[test]
fn terminal_frame_wraps_before_the_next_wide_grapheme() {
    let layout = terminal_frame_layout("中🙂".as_bytes(), (8, 1), 10, None);

    assert_eq!(layout.cursor, (2, 2));
    assert_eq!(layout.occupied_bottom, Some(2));
}

#[test]
fn terminal_frame_applies_cursor_motion_without_losing_bottom_occupancy() {
    let layout = terminal_frame_layout(b"first\nsecond\x1b[1A\x1b[3G!", (0, 4), 20, None);

    assert_eq!(layout.cursor, (3, 4));
    assert_eq!(layout.occupied_bottom, Some(5));
}

#[test]
fn terminal_frame_scroll_margin_keeps_cursor_above_live_input() {
    let layout = terminal_frame_layout("one\n二\nthree".as_bytes(), (0, 5), 20, Some(5));

    assert_eq!(layout.cursor, (5, 5));
    assert_eq!(layout.occupied_bottom, Some(5));
}

#[test]
fn live_frame_uses_the_gap_only_for_a_terminating_newline() {
    let content = terminal_frame_layout(b"answer", (0, 5), 20, None);
    assert_eq!(live_frame_output_bottom(6, content), Some(5));

    let terminated = terminal_frame_layout(b"answer\n", (0, 5), 20, None);
    assert_eq!(live_frame_output_bottom(6, terminated), Some(6));
    let bounded = terminal_frame_layout(
        b"answer\n",
        (0, 5),
        20,
        live_frame_output_bottom(6, terminated),
    );
    assert_eq!(bounded.cursor, (0, 6));
    assert_eq!(bounded.occupied_bottom, Some(5));
}

#[test]
fn replayed_job_wake_turns_are_not_drawn_as_user_prompts() {
    let wake = TurnReplay {
        display_content: "[后台任务完成] 子代理完成 82bea3 · 后台测试A".to_string(),
        assistant_content: "跑完了。".to_string(),
        entries: Vec::new(),
        is_job_wake: true,
    };
    let typed = TurnReplay {
        display_content: "帮我改一下 README".to_string(),
        assistant_content: "改好了。".to_string(),
        entries: Vec::new(),
        is_job_wake: false,
    };
    let text = |steps: Vec<ReplayStep>| {
        let mut text = String::new();
        for step in steps {
            match step {
                ReplayStep::Frame(part) | ReplayStep::Content(part) => text.push_str(&part),
                ReplayStep::ToolCall { name, .. } | ReplayStep::ToolResult { name, .. } => {
                    text.push_str(&name)
                }
                ReplayStep::EndTurn => text.push('\n'),
            }
        }
        text
    };

    let frame = text(session_replay_frame(&vec![wake], AgentMode::Normal, 80));
    // A dim notice without the bracketed prefix, never the bar of a message.
    assert!(frame.contains("⚙ 子代理完成 82bea3 · 后台测试A"));
    assert!(!frame.contains("[后台任务完成]"));
    assert!(!frame.contains(&submitted_echo_bar(AgentMode::Normal)));
    assert!(frame.contains("跑完了。"));

    let frame = text(session_replay_frame(&vec![typed], AgentMode::Normal, 80));
    assert!(frame.contains(&submitted_echo_bar(AgentMode::Normal)));
    assert!(!frame.contains('⚙'));
}

#[test]
fn footer_reset_clears_turn_and_cumulative_tokens() {
    let mut footer = ReplFooterStatus::from_config(
        Lang::En,
        &config(&[("openai", "gpt-5")]),
        100,
        tokens(250, 0, 0),
    );
    footer.set_token_usage(50, 100, Some(200_000), tokens(250, 0, 0));

    footer.reset_token_usage(0, Some(200_000));

    assert_eq!(footer.token_usage.turn_tokens, 0);
    assert_eq!(footer.token_usage.session_tokens, 0);
    assert_eq!(footer.token_usage.context_window, Some(200_000));
    assert_eq!(footer.token_usage.cumulative_tokens, None);

    footer.reset_token_usage(0, None);
    assert_eq!(footer.token_usage.context_window, None);
}

#[test]
fn footer_turn_completion_updates_the_rendered_token_accounting() {
    let mut footer = footer();
    let result = ChatResult {
        content: "reply".to_string(),
        usage: Some(Usage {
            prompt_tokens: 80,
            completion_tokens: 20,
            total_tokens: 100,
            cache_read_tokens: 0,
        }),
        usage_estimated: false,
        provider_id: None,
        model: None,
    };

    footer.update_token_usage(&result, 240, Some(200_000), tokens(100, 0, 0));

    assert_eq!(footer.token_usage.turn_tokens, 100);
    assert_eq!(footer.token_usage.session_tokens, 240);
    assert_eq!(footer.token_usage.cumulative_tokens, Some(100));
    assert_eq!(
        strip_terminal_control_sequences(&repl_footer_line(
            Lang::En,
            AgentMode::Normal,
            &footer,
            80
        ))
        .split_whitespace()
        .last(),
        Some("Σ100")
    );
}

#[test]
fn an_idle_tick_only_redraws_when_the_cumulative_actually_moved() {
    let mut footer = footer();
    let totals = tokens(32_808, 29_035, 17_664);
    assert!(footer.update_cumulative_tokens(totals));
    // The same total comes again every second; drawing the whole tail for each
    // of those would fight the animation of the strip.
    assert!(!footer.update_cumulative_tokens(totals));

    // Only the cached part moves: all three figures count.
    assert!(footer.update_cumulative_tokens(TurnTokens {
        cache_read: 20_000,
        ..totals
    }));
}

#[test]
fn the_footer_leaves_the_per_turn_figure_to_the_token_line() {
    let mut footer = footer();
    footer.set_token_usage_with_cache(
        tokens(21_224, 16_139, 6_528),
        21_700,
        Some(1_000_000),
        tokens(180_100, 47_538, 11_392),
    );

    let line = strip_terminal_control_sequences(&repl_footer_line(
        Lang::En,
        AgentMode::Normal,
        &footer,
        80,
    ));
    assert!(line.contains("21.7k/1M(2.2%)"), "{line}");
    assert!(line.contains("Σ180.1k(C24%)"), "{line}");
    assert!(!line.contains("21.2k"), "{line}");
    assert!(!line.contains("C40%"), "{line}");
    assert!(
        visible_width(&line) <= 80,
        "footer must fit 80 columns: {} — {line}",
        visible_width(&line)
    );
}

#[test]
fn footer_variant_always_uses_the_fixed_primary_color() {
    let mut footer = footer();
    footer.update_thinking_variant(Some("high"));

    for mode in [AgentMode::Normal, AgentMode::Plan, AgentMode::Chat] {
        let line = repl_footer_left(Lang::En, mode, &footer, 120);
        assert!(line.contains("\x1b[1m\x1b[34mhigh\x1b[0m"));
        assert_eq!(
            strip_terminal_control_sequences(&line),
            format!(
                "{} · {} {} · high",
                mode.label(Lang::En),
                footer.model,
                footer.provider
            )
        );
    }
}

#[test]
fn mixed_footer_uses_dim_provider_and_hides_global_variant() {
    let config = config(&[("openai", "first-model"), ("openai", "footer-second-model")]);
    let mut footer = ReplFooterStatus::from_config(Lang::En, &config, 0, TurnTokens::none());
    footer.update_thinking_variant(Some("mixed"));

    let line = repl_footer_left(Lang::En, AgentMode::Normal, &footer, 120);

    assert_eq!(footer.provider, "mixed");
    assert!(footer.thinking.is_none());
    assert_eq!(
        strip_terminal_control_sequences(&line),
        format!(
            "{} · {} mixed",
            AgentMode::Normal.label(Lang::En),
            t(Lang::En, "Mixed", "混合")
        )
    );
    assert!(line.contains("\x1b[2mmixed\x1b[0m"));
    assert!(!line.contains(&primary_footer_text("mixed")));
}

#[test]
fn committed_user_message_keeps_one_blank_line_before_output() {
    let output = committed_user_messages_text(&[("hello", AgentMode::Normal)], true, 80);

    assert_eq!(
        strip_terminal_control_sequences(&output),
        "\n┃\n┃ hello\n┃\n\n"
    );
}

#[test]
fn queued_message_uses_full_height_bar_and_primary_status() {
    let prompt = || QueuedPrompt {
        prompt_id: "q1".to_string(),
        seq: 1,
        content: "follow up".to_string(),
        display_content: "follow up".to_string(),
        attachments: Vec::new(),
        uploaded_attachments: Vec::new(),
        submitted_at: String::new(),
    };

    let normal = queued_prompt_lines(Lang::En, &vec![prompt()], AgentMode::Normal, 80);
    let plan = queued_prompt_lines(Lang::En, &vec![prompt()], AgentMode::Plan, 80);

    assert_eq!(normal.len(), 4);
    assert_eq!(normal[0], submitted_echo_bar(AgentMode::Normal));
    assert_eq!(normal[2], submitted_echo_bar(AgentMode::Normal));
    assert!(normal[3].starts_with(&submitted_echo_bar(AgentMode::Normal)));
    assert!(normal[3].contains(&primary_footer_text(t(Lang::En, "Queued", "排队中"))));
    assert!(plan
        .iter()
        .filter(|line| !line.is_empty())
        .all(|line| line.starts_with(&submitted_echo_bar(AgentMode::Plan))));
    assert_ne!(normal[0], plan[0]);
}

#[test]
fn live_tail_moves_naturally_and_releases_after_output_shrinks() {
    assert_eq!(max_live_tail_start(6, 5), 0);
    assert_eq!(max_live_tail_start(24, 5), 18);
    assert_eq!(
        live_tail_placement(0, 4, 5, 24, false),
        LiveTailPlacement {
            output_row: 4,
            tail_start: 4,
            overflow: 0,
            anchored: false,
        }
    );
    assert_eq!(
        live_tail_placement(0, 20, 5, 24, false),
        LiveTailPlacement {
            output_row: 18,
            tail_start: 18,
            overflow: 2,
            anchored: true,
        }
    );
    assert_eq!(
        live_tail_placement(0, 6, 5, 24, false),
        LiveTailPlacement {
            output_row: 6,
            tail_start: 6,
            overflow: 0,
            anchored: false,
        }
    );
    assert_eq!(live_tail_placement(0, 6, 5, 30, false).tail_start, 6);
}

#[test]
fn anchored_tail_stays_at_the_bottom_when_it_shrinks() {
    // A strip of jobs made a tail of five rows at the bottom seven rows high and
    // scrolled the screen twice, so output ends in row 16. The strip goes away.
    let shrunk = live_tail_placement(0, 16, 5, 24, true);
    assert_eq!(
        shrunk,
        LiveTailPlacement {
            output_row: 16,
            tail_start: 18,
            overflow: 0,
            anchored: true,
        }
    );
    assert_eq!(shrunk.tail_start + 5, 24 - 1);

    // Without the anchor the tail follows the output.
    assert_eq!(
        live_tail_placement(0, 16, 5, 24, false),
        LiveTailPlacement {
            output_row: 16,
            tail_start: 16,
            overflow: 0,
            anchored: false,
        }
    );

    // Growing at the bottom still scrolls.
    assert_eq!(
        live_tail_placement(0, 18, 7, 24, true),
        LiveTailPlacement {
            output_row: 16,
            tail_start: 16,
            overflow: 2,
            anchored: true,
        }
    );
}

#[test]
fn streaming_output_never_drags_an_anchored_tail_back_up() {
    let max_tail = max_live_tail_start(24, 5);
    assert_eq!(max_tail, 18);
    assert_eq!(live_tail_next_start(18, 16, max_tail), 18);
    assert_eq!(live_tail_next_start(18, 18, max_tail), 18);
    assert_eq!(live_tail_next_start(18, 21, max_tail), 18);

    // A tail that is not at the bottom keeps following the output.
    assert_eq!(live_tail_next_start(10, 12, max_tail), 12);
    assert_eq!(live_tail_next_start(10, 8, max_tail), 8);
    assert_eq!(live_tail_next_start(10, 30, max_tail), 18);
}

#[test]
fn spinner_does_not_resume_tail_during_external_output() {
    let mut live = tail(true);

    let step = handle_live_agent_event(&mut live, AgentEventKind::SpinnerTick);

    assert!(matches!(step, LiveEventStep::Ignore));
    assert!(live.external_output_active);
    assert!(!live.rendered);
}

#[test]
fn live_tail_coalesces_adjacent_stream_chunks_and_can_discard_them() {
    let mut live = tail(false);

    for (kind, text) in [
        (ChatStreamKind::Reasoning, "one"),
        (ChatStreamKind::Reasoning, " two"),
        (ChatStreamKind::Content, "answer"),
        (ChatStreamKind::Content, " text"),
    ] {
        live.queue_stream_chunk(ChatStreamChunk {
            kind,
            text: text.to_string(),
        });
    }

    assert_eq!(live.pending_chunks.len(), 2);
    assert_eq!(live.pending_chunks[0].text, "one two");
    assert_eq!(live.pending_chunks[1].text, "answer text");
    live.discard_pending_chunks();
    assert!(live.pending_chunks.is_empty());
}

#[test]
fn mixed_endpoint_label_only_omits_unset_variant() {
    assert_eq!(
        mixed_model_endpoint_label("provider", "model", None),
        "provider / model"
    );
    assert_eq!(
        mixed_model_endpoint_label("provider", "model", Some("default")),
        "provider / model · default"
    );
    assert_eq!(
        mixed_model_endpoint_label("provider", "model", Some("high")),
        "provider / model · high"
    );
}

#[test]
fn truncation_respects_very_narrow_widths() {
    assert_eq!(truncate_visible_width("abcdef", 0), "");
    assert_eq!(truncate_visible_width("abcdef", 1), ".");
    assert_eq!(truncate_visible_width("abcdef", 2), "..");
    assert_eq!(truncate_visible_width("abcdef", 3), "...");
}

#[test]
fn shortcut_hint_line_is_bar_aligned_and_truncated() {
    let line = repl_shortcut_hint_line(Lang::En, AgentMode::Normal, 24);
    assert!(strip_terminal_control_sequences(&line).contains("Tab"));
    assert!(visible_width(&line) <= 24);
}

#[test]
fn legacy_windows_skips_keyboard_enhancement() {
    assert_eq!(
        strategy_for_platform(true),
        KeyboardEnhancementStrategy::Skip
    );
}

#[test]
fn non_windows_uses_best_effort_keyboard_enhancement() {
    assert_eq!(
        strategy_for_platform(false),
        KeyboardEnhancementStrategy::BestEffort
    );
}
