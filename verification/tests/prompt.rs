use laozhou::commands::{
    parse_repl_input, repl_command_spec, repl_command_suggestions, repl_command_suggestions_line,
    repl_command_table, repl_commands, resolve_repl_command, split_repl_command, ReplInput,
    ReplSlashCommand,
};
use laozhou::edit::{
    insert_char_at_cursor, insert_newline_at_cursor, insert_pasted_text_at_cursor,
    insert_str_at_cursor, remove_char_at_cursor, remove_char_before_cursor,
    remove_word_before_cursor,
};
use laozhou::editor::{
    repl_should_browse_history, Event, KeyCode, KeyModifiers, LiveEditorAction, LiveReplEditor,
};
use laozhou::lang::Lang;
use laozhou::layout::{
    repl_cursor_position_for_cols, repl_move_cursor_vertical_for_cols, repl_prompt_rows_for_cols,
    repl_visible_input_lines, repl_wrapped_input_rows_for_cols,
};
use laozhou::mode::AgentMode;
use laozhou::paste::{
    pasted_text_line_count, pasted_text_placeholder, should_summarize_pasted_text,
};
use laozhou::placeholder::{
    colorize_repl_placeholders, expand_pasted_text_placeholders, find_pasted_text_placeholders,
    placeholder_after_cursor, placeholder_after_or_at_cursor, placeholder_at_cursor,
    placeholder_before_cursor, placeholder_before_or_at_cursor, placeholder_text_near_cursor,
    PastedText,
};
use laozhou::sanitize::strip_terminal_control_sequences;
use laozhou::width::visible_width;

const NONE: KeyModifiers = KeyModifiers {
    control: false,
    shift: false,
};
const CONTROL: KeyModifiers = KeyModifiers {
    control: true,
    shift: false,
};
const SHIFT: KeyModifiers = KeyModifiers {
    control: false,
    shift: true,
};
const SIZE: Option<(u16, u16)> = Some((80, 24));

fn key(code: KeyCode, modifiers: KeyModifiers) -> Event {
    Event::Key {
        code,
        modifiers,
        release: false,
    }
}

#[test]
fn live_editor_restores_clear_screen_and_double_escape_controls() {
    let escape = || key(KeyCode::Esc, NONE);
    let mut editor = LiveReplEditor::new(AgentMode::Normal, Vec::new());
    editor.input = "draft".to_string();
    assert!(matches!(
        editor.handle_event(Lang::En, escape(), 1_000, SIZE, true),
        LiveEditorAction::Redraw
    ));
    // Arming the interrupt keeps the draft.
    assert_eq!(editor.input, "draft");
    assert!(matches!(
        editor.handle_event(Lang::En, escape(), 1_500, SIZE, true),
        LiveEditorAction::Interrupt
    ));
    assert_eq!(editor.input, "draft");

    let clear = key(KeyCode::Char('l'), CONTROL);
    assert!(matches!(
        editor.handle_event(Lang::En, clear, 1_600, SIZE, true),
        LiveEditorAction::ClearScreen
    ));

    assert!(matches!(
        editor.handle_event(Lang::En, escape(), 1_700, SIZE, false),
        LiveEditorAction::Redraw
    ));
    assert!(matches!(
        editor.handle_event(Lang::En, escape(), 1_800, SIZE, false),
        LiveEditorAction::Redraw
    ));
    // Esc clears no draft anywhere.
    assert_eq!(editor.input, "draft");
    editor.clear();

    assert!(matches!(
        editor.handle_event(Lang::En, key(KeyCode::Enter, NONE), 1_900, SIZE, false),
        LiveEditorAction::EmptySubmit
    ));
    assert!(editor.history.is_empty());

    editor.input = "/help".to_string();
    editor.cursor = editor.input.chars().count();
    assert!(matches!(
        editor.handle_event(Lang::En, key(KeyCode::Enter, NONE), 2_000, SIZE, false),
        LiveEditorAction::Submit(_)
    ));
    assert!(editor.history.is_empty());
    editor.record_history("ordinary prompt");
    assert_eq!(editor.history, ["ordinary prompt"]);
}

#[test]
fn live_editor_shift_enter_inserts_newline_without_submit() {
    let mut editor = LiveReplEditor::new(AgentMode::Normal, Vec::new());
    editor.input = "hello".to_string();
    editor.cursor = 5;
    assert!(matches!(
        editor.handle_event(Lang::En, key(KeyCode::Enter, SHIFT), 0, SIZE, false),
        LiveEditorAction::Redraw
    ));
    assert_eq!(editor.input, "hello\n");
    assert_eq!(editor.cursor, 6);

    assert!(matches!(
        editor.handle_event(Lang::En, key(KeyCode::Char('j'), CONTROL), 0, SIZE, false),
        LiveEditorAction::Redraw
    ));
    assert_eq!(editor.input, "hello\n\n");
    assert_eq!(editor.cursor, 7);
}

#[test]
fn prompt_rows_wrap_at_terminal_width() {
    assert_eq!(repl_prompt_rows_for_cols("", &["1234567".into()], 10), 1);
    assert_eq!(repl_prompt_rows_for_cols("", &["1234567890".into()], 10), 2);
    assert_eq!(
        repl_prompt_rows_for_cols("", &["123".into(), "456".into()], 10),
        2
    );
}

#[test]
fn cursor_position_wraps_at_terminal_width() {
    assert_eq!(repl_cursor_position_for_cols("", "1234567", 7, 10), (7, 0));
    assert_eq!(
        repl_cursor_position_for_cols("", "1234567890", 10, 10),
        (0, 1)
    );
    assert_eq!(repl_cursor_position_for_cols("", "123\n456", 7, 10), (3, 1));
    assert_eq!(repl_cursor_position_for_cols("", "1234567", 3, 10), (3, 0));
}

#[test]
fn cursor_position_keeps_prefix_after_newline() {
    assert_eq!(repl_cursor_position_for_cols("  ", "123\n", 4, 10), (2, 1));
    assert_eq!(
        repl_cursor_position_for_cols("  ", "123\n456", 7, 10),
        (5, 1)
    );
}

#[test]
fn prompt_rows_include_prefix_on_each_line() {
    assert_eq!(
        repl_prompt_rows_for_cols("  ", &["12".into(), "34".into()], 5),
        2
    );
    assert_eq!(
        repl_prompt_rows_for_cols("  ", &["123".into(), "34".into()], 5),
        3
    );
}

#[test]
fn wrapped_input_rows_keep_prefix_outside_content_width() {
    assert_eq!(
        repl_wrapped_input_rows_for_cols("  ", &["123456789".into()], 10),
        vec!["12345678".to_string(), "9".to_string()]
    );
    assert_eq!(
        repl_wrapped_input_rows_for_cols("  ", &["12345678".into()], 10),
        vec!["12345678".to_string(), String::new()]
    );
    assert_eq!(
        repl_cursor_position_for_cols("  ", "12345678", 8, 10),
        (2, 1)
    );
}

#[test]
fn history_browsing_requires_empty_or_clean_history_input() {
    let history = vec!["first".to_string(), "second".to_string()];

    assert!(repl_should_browse_history("", &history, None));
    assert!(repl_should_browse_history("second", &history, Some(1)));
    assert!(!repl_should_browse_history("draft", &history, None));
    assert!(!repl_should_browse_history(
        "second edited",
        &history,
        Some(1)
    ));
}

#[test]
fn vertical_cursor_move_uses_soft_wrapped_rows() {
    assert_eq!(
        repl_move_cursor_vertical_for_cols("  ", "123456789", 9, -1, 10),
        1
    );
    assert_eq!(
        repl_move_cursor_vertical_for_cols("  ", "123456789", 1, 1, 10),
        9
    );
}

#[test]
fn vertical_cursor_move_handles_explicit_newlines() {
    assert_eq!(
        repl_move_cursor_vertical_for_cols("  ", "abc\ndef", 6, -1, 20),
        2
    );
    assert_eq!(
        repl_move_cursor_vertical_for_cols("  ", "abc\ndef", 2, 1, 20),
        6
    );
}

#[test]
fn vertical_cursor_move_handles_wide_chars_near_wrap() {
    assert_eq!(
        repl_cursor_position_for_cols("  ", "1234567你", 8, 11),
        (2, 1)
    );
    assert_eq!(
        repl_cursor_position_for_cols("  ", "12345678你", 9, 11),
        (4, 1)
    );
    assert_eq!(
        repl_move_cursor_vertical_for_cols("  ", "12345678你好", 9, -1, 11),
        2
    );
}

#[test]
fn reset_is_a_repl_command() {
    assert!(repl_commands().contains(&"/reset"));
}

#[test]
fn compact_is_a_repl_command() {
    assert!(repl_commands().contains(&"/compact"));
}

#[test]
fn pop_is_a_repl_command_with_an_optional_count() {
    assert!(repl_commands().contains(&"/pop"));
    assert_eq!(split_repl_command("/pop 3"), ("/pop", "3"));
    assert_eq!(resolve_repl_command("/po"), "/pop");
    assert_eq!(resolve_repl_command("/pe"), "/persona");
}

#[test]
fn usage_and_persona_are_repl_commands() {
    assert!(repl_commands().contains(&"/usage"));
    assert!(repl_commands().contains(&"/persona"));
    assert_eq!(resolve_repl_command("/us"), "/usage");
    assert_eq!(
        split_repl_command("/persona Alice.md"),
        ("/persona", "Alice.md")
    );
}

#[test]
fn variant_is_a_repl_command_with_arguments() {
    assert!(repl_commands().contains(&"/variant"));
    assert_eq!(split_repl_command("/variant high"), ("/variant", "high"));
    assert_eq!(split_repl_command("/reset all"), ("/reset", "all"));
    assert_eq!(resolve_repl_command("/var"), "/variant");
}

#[test]
fn command_suggestions_are_prefixed_and_truncated() {
    let suggestions = repl_command_suggestions("/");
    let line = repl_command_suggestions_line(&suggestions, 24);
    assert!(line.starts_with("/new"));
    assert!(visible_width(&line) <= 24);

    let line = repl_command_suggestions_line(&["/compact"], 40);
    assert_eq!(line, "/compact");
}

#[test]
fn wipe_is_its_own_command_not_a_suffix_on_reset() {
    assert!(matches!(
        parse_repl_input("/wipe"),
        ReplInput::Slash(ReplSlashCommand::Wipe, "")
    ));
    assert!(matches!(
        parse_repl_input("/reset"),
        ReplInput::Slash(ReplSlashCommand::Reset, "")
    ));
    assert!(matches!(
        parse_repl_input("/reset all"),
        ReplInput::Slash(ReplSlashCommand::Reset, "all")
    ));
}

#[test]
fn partial_slash_command_resolves_unique_match() {
    assert_eq!(resolve_repl_command("/model"), "/models");
    assert_eq!(resolve_repl_command("/compa"), "/compact");
    assert_eq!(resolve_repl_command("/co"), "/co");
    assert_eq!(resolve_repl_command("hello"), "hello");
}

#[test]
fn parse_repl_input_dispatches_by_table() {
    assert!(matches!(parse_repl_input("hello"), ReplInput::Chat));
    assert!(matches!(
        parse_repl_input("/models"),
        ReplInput::Slash(ReplSlashCommand::Models, "")
    ));
    assert!(matches!(
        parse_repl_input("/compa"),
        ReplInput::Slash(ReplSlashCommand::Compact, "")
    ));
    assert!(matches!(
        parse_repl_input("/reset all"),
        ReplInput::Slash(ReplSlashCommand::Reset, "all")
    ));
    assert!(matches!(
        parse_repl_input("/POP 3"),
        ReplInput::Slash(ReplSlashCommand::Pop, "3")
    ));
    assert!(matches!(
        parse_repl_input("/co"),
        ReplInput::UnknownSlash("/co")
    ));
    assert!(matches!(
        parse_repl_input("/nope"),
        ReplInput::UnknownSlash("/nope")
    ));
}

#[test]
fn every_repl_slash_command_has_a_table_entry() {
    for spec in repl_command_table() {
        assert_eq!(repl_command_spec(spec.command).command, spec.command);
    }
}

#[test]
fn input_helpers_edit_at_cursor() {
    let mut input = "abcd".to_string();
    let mut cursor = 2;
    insert_char_at_cursor(&mut input, &mut cursor, '中');
    assert_eq!(input, "ab中cd");
    assert_eq!(cursor, 3);

    remove_char_before_cursor(&mut input, &mut cursor);
    assert_eq!(input, "abcd");
    assert_eq!(cursor, 2);

    remove_char_at_cursor(&mut input, cursor);
    assert_eq!(input, "abd");
    assert_eq!(cursor, 2);
}

#[test]
fn input_helpers_remove_word_before_cursor() {
    let mut input = "hello world  ".to_string();
    let mut cursor = input.chars().count();
    remove_word_before_cursor(&mut input, &mut cursor);
    assert_eq!(input, "hello ");
    assert_eq!(cursor, 6);

    let mut input = "前面 中间 后面".to_string();
    let mut cursor = 6;
    remove_word_before_cursor(&mut input, &mut cursor);
    assert_eq!(input, "前面 后面");
    assert_eq!(cursor, 3);
}

#[test]
fn input_helpers_insert_paste_at_cursor() {
    let mut input = "前后".to_string();
    let mut cursor = 1;
    insert_str_at_cursor(&mut input, &mut cursor, "中间");
    assert_eq!(input, "前中间后");
    assert_eq!(cursor, 3);
}

#[test]
fn input_helpers_insert_newline_at_cursor() {
    let mut input = "前后".to_string();
    let mut cursor = 1;
    insert_newline_at_cursor(&mut input, &mut cursor);
    assert_eq!(input, "前\n后");
    assert_eq!(cursor, 2);
}

#[test]
fn long_paste_visible_lines_are_collapsed() {
    let lines = (0..20)
        .map(|index| format!("line {index}"))
        .collect::<Vec<_>>();
    let visible = repl_visible_input_lines(Lang::En, "[NORMAL] > ", &lines, 12, true, 80);

    assert_eq!(visible.len(), 3);
    assert_eq!(visible[0], "line 0");
    assert!(visible[1].contains("18") || visible[1].contains("已隐藏 18"));
    assert_eq!(visible[2], "line 19");
    assert_eq!(lines.len(), 20);
}

#[test]
fn long_paste_is_replaced_with_placeholder_and_expanded() {
    let text = "alpha\nbeta\ngamma".to_string();
    for lang in [Lang::En, Lang::Zh] {
        let placeholder = pasted_text_placeholder(lang, 1, pasted_text_line_count(&text));
        let input = format!("请分析 {placeholder}谢谢");
        let pasted_texts = vec![Some(PastedText { text: text.clone() })];

        assert!(should_summarize_pasted_text(&text));
        assert_eq!(
            expand_pasted_text_placeholders(&input, &pasted_texts),
            "请分析 alpha\nbeta\ngamma谢谢"
        );
    }
}

#[test]
fn short_paste_is_not_summarized() {
    assert!(!should_summarize_pasted_text("short paste"));
}

#[test]
fn insert_pasted_text_summarizes_long_clipboard_text() {
    for (lang, expected) in [
        (Lang::En, "前[Pasted 1: ~3 lines]后"),
        (Lang::Zh, "前[粘贴 1: ~3 行]后"),
    ] {
        let mut input = "前后".to_string();
        let mut cursor = 1;
        let mut pasted_texts = Vec::new();

        insert_pasted_text_at_cursor(
            lang,
            &mut input,
            &mut cursor,
            "alpha\nbeta\ngamma".to_string(),
            &mut pasted_texts,
        );

        assert_eq!(input, expected);
        assert_eq!(pasted_texts.len(), 1);
        assert_eq!(cursor, input.chars().count() - 1);
    }
}

#[test]
fn pasted_placeholder_is_treated_as_atomic_token() {
    let input = "前[Pasted 1: ~3 lines] 后";
    assert_eq!(placeholder_at_cursor(input, 3), Some((1, 21)));
    assert_eq!(placeholder_before_cursor(input, 21), Some((1, 21)));
    assert_eq!(placeholder_after_cursor(input, 1), Some((1, 21)));
    assert_eq!(placeholder_before_or_at_cursor(input, 3), Some((1, 21)));
    assert_eq!(placeholder_after_or_at_cursor(input, 3), Some((1, 21)));
}

#[test]
fn chinese_pasted_placeholder_is_supported() {
    let input = "前[粘贴 1: ~3 行] 后";
    let placeholder = find_pasted_text_placeholders(input);

    assert_eq!(placeholder, vec![(1, 13, 1)]);
    assert_eq!(placeholder_at_cursor(input, 3), Some((1, 13)));
    assert_eq!(placeholder_before_cursor(input, 13), Some((1, 13)));
    assert_eq!(placeholder_after_cursor(input, 1), Some((1, 13)));
}

#[test]
fn colorizes_image_and_pasted_placeholders() {
    let colored = colorize_repl_placeholders("[Image 1] [Pasted 1: ~3 lines]");
    assert!(colored.contains("\x1b[35m[Image 1]\x1b[0m"));
    assert!(colored.contains("\x1b[35m[Pasted 1: ~3 lines]\x1b[0m"));
}

#[test]
fn placeholder_text_near_cursor_expands_pasted_placeholder() {
    let input = "前[Pasted 1: ~3 lines]后";
    let pasted_texts = vec![Some(PastedText {
        text: "alpha\nbeta\ngamma".to_string(),
    })];

    assert_eq!(
        placeholder_text_near_cursor(input, 3, &pasted_texts),
        Some("alpha\nbeta\ngamma".to_string())
    );
}

#[test]
fn strips_terminal_control_sequences_from_repl_text() {
    assert_eq!(
        strip_terminal_control_sequences("\x1b[E表情包\x1b[0m\x07 ok"),
        "表情包 ok"
    );
    assert_eq!(
        strip_terminal_control_sequences("line1\nline2\tend"),
        "line1\nline2\tend"
    );
}
