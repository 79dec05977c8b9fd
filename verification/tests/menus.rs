use laozhou::editor::{KeyCode, KeyModifiers};
use laozhou::lang::{t, Lang};
use laozhou::picker::{
    inline_fuzzy_header, inline_fuzzy_help_line, inline_fuzzy_item_line, inline_select_key,
    pop_matches, InlineSelectKey,
};
use laozhou::pop::{
    parse_repl_pop_count, pop_menu_header, pop_menu_help_line, pop_menu_turn_lines, Turn,
    TurnStatus,
};
use laozhou::sanitize::strip_terminal_control_sequences;
use laozhou::session::{
    session_initial_selection, session_list_line, session_ref_from_index, SessionListEntry,
    SessionRef,
};
use laozhou::variant::{
    resolve_variant_name, single_variant_content_width, variant_menu_column_widths,
    ThinkingVariantOptions, VariantMenuItem,
};
use laozhou::width::visible_width;

fn sample_pop_turn(status: TurnStatus) -> Turn {
    Turn {
        turn_id: "turn-1".to_string(),
        user_content: "first prompt line\nsecond prompt line".to_string(),
        user_timestamp: "2026-07-19 10:42".to_string(),
        assistant_content: "first answer line\nsecond answer line".to_string(),
        status,
    }
}

#[test]
fn picker_keys_reach_delete_only_through_a_modifier() {
    let plain = KeyModifiers {
        control: false,
        shift: false,
    };
    let control = KeyModifiers {
        control: true,
        shift: false,
    };

    // Every printable character is search input, so a bare `d` deletes nothing.
    assert_eq!(
        inline_select_key(KeyCode::Char('d'), plain, true),
        InlineSelectKey::Char('d')
    );
    assert_eq!(
        inline_select_key(KeyCode::Char('d'), control, true),
        InlineSelectKey::DeleteRequest
    );
    assert_eq!(
        inline_select_key(KeyCode::Delete, plain, true),
        InlineSelectKey::DeleteRequest
    );

    assert_eq!(
        inline_select_key(KeyCode::Char('d'), control, false),
        InlineSelectKey::Ignore
    );
    assert_eq!(
        inline_select_key(KeyCode::Delete, plain, false),
        InlineSelectKey::Ignore
    );

    assert_eq!(
        inline_select_key(KeyCode::Char('c'), control, true),
        InlineSelectKey::Cancel
    );
    assert_eq!(
        inline_select_key(KeyCode::Esc, plain, true),
        InlineSelectKey::Cancel
    );
    assert_eq!(
        inline_select_key(KeyCode::Enter, plain, true),
        InlineSelectKey::Accept
    );
    assert_eq!(
        inline_select_key(KeyCode::Char('j'), plain, true),
        InlineSelectKey::Down
    );
    assert_eq!(
        inline_select_key(KeyCode::Char('k'), plain, true),
        InlineSelectKey::Up
    );
}

#[test]
fn repl_pop_accepts_zero_or_one_positive_integer() {
    assert_eq!(parse_repl_pop_count(Lang::En, "").unwrap(), None);
    assert_eq!(parse_repl_pop_count(Lang::En, " 3 ").unwrap(), Some(3));
    assert!(parse_repl_pop_count(Lang::En, "0").is_err());
    assert!(parse_repl_pop_count(Lang::En, "nope").is_err());
    assert!(parse_repl_pop_count(Lang::En, "1 2").is_err());
}

#[test]
fn pop_menu_uses_three_lines_without_context_metadata() {
    let turn = sample_pop_turn(TurnStatus::Completed);
    let lines = pop_menu_turn_lines(Lang::En, &turn, true, false, 80)
        .iter()
        .map(|line| strip_terminal_control_sequences(line))
        .collect::<Vec<_>>();

    assert_eq!(lines.len(), 3);
    assert_eq!(lines[0], "› [ ] 2026-07-19 10:42");
    assert!(lines[1].contains("first prompt line"));
    assert!(!lines[1].contains("second prompt line"));
    assert!(lines[2].contains("first answer line"));
    assert!(!lines[2].contains("second answer line"));
    let joined = lines.join(" ");
    assert!(!joined.contains("hidden tool report"));
    assert!(!joined.contains("private reasoning"));
    assert!(lines.iter().all(|line| visible_width(line) <= 80));
}

#[test]
fn pop_menu_labels_an_interrupted_reply_without_showing_the_reminder() {
    let mut turn = sample_pop_turn(TurnStatus::Interrupted);
    turn.assistant_content = "<system-reminder>interrupted</system-reminder>".to_string();
    let lines = pop_menu_turn_lines(Lang::En, &turn, false, true, 80)
        .iter()
        .map(|line| strip_terminal_control_sequences(line))
        .collect::<Vec<_>>();

    assert!(lines[2].contains("中断") || lines[2].contains("interrupted"));
    assert!(!lines[2].contains("system-reminder"));
}

#[test]
fn pop_menu_footer_has_controls_but_no_position_counter() {
    let help = strip_terminal_control_sequences(&pop_menu_help_line(Lang::En, 120));
    assert!(help.contains("Tab"));
    assert!(help.contains("Enter"));
    assert!(!help.contains("3 / 8"));

    let header = strip_terminal_control_sequences(&pop_menu_header(Lang::En, "", 2, 8, 80));
    assert!(header.contains("2 / 8"));
}

#[test]
fn filtered_pop_turns_keep_oldest_first_order() {
    let items = vec![
        "old matching prompt".to_string(),
        "middle unrelated".to_string(),
        "new matching prompt".to_string(),
    ];

    assert_eq!(pop_matches(&items, "matching"), vec![0, 2]);
}

#[test]
fn variant_menu_checks_pending_selection_before_confirming() {
    let options = ThinkingVariantOptions {
        provider_id: "ririxin".to_string(),
        model: "deepseek-v4-flash".to_string(),
        variants: vec!["high".to_string(), "max".to_string()],
        selected: Some("high".to_string()),
    };
    let mut item = VariantMenuItem::from_options(&options);
    assert_eq!(
        item.options
            .iter()
            .map(|option| option.label.as_str())
            .collect::<Vec<_>>(),
        vec!["default", "high", "max"]
    );
    assert_eq!(item.selection().2.as_deref(), Some("high"));

    item.cursor = 2;
    assert_eq!(item.selection().2.as_deref(), Some("high"));
    item.check_cursor();
    assert_eq!(item.selection().2.as_deref(), Some("max"));
}

#[test]
fn single_variant_menu_uses_content_width() {
    let item = VariantMenuItem::from_options(&ThinkingVariantOptions {
        provider_id: "ririxin".to_string(),
        model: "deepseek-v4-flash".to_string(),
        variants: vec!["high".to_string(), "max".to_string()],
        selected: None,
    });

    assert!(single_variant_content_width(Lang::En, &item) < 30);
}

#[test]
fn mixed_variant_columns_do_not_fill_wide_terminal() {
    let items = ["myopencode", "myopencode6"]
        .into_iter()
        .map(|provider_id| {
            VariantMenuItem::from_options(&ThinkingVariantOptions {
                provider_id: provider_id.to_string(),
                model: "deepseek-v4-flash-free".to_string(),
                variants: vec!["high".to_string(), "max".to_string()],
                selected: None,
            })
        })
        .collect::<Vec<_>>();

    let (left, right) = variant_menu_column_widths(Lang::En, &items, 120);
    assert!(left + right < 80);
    assert!(left >= visible_width("myopencode6 / deepseek-v4-flash-free") + 2);
    assert!(right >= visible_width("[*] default") + 2);
}

#[test]
fn variant_menu_distinguishes_unset_from_default_effort() {
    let options = ThinkingVariantOptions {
        provider_id: "groq".to_string(),
        model: "qwen/qwen3-32b".to_string(),
        variants: vec!["none".to_string(), "default".to_string()],
        selected: Some("default".to_string()),
    };
    let item = VariantMenuItem::from_options(&options);

    assert_eq!(item.options[0].label, "default");
    assert_eq!(item.options[0].value, None);
    assert_eq!(item.options[2].label, "default (variant)");
    assert_eq!(item.options[2].value.as_deref(), Some("default"));
    assert_eq!(item.selected, 2);
    assert_eq!(item.selection().2.as_deref(), Some("default"));
}

#[test]
fn explicit_variant_prefix_can_select_default_effort() {
    let argument = "variant:default";
    assert_eq!(argument.strip_prefix("variant:"), Some("default"));
    assert_ne!(argument, "default");
}

#[test]
fn variant_name_resolution_handles_default_and_case_insensitive_names() {
    let available = vec!["low".to_string(), "high".to_string(), "default".to_string()];
    let resolve = |name: &str| resolve_variant_name(Lang::En, name, &available);

    assert_eq!(resolve("HIGH").unwrap(), Some("high".into()));
    assert_eq!(resolve("default").unwrap(), None);
    assert_eq!(resolve("variant:default").unwrap(), Some("default".into()));
    assert!(resolve("unknown").is_err());
    assert!(resolve("Variant:default").is_err());
}

#[test]
fn inline_fuzzy_lines_are_bar_aligned_and_truncated() {
    let header = inline_fuzzy_header(Lang::En, "big", 12);
    assert!(
        strip_terminal_control_sequences(&header).contains(t(Lang::En, "Select", "选择模型"))
    );
    assert!(visible_width(&header) <= 12);

    let item = inline_fuzzy_item_line("opencode Zen / big-pickle", true, false, 16);
    let item_plain = strip_terminal_control_sequences(&item);
    assert!(item_plain.starts_with("› [ ]"));
    assert!(item_plain.contains("open"));
    assert!(visible_width(&item) <= 16);

    let item = inline_fuzzy_item_line("opencode Zen / big-pickle", false, true, 18);
    let item_plain = strip_terminal_control_sequences(&item);
    assert!(item_plain.starts_with("  [*]"));
    assert!(item_plain.contains("opencode"));
    assert!(visible_width(&item) <= 18);

    let help = inline_fuzzy_help_line(Lang::En, 40);
    let help_plain = strip_terminal_control_sequences(&help);
    assert!(help_plain.contains("j/k"));
    assert!(visible_width(&help) <= 40);
}

#[test]
fn session_selection_defaults_to_the_current_entry() {
    let entry = |id: &str, is_current: bool| SessionListEntry {
        id: id.to_string(),
        name: id.to_string(),
        is_current,
        turns: 0,
        snippet: String::new(),
        workspace: None,
    };
    let entries = vec![entry("default", true), entry("active", false)];

    assert_eq!(session_initial_selection(&entries, Some("active")), 1);
    assert_eq!(session_initial_selection(&entries, None), 0);
    assert!(matches!(
        session_ref_from_index(&entries, 2),
        Some(SessionRef::Id { id }) if id == "active"
    ));
    assert_eq!(
        session_initial_selection(&vec![entry("only", false)], None),
        0
    );
    assert!(!session_list_line(Lang::En, 1, &entries[0], false).contains('\x1b'));
}
