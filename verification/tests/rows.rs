use laozhou::attachments::can_encode;
use laozhou::daemon_log::{format_daemon_log_line, DaemonLogStreamFormatter};
use laozhou::edit::insert_pasted_text_at_cursor;
use laozhou::jobs::{
    jobs_differ, jobs_poll_seconds, JobOverview, JobsFeed, SharedJobsFeed, WakeRun,
};
use laozhou::lang::Lang;
use laozhou::layout::{
    repl_content_width_for_cols, repl_prompt_rows_for_cols, repl_wrapped_input_rows_for_cols,
};
use laozhou::live::{agent_event_kind, AgentEventKind};
use laozhou::placeholder::{expand_pasted_text_placeholders, PastedImage};
use laozhou::pop::pop_menu_timestamp;
use laozhou::remote::RemoteEvent;
use laozhou::transfer::default_export_name;
use laozhou::width::visible_width;

fn job(seconds: u64) -> JobOverview {
    JobOverview {
        job_id: "j1".to_string(),
        title: "tests".to_string(),
        kind: "command".to_string(),
        status: "running".to_string(),
        runtime_seconds: seconds,
        session_id: None,
        running: true,
    }
}

fn run(id: &str, session: &str, label: &str) -> WakeRun {
    WakeRun {
        run_id: id.to_string(),
        session_id: session.to_string(),
        label: label.to_string(),
    }
}

#[test]
fn runs_are_claimed_one_by_one() {
    let mut shared = SharedJobsFeed::new();
    shared.followed_runs = vec!["old".to_string()];
    shared.wake_runs = vec![
        run("old", "s", "seen"),
        run("r1", "other", "not ours"),
        run("r2", "s", "first"),
        run("r3", "s", "second"),
        run("r2", "s", "again"),
    ];
    let mut feed = JobsFeed::Shared(shared);
    let mut claim = || feed.claim_wake_run("s");
    assert_eq!(claim(), Some(("r2".to_string(), "first".to_string())));
    assert_eq!(claim(), Some(("r3".to_string(), "second".to_string())));
    assert_eq!(claim(), None);
    assert_eq!(claim(), None);
    match feed {
        JobsFeed::Shared(shared) => assert_eq!(shared.followed_runs, ["old", "r2", "r3"]),
        JobsFeed::Local(_) => unreachable!(),
    }
    assert_eq!(JobsFeed::Local(Vec::new()).claim_wake_run("s"), None);
}

#[test]
fn work_in_the_background_is_asked_for_more_often() {
    assert_eq!(jobs_poll_seconds(&vec![job(1)]), 1);
    assert_eq!(jobs_poll_seconds(&Vec::new()), 3);
    assert!(!jobs_differ(&vec![job(1)], &vec![job(1)]));
    assert!(jobs_differ(&vec![job(1)], &vec![job(2)]));
    assert!(jobs_differ(&vec![job(1)], &Vec::new()));
    let mut other = job(1);
    other.kind = "subagent".to_string();
    assert!(jobs_differ(&vec![job(1)], &vec![other]));
}

#[test]
fn the_box_has_the_rows_that_were_counted() {
    for (lines, wanted) in [
        (vec!["abcdefgh"], vec!["abcdefgh", ""]),
        (vec!["abcdefghi", ""], vec!["abcdefgh", "i", ""]),
        (vec!["abc", "0123456789abcdef"], vec!["abc", "01234567", "89abcdef", ""]),
        (vec![], vec![""]),
    ] {
        let lines: Vec<String> = lines.into_iter().map(str::to_string).collect();
        assert_eq!(repl_content_width_for_cols("> ", 10), 8);
        let rows = repl_wrapped_input_rows_for_cols("> ", &lines, 10);
        assert_eq!(rows, wanted);
        assert_eq!(
            rows.len(),
            usize::from(repl_prompt_rows_for_cols("> ", &lines, 10))
        );
        assert_eq!(rows.concat(), lines.concat());
        assert!(rows.iter().all(|row| visible_width(row) <= 8));
    }
}

#[test]
fn a_paste_comes_back_at_the_cursor() {
    for text in ["one\ntwo\nthree\nfour\n", "short [Pasted 1: ~3 lines]", "\x1b[31mred\x1b[0m"] {
        let mut input = "ab".to_string();
        let mut cursor = 1;
        let mut pasted = Vec::new();
        insert_pasted_text_at_cursor(
            Lang::En,
            &mut input,
            &mut cursor,
            text.to_string(),
            &mut pasted,
        );
        let clean = laozhou::sanitize::strip_terminal_control_sequences(text);
        assert_eq!(
            expand_pasted_text_placeholders(&input, &pasted),
            format!("a{clean}b")
        );
        assert_eq!(
            pasted.len() == 1,
            laozhou::paste::should_summarize_pasted_text(&clean)
        );
        assert_eq!(cursor - 1, input.chars().count() - 2);
    }
}

#[test]
fn a_log_prints_the_same_however_it_is_cut() {
    let stream = "2026-07-29T12:00:00Z  INFO laozhou::qq: 你好\nplain 世界\nrest".as_bytes();
    let mut whole = DaemonLogStreamFormatter::new();
    let mut expected = Vec::new();
    whole.push(stream, true, &mut expected);
    assert_eq!(expected.len(), 2);
    for cut in 0..=stream.len() {
        let mut formatter = DaemonLogStreamFormatter::new();
        let mut printed = Vec::new();
        formatter.push(&stream[..cut], true, &mut printed);
        formatter.push(&stream[cut..], true, &mut printed);
        assert_eq!(printed, expected);
        assert_eq!(formatter.pending, b"rest");
        assert!(formatter.decision_color.is_none());
    }
}

fn digits(text: &str, places: &[usize]) -> bool {
    let bytes = text.as_bytes();
    places.iter().all(|place| bytes[*place].is_ascii_digit())
}

#[test]
fn times_are_shown_as_the_machine_has_them() {
    let shown = pop_menu_timestamp(Lang::En, "2026-07-29T12:34:56Z");
    assert_eq!(shown.len(), 16);
    assert!(shown.starts_with("2026-07-"));
    assert_eq!((&shown[10..11], &shown[13..14]), (" ", ":"));
    assert!(digits(&shown, &[8, 9, 11, 12, 14, 15]));
    assert_eq!(pop_menu_timestamp(Lang::En, "yesterday"), "yesterday");

    let line = format_daemon_log_line("2026-07-29T12:34:56.789Z  INFO laozhou: up", false);
    assert!(line.contains(":56.789]"));

    let name = default_export_name(Some("host\n"));
    let stamp = name
        .strip_prefix("laozhou-export-host-")
        .and_then(|rest| rest.strip_suffix(".tar.gz"))
        .unwrap();
    assert_eq!(stamp.len(), 15);
    assert_eq!(&stamp[8..9], "-");
    assert!(digits(stamp, &[0, 1, 2, 3, 4, 5, 6, 7, 9, 10, 11, 12, 13, 14]));
}

#[test]
fn events_of_the_agent_are_told_apart() {
    let question = RemoteEvent::QuestionRequested {
        question_id: "q".to_string(),
    };
    assert_eq!(agent_event_kind(&question), AgentEventKind::AskQuestion);
    assert_eq!(
        agent_event_kind(&RemoteEvent::Superseded),
        AgentEventKind::Other
    );
    let image = Some(PastedImage::Binary {
        mime: "image/png".to_string(),
        data: vec![1, 2, 3],
    });
    assert!(can_encode(&vec![image, None]));
}
