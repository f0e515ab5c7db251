use hprof_views::engine::{ThreadInfo, ThreadState};
use hprof_views::rows::Tone;
use hprof_views::status_bar::{state_label, IndexedPercent, StatusBar};

fn render_status_bar(bar: StatusBar<'_>) -> String {
    let span = bar.line();
    assert_eq!(span.tone, Tone::StatusBar);
    span.text
}

fn bar<'a>() -> StatusBar<'a> {
    StatusBar {
        filename: "test.hprof",
        thread_count: 3,
        selected: None,
        warning_count: 0,
        file_indexed_pct: None,
        last_warning: None,
        pinned_hidden_count: 0,
    }
}

#[test]
fn state_label_returns_correct_string_for_each_variant() {
    assert_eq!(state_label(ThreadState::Unknown), "UNKNOWN");
    assert_eq!(state_label(ThreadState::Runnable), "RUNNABLE");
    assert_eq!(state_label(ThreadState::Waiting), "WAITING");
    assert_eq!(state_label(ThreadState::Blocked), "BLOCKED");
}

#[test]
fn state_label_covers_all_thread_state_variants() {
    for state in [
        ThreadState::Unknown,
        ThreadState::Runnable,
        ThreadState::Waiting,
        ThreadState::Blocked,
    ] {
        let label = state_label(state);
        assert!(!label.is_empty(), "state_label must not be empty for {state:?}");
    }
}

#[test]
fn status_bar_selected_part_uses_thread_name_and_state() {
    let thread = ThreadInfo {
        thread_serial: 1,
        name: "main".to_string(),
        state: ThreadState::Unknown,
    };
    let expected_part = format!("{}  {}", thread.name, state_label(thread.state));
    assert_eq!(expected_part, "main  UNKNOWN");
    let content = render_status_bar(StatusBar {
        selected: Some(&thread),
        ..bar()
    });
    assert!(content.contains("main  UNKNOWN"), "got: {content:?}");
}

#[test]
fn warning_count_zero_produces_no_warning_indicator() {
    let content = render_status_bar(bar());
    assert!(!content.contains("warnings"), "no warning indicator expected");
}

#[test]
fn warning_count_nonzero_renders_warning_indicator() {
    let content = render_status_bar(StatusBar {
        warning_count: 5,
        ..bar()
    });
    assert!(content.contains("5 warnings"), "warning indicator must mention count; got: {content:?}");
}

#[test]
fn incomplete_file_shown_in_status_bar() {
    // 75.3% rounds to 75.
    let content = render_status_bar(StatusBar {
        file_indexed_pct: Some(IndexedPercent::Below("75".to_string())),
        ..bar()
    });
    assert!(
        content.contains("Incomplete file") && content.contains("75%"),
        "incomplete file indicator must show; got: {content:?}"
    );
}

#[test]
fn last_warning_appended_in_status_bar() {
    let content = render_status_bar(StatusBar {
        warning_count: 2,
        last_warning: Some("Object 0xABC not found"),
        ..bar()
    });
    assert!(content.contains("Object 0xABC not found"), "last warning text must appear; got: {content:?}");
}

#[test]
fn last_warning_truncated_at_40_chars() {
    let long_warning = "A".repeat(50);
    let content = render_status_bar(StatusBar {
        thread_count: 1,
        warning_count: 1,
        last_warning: Some(&long_warning),
        ..bar()
    });
    assert!(content.contains(&"A".repeat(40)), "must contain 40 chars; got: {content:?}");
    assert!(!content.contains(&"A".repeat(41)), "must not contain 41 chars (must be truncated); got: {content:?}");
    assert!(content.contains('…'), "must contain ellipsis; got: {content:?}");
}

#[test]
fn status_line_exact_layout() {
    let thread = ThreadInfo {
        thread_serial: 4,
        name: "worker".to_string(),
        state: ThreadState::Waiting,
    };
    assert_eq!(
        render_status_bar(StatusBar {
            selected: Some(&thread),
            ..bar()
        }),
        " test.hprof  |  3  threads  |  worker  WAITING  |  [?]help"
    );
    assert_eq!(render_status_bar(bar()), " test.hprof  |  3  threads  |  —  |  [?]help");
}

#[test]
fn status_line_with_every_part() {
    let line = render_status_bar(StatusBar {
        file_indexed_pct: Some(IndexedPercent::NotBelow),
        pinned_hidden_count: 2,
        warning_count: 1,
        last_warning: Some("exactly forty characters long, no more!!"),
        ..bar()
    });
    assert_eq!(
        line,
        " [!] Incomplete file  |  test.hprof  |  3  threads  |  —  [★ 2]  |  [!] 1 warnings (exactly forty characters long, no more!!) — see stderr  |  [?]help"
    );
}
