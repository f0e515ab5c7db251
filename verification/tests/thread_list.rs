use hprof_views::engine::{ThreadInfo, ThreadState};
use hprof_views::rows::Tone;
use hprof_views::thread_list::{matching_serials_of, SearchableList, ThreadListState};

fn make_threads(names: &[&str]) -> Vec<ThreadInfo> {
    names
        .iter()
        .enumerate()
        .map(|(i, &name)| ThreadInfo {
            thread_serial: (i + 1) as u32,
            name: name.to_string(),
            state: ThreadState::Unknown,
        })
        .collect()
}

#[test]
fn new_with_three_threads_selects_first() {
    let state = ThreadListState::new(make_threads(&["main", "worker-1", "worker-2"]));
    assert_eq!(state.selected_serial(), Some(1));
}

#[test]
fn move_down_moves_to_second_thread() {
    let mut state = ThreadListState::new(make_threads(&["main", "worker-1", "worker-2"]));
    state.move_down();
    assert_eq!(state.selected_serial(), Some(2));
}

#[test]
fn move_up_at_top_does_nothing() {
    let mut state = ThreadListState::new(make_threads(&["main", "worker-1", "worker-2"]));
    state.move_up();
    assert_eq!(state.selected_serial(), Some(1));
}

#[test]
fn move_up_from_last_moves_to_second_to_last() {
    let mut state = ThreadListState::new(make_threads(&["main", "worker-1", "worker-2"]));
    state.move_end();
    state.move_up();
    assert_eq!(state.selected_serial(), Some(2));
}

#[test]
fn apply_filter_worker_keeps_both_workers() {
    let mut state = ThreadListState::new(make_threads(&["main", "worker-1", "worker-2"]));
    // Select worker-1 first
    state.move_down();
    assert_eq!(state.selected_serial(), Some(2));
    state.apply_filter("worker");
    assert_eq!(state.filtered_count(), 2);
    // worker-1 (serial 2) was selected and is still visible — keep it
    assert_eq!(state.selected_serial(), Some(2));
}

#[test]
fn apply_filter_xyz_yields_empty_list() {
    let mut state = ThreadListState::new(make_threads(&["main", "worker-1"]));
    state.apply_filter("xyz");
    assert_eq!(state.filtered_count(), 0);
}

#[test]
fn apply_filter_empty_restores_full_list() {
    let mut state = ThreadListState::new(make_threads(&["main", "worker-1", "worker-2"]));
    state.apply_filter("worker");
    assert_eq!(state.filtered_count(), 2);
    state.apply_filter("");
    assert_eq!(state.filtered_count(), 3);
}

#[test]
fn selection_tracks_serial_not_index() {
    let mut state = ThreadListState::new(make_threads(&["main", "worker-1", "worker-2"]));
    // Select worker-1 (serial 2, index 1)
    state.move_down();
    assert_eq!(state.selected_serial(), Some(2));
    state.apply_filter("worker");
    // worker-1 is now at index 0 in filtered list, but serial is still 2
    assert_eq!(state.selected_serial(), Some(2));
}

#[test]
fn selected_serial_returns_none_when_filtered_list_is_empty() {
    let mut state = ThreadListState::new(make_threads(&["main", "worker-1"]));
    state.apply_filter("xyz");
    assert_eq!(state.selected_serial(), None);
}

#[test]
fn page_down_jumps_by_n_items() {
    let mut state = ThreadListState::new(make_threads(&["t1", "t2", "t3", "t4", "t5", "t6"]));
    state.set_visible_height(3);
    state.page_down();
    assert_eq!(state.selected_serial(), Some(4));
}

#[test]
fn page_down_clamps_at_last_item() {
    let mut state = ThreadListState::new(make_threads(&["t1", "t2", "t3"]));
    state.set_visible_height(10);
    state.page_down();
    assert_eq!(state.selected_serial(), Some(3));
}

#[test]
fn page_up_jumps_by_n_items() {
    let mut state = ThreadListState::new(make_threads(&["t1", "t2", "t3", "t4", "t5", "t6"]));
    state.move_end();
    state.set_visible_height(3);
    state.page_up();
    assert_eq!(state.selected_serial(), Some(3));
}

#[test]
fn page_up_clamps_at_first_item() {
    let mut state = ThreadListState::new(make_threads(&["t1", "t2", "t3"]));
    state.move_end();
    state.set_visible_height(10);
    state.page_up();
    assert_eq!(state.selected_serial(), Some(1));
}

#[test]
fn thread_list_clear_filter_on_empty_result_syncs_cursor() {
    let mut state = ThreadListState::new(make_threads(&["main", "worker-1", "worker-2"]));
    state.apply_filter("xyz");
    assert_eq!(state.selected_serial(), None);

    state.clear_filter();

    assert_eq!(state.filter(), "");
    assert_eq!(state.filtered_count(), 3);
    assert_eq!(state.selected_serial(), Some(1));
}

#[test]
fn thread_list_reopen_search_preserves_existing_filter_in_input() {
    let mut state = ThreadListState::new(make_threads(&["main", "worker-1"]));
    state.apply_filter("work");
    state.activate_search();
    state.deactivate_search();

    state.activate_search();

    assert!(state.is_search_active());
    assert_eq!(state.filter(), "work");
}

#[test]
fn select_serial_sets_cursor_when_visible() {
    let mut state = ThreadListState::new(make_threads(&["main", "worker-1", "worker-2"]));
    state.select_serial(3);
    assert_eq!(state.selected_serial(), Some(3));
}

#[test]
fn select_serial_noop_when_hidden_by_filter() {
    let mut state = ThreadListState::new(make_threads(&["main", "worker-1", "worker-2"]));
    state.apply_filter("main");
    state.select_serial(3);
    assert_eq!(state.selected_serial(), Some(1));
}


// The separators of the panel: a full row of box-drawing lines in the
// unfocused border tone, whatever the focus and the list content.

#[test]
fn separators_char_and_style_at_expected_rows() {
    let list = SearchableList { focused: false };
    let sep = list.separator(78);
    assert!(sep.text.chars().all(|c| c == '─'));
    assert_eq!(sep.tone, Tone::Border);
}

#[test]
fn separators_fill_full_inner_width() {
    let list = SearchableList { focused: false };
    for w in [0usize, 1, 78, 200] {
        assert_eq!(list.separator(w).text.chars().count(), w);
    }
}

#[test]
fn separators_visible_when_list_empty_due_to_filter() {
    let mut state = ThreadListState::new(make_threads(&["main"]));
    state.apply_filter("xyz");
    let list = SearchableList { focused: false };
    let rows = list.list_rows(&state);
    assert_eq!(rows.len(), 1);
    assert_eq!(rows[0][0].text, "No threads match \"xyz\"");
    assert_eq!(list.separator(3).text, "───");
}

#[test]
fn separators_use_unfocused_style_regardless_of_focus() {
    let list = SearchableList { focused: true };
    assert_eq!(list.separator(5).tone, Tone::Border);
}

#[test]
fn title_counts_shown_threads() {
    let mut state = ThreadListState::new(make_threads(&["main", "worker-1", "worker-2"]));
    let list = SearchableList { focused: true };
    assert_eq!(list.title(&state), "Threads (3)");
    state.apply_filter("WORK");
    assert_eq!(list.title(&state), "Threads (2)");
}

#[test]
fn search_line_reflects_search_state() {
    let mut state = ThreadListState::new(make_threads(&["main"]));
    let list = SearchableList { focused: true };
    let idle = list.search_line(&state);
    assert_eq!(idle.len(), 1);
    assert_eq!(idle[0].text, "Press / to search");
    assert_eq!(idle[0].tone, Tone::Null);
    state.activate_search();
    state.apply_filter("ma");
    let active: Vec<String> = list.search_line(&state).iter().map(|s| s.text.clone()).collect();
    assert_eq!(active, vec!["/ ", "ma", "_"]);
    state.deactivate_search();
    let kept: Vec<String> = list.search_line(&state).iter().map(|s| s.text.clone()).collect();
    assert_eq!(kept, vec!["/ ", "ma"]);
}

#[test]
fn list_rows_show_state_marker_and_name() {
    let threads = vec![
        ThreadInfo { thread_serial: 7, name: "main".to_string(), state: ThreadState::Runnable },
        ThreadInfo { thread_serial: 8, name: "gc".to_string(), state: ThreadState::Blocked },
    ];
    let state = ThreadListState::new(threads);
    let list = SearchableList { focused: false };
    let rows = list.list_rows(&state);
    assert_eq!(rows.len(), 2);
    assert_eq!(rows[0][0].text, "o ");
    assert_eq!(rows[0][0].tone, Tone::ThreadRunnable);
    assert_eq!(rows[0][1].text, "main");
    assert_eq!(rows[1][0].tone, Tone::ThreadBlocked);
    assert_eq!(rows[1][1].text, "gc");
    let empty = ThreadListState::new(Vec::new());
    let rows = list.list_rows(&empty);
    assert_eq!(rows[0][0].text, "No threads");
}

#[test]
fn legend_lists_every_state() {
    let legend = SearchableList { focused: false }.legend();
    let text: String = legend.iter().map(|s| s.text.as_str()).collect();
    assert_eq!(text, "o Run  o Wt  o Blk  o Unknown");
    assert_eq!(legend[6].tone, Tone::ThreadUnknown);
}

#[test]
fn filter_is_case_insensitive_and_empty_query_matches_all() {
    let mut state = ThreadListState::new(make_threads(&["Main", "Worker-1", "gc"]));
    state.apply_filter("mAiN");
    assert_eq!(state.filtered_count(), 1);
    assert_eq!(state.selected_serial(), Some(1));
    state.apply_filter("");
    assert_eq!(state.filtered_count(), 3);
    assert_eq!(state.filtered_serials(), &[1, 2, 3]);
}

#[test]
fn selected_thread_and_name_lookup() {
    let mut state = ThreadListState::new(make_threads(&["main", "worker-1"]));
    state.move_down();
    assert_eq!(state.selected_thread().map(|t| t.name.clone()), Some("worker-1".to_string()));
    assert_eq!(state.thread_name_of(1), Some("main".to_string()));
    assert_eq!(state.thread_name_of(9), None);
}

#[test]
fn matching_serials_of_uses_the_given_lowered_names() {
    let threads = make_threads(&["Main", "Worker-1", "worker-2"]);
    let lowered = vec!["main".to_string(), "worker-1".to_string(), "worker-2".to_string()];
    assert_eq!(matching_serials_of(&threads, &lowered, "worker"), vec![2, 3]);
    assert_eq!(matching_serials_of(&threads, &lowered, ""), vec![1, 2, 3]);
    assert_eq!(matching_serials_of(&threads, &lowered, "Worker"), Vec::<u32>::new());
}
