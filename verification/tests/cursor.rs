use hprof_views::cursor::{CursorState, ListState};

#[test]
fn move_down_moves_cursor_and_list_state() {
    let mut state = CursorState::new(0u32);
    let items = [0u32, 1, 2];
    state.move_down(&items);
    assert_eq!(state.cursor(), &1);
    assert_eq!(state.list_state().selected(), Some(1));
}

#[test]
fn move_down_at_end_clamps() {
    let mut state = CursorState::new(2u32);
    let items = [0u32, 1, 2];
    state.move_down(&items);
    assert_eq!(state.cursor(), &2);
    assert_eq!(state.list_state().selected(), Some(2));
}

#[test]
fn move_up_at_start_clamps() {
    let mut state = CursorState::new(0u32);
    let items = [0u32, 1, 2];
    state.move_up(&items);
    assert_eq!(state.cursor(), &0);
    assert_eq!(state.list_state().selected(), Some(0));
}

#[test]
fn move_home_and_end_select_bounds() {
    let mut state = CursorState::new(1u32);
    let items = [10u32, 20, 30];
    state.move_home(&items);
    assert_eq!(state.cursor(), &10);
    assert_eq!(state.list_state().selected(), Some(0));

    state.move_end(&items);
    assert_eq!(state.cursor(), &30);
    assert_eq!(state.list_state().selected(), Some(2));
}

#[test]
fn page_down_moves_by_visible_height() {
    let mut state = CursorState::new(0u32);
    let items: Vec<u32> = (0..10).collect();
    state.set_visible_height(3);
    state.move_page_down(&items);
    assert_eq!(state.cursor(), &3);
    assert_eq!(state.list_state().selected(), Some(3));
}

#[test]
fn page_down_clamps_to_last_when_height_exceeds_len() {
    let mut state = CursorState::new(0u32);
    let items = [0u32, 1, 2];
    state.set_visible_height(10);
    state.move_page_down(&items);
    assert_eq!(state.cursor(), &2);
    assert_eq!(state.list_state().selected(), Some(2));
}

#[test]
fn page_down_uses_default_height_one() {
    let mut state = CursorState::new(0u32);
    let items = [0u32, 1, 2];
    state.move_page_down(&items);
    assert_eq!(state.cursor(), &1);
    assert_eq!(state.list_state().selected(), Some(1));
}

#[test]
fn move_methods_are_noop_on_empty_items() {
    let mut state = CursorState::new(0u32);
    let empty: [u32; 0] = [];

    state.move_up(&empty);
    state.move_down(&empty);
    state.move_home(&empty);
    state.move_end(&empty);
    state.move_page_up(&empty);
    state.move_page_down(&empty);

    assert_eq!(state.cursor(), &0);
    assert_eq!(state.list_state().selected(), None);
}

#[test]
fn page_down_single_item_does_not_underflow() {
    let mut state = CursorState::new(0u32);
    let items = [0u32];
    state.set_visible_height(5);
    state.move_page_down(&items);
    assert_eq!(state.cursor(), &0);
    assert_eq!(state.list_state().selected(), Some(0));
}

#[test]
fn sync_or_select_first_reanchors_orphan_cursor() {
    let mut state = CursorState::new(42u32);
    let items = [10u32, 20, 30];
    state.sync_or_select_first(&items);
    assert_eq!(state.cursor(), &10);
    assert_eq!(state.list_state().selected(), Some(0));
}

#[test]
fn move_down_on_orphan_cursor_reanchors_first() {
    let mut state = CursorState::new(99u32);
    let items = [10u32, 20, 30];
    state.move_down(&items);
    assert_eq!(state.cursor(), &10);
    assert_eq!(state.list_state().selected(), Some(0));
}

#[test]
fn page_down_with_visible_height_zero_is_noop() {
    let mut state = CursorState::new(0u32);
    let items = [0u32, 1, 2];
    state.set_visible_height(0);
    state.move_page_down(&items);
    assert_eq!(state.cursor(), &0);
    assert_eq!(state.list_state().selected(), Some(0));
}

#[test]
fn page_up_moves_by_visible_height_and_clamps() {
    let mut state = CursorState::new(9u32);
    let items: Vec<u32> = (0..10).collect();
    state.set_visible_height(4);
    state.move_page_up(&items);
    assert_eq!(state.cursor(), &5);
    state.move_page_up(&items);
    assert_eq!(state.cursor(), &1);
    state.move_page_up(&items);
    assert_eq!(state.cursor(), &0);
    assert_eq!(state.list_state().selected(), Some(0));
}

#[test]
fn set_cursor_and_sync_selects_visible_and_clears_hidden() {
    let mut state = CursorState::new(0u32);
    let items = [5u32, 6, 7];
    state.set_cursor_and_sync(7, &items);
    assert_eq!(state.cursor(), &7);
    assert_eq!(state.list_state().selected(), Some(2));
    state.set_cursor_and_sync(8, &items);
    assert_eq!(state.cursor(), &8);
    assert_eq!(state.list_state().selected(), None);
}

#[test]
fn list_state_select_none_resets_offset() {
    let mut ls = ListState::new();
    ls.set_offset(4);
    ls.select(Some(2));
    assert_eq!(ls.selected(), Some(2));
    assert_eq!(ls.offset(), 4);
    ls.select(None);
    assert_eq!(ls.selected(), None);
    assert_eq!(ls.offset(), 0);
}

#[test]
fn move_down_then_up_returns_to_start_on_distinct_items() {
    let items = [4u32, 8, 15, 16, 23];
    for start in 0..items.len() - 1 {
        let mut state = CursorState::new(items[start]);
        state.move_down(&items);
        state.move_up(&items);
        assert_eq!(state.cursor(), &items[start]);
        assert_eq!(state.list_state().selected(), Some(start));
    }
    for start in 1..items.len() {
        let mut state = CursorState::new(items[start]);
        state.move_up(&items);
        state.move_down(&items);
        assert_eq!(state.cursor(), &items[start]);
    }
}
