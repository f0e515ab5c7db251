use hprof_views::help_bar::{
    build_rows, context_bit, help_entries, required_height, HelpContext, ALL, ENTRY_COUNT,
};
use hprof_views::keymap::{Keymap, KeymapPreset};
use hprof_views::rows::{Span, Tone};

fn km() -> Keymap {
    Keymap::default()
}

fn joined(rows: &[Vec<Span>]) -> String {
    rows.iter()
        .flat_map(|r| r.iter().map(|s| s.text.clone()))
        .collect()
}

#[test]
fn required_height_returns_sixteen_for_twenty_three_entries() {
    // div_ceil(23, 2) = 12; 2 + 1 + 12 + 1 = 16
    assert_eq!(required_height(), 16);
}

#[test]
fn entry_count_matches_help_entries_for_azerty() {
    assert_eq!(ENTRY_COUNT as usize, help_entries(&Keymap::default()).len());
}

#[test]
fn entry_count_matches_help_entries_for_qwerty() {
    assert_eq!(
        ENTRY_COUNT as usize,
        help_entries(&KeymapPreset::Qwerty.build()).len()
    );
}

#[test]
fn build_rows_produces_correct_line_count() {
    // 1 padding + ceil(23/2) + 1 separator = 1 + 12 + 1 = 14
    assert_eq!(build_rows(HelpContext::ThreadList, &km()).len(), 14);
    assert_eq!(build_rows(HelpContext::StackFrames, &km()).len(), 14);
    assert_eq!(build_rows(HelpContext::Favorites, &km()).len(), 14);
}

#[test]
fn help_bar_context_bit_returns_correct_value() {
    assert_eq!(context_bit(&HelpContext::ThreadList), 0b001);
    assert_eq!(context_bit(&HelpContext::StackFrames), 0b010);
    assert_eq!(context_bit(&HelpContext::Favorites), 0b100);
}

#[test]
fn help_bar_search_entry_applicable_only_in_thread_list() {
    let entries = help_entries(&km());
    let idx = entries
        .iter()
        .position(|(k, _, _)| k.contains("s or"))
        .unwrap();
    assert_ne!(entries[idx].2 & context_bit(&HelpContext::ThreadList), 0);
    assert_eq!(entries[idx].2 & context_bit(&HelpContext::StackFrames), 0);
    assert_eq!(entries[idx].2 & context_bit(&HelpContext::Favorites), 0);
}

#[test]
fn help_bar_camera_scroll_applicable_only_in_stack_frames() {
    let entries = help_entries(&km());
    let idx = entries
        .iter()
        .position(|(k, _, _)| k.contains("Ctrl/Shift+\u{2191}"))
        .unwrap();
    assert_ne!(entries[idx].2 & context_bit(&HelpContext::StackFrames), 0);
    assert_eq!(entries[idx].2 & context_bit(&HelpContext::ThreadList), 0);
    assert_eq!(entries[idx].2 & context_bit(&HelpContext::Favorites), 0);
}

#[test]
fn help_bar_f_key_applicable_in_stack_and_favorites_not_thread() {
    let entries = help_entries(&km());
    let idx = entries
        .iter()
        .position(|(k, _, _)| k.as_str() == "f")
        .unwrap();
    assert_ne!(entries[idx].2 & context_bit(&HelpContext::StackFrames), 0);
    assert_ne!(entries[idx].2 & context_bit(&HelpContext::Favorites), 0);
    assert_eq!(entries[idx].2 & context_bit(&HelpContext::ThreadList), 0);
}

#[test]
fn help_bar_global_entries_applicable_in_all_contexts() {
    let entries = help_entries(&km());
    for key_label in ["q / Ctrl+C", "Esc", "?"] {
        let idx = entries
            .iter()
            .position(|(k, _, _)| k.as_str() == key_label)
            .unwrap();
        assert_eq!(entries[idx].2, ALL, "mask for '{key_label}' should be ALL");
    }
}

#[test]
fn help_bar_all_entries_have_valid_mask() {
    for (key, _action, mask) in help_entries(&km()) {
        assert!(mask != 0 && mask <= ALL, "invalid mask for entry '{key}'");
    }
}

#[test]
fn help_bar_h_key_applicable_only_in_favorites() {
    let entries = help_entries(&km());
    let idx = entries
        .iter()
        .position(|(k, _, _)| k.as_str() == "h")
        .unwrap();
    assert_ne!(entries[idx].2 & context_bit(&HelpContext::Favorites), 0);
    assert_eq!(entries[idx].2 & context_bit(&HelpContext::ThreadList), 0);
    assert_eq!(entries[idx].2 & context_bit(&HelpContext::StackFrames), 0);
}

#[test]
fn help_bar_c_key_applicable_in_stack_and_favorites() {
    let entries = help_entries(&km());
    let idx = entries
        .iter()
        .position(|(k, _, _)| k.as_str() == "c")
        .unwrap();
    assert_ne!(entries[idx].2 & context_bit(&HelpContext::StackFrames), 0);
    assert_ne!(entries[idx].2 & context_bit(&HelpContext::Favorites), 0);
    assert_eq!(entries[idx].2 & context_bit(&HelpContext::ThreadList), 0);
}

#[test]
fn help_bar_bn_keys_applicable_only_in_favorites() {
    let entries = help_entries(&km());
    let idx = entries
        .iter()
        .position(|(k, _, _)| k.contains("b / n"))
        .unwrap();
    assert_ne!(entries[idx].2 & context_bit(&HelpContext::Favorites), 0);
    assert_eq!(entries[idx].2 & context_bit(&HelpContext::ThreadList), 0);
    assert_eq!(entries[idx].2 & context_bit(&HelpContext::StackFrames), 0);
}

#[test]
fn navigating_context_overrides_esc_label() {
    let rows = build_rows(HelpContext::Navigating, &km());
    let text = joined(&rows);
    assert!(
        text.contains("Cancel navigation"),
        "Navigating context must show 'Cancel navigation' for Esc; got: {text}"
    );
    assert!(
        !text.contains("clear filter"),
        "Navigating context must NOT show normal Esc label"
    );
}

#[test]
fn navigating_context_uses_stack_bit() {
    assert_eq!(
        context_bit(&HelpContext::Navigating),
        context_bit(&HelpContext::StackFrames),
        "Navigating must have same bitmask as StackFrames"
    );
}

#[test]
fn build_rows_navigating_same_line_count() {
    assert_eq!(
        build_rows(HelpContext::Navigating, &km()).len(),
        build_rows(HelpContext::StackFrames, &km()).len(),
    );
}

#[test]
#[allow(non_snake_case)]
fn help_bar_H_key_applicable_only_in_favorites() {
    let entries = help_entries(&km());
    let idx = entries
        .iter()
        .position(|(k, _, _)| k.as_str() == "H")
        .unwrap();
    assert_ne!(entries[idx].2 & context_bit(&HelpContext::Favorites), 0);
    assert_eq!(entries[idx].2 & context_bit(&HelpContext::ThreadList), 0);
    assert_eq!(entries[idx].2 & context_bit(&HelpContext::StackFrames), 0);
}

#[test]
fn help_rows_dim_actions_outside_their_context() {
    // Row 1 holds the first two entries: "q / Ctrl+C" (all contexts) and
    // "Esc" (all contexts); both actions are plain everywhere.
    let rows = build_rows(HelpContext::ThreadList, &km());
    assert_eq!(rows[1][1].tone, Tone::Plain);
    // The search entry is thread-list only: dimmed in the stack context.
    let entries = help_entries(&km());
    let idx = entries.iter().position(|(k, _, _)| k.contains("s or")).unwrap();
    let stack_rows = build_rows(HelpContext::StackFrames, &km());
    let row = &stack_rows[1 + idx / 2];
    let action = if idx % 2 == 0 { &row[1] } else { &row[3] };
    assert_eq!(action.tone, Tone::Null);
    let thread_row = &rows[1 + idx / 2];
    let action = if idx % 2 == 0 { &thread_row[1] } else { &thread_row[3] };
    assert_eq!(action.tone, Tone::Plain);
}

#[test]
fn help_rows_pad_key_column() {
    let rows = build_rows(HelpContext::Favorites, &km());
    assert_eq!(rows[0].len(), 1);
    assert_eq!(rows[0][0].text, "");
    assert_eq!(rows[1][0].text.chars().count(), 2 + 18);
    assert!(rows[1][0].text.starts_with("  q / Ctrl+C"));
}

#[test]
fn help_entries_differ_only_in_key_labels_between_keymaps() {
    let k1 = KeymapPreset::Qwerty.build();
    let mut k2 = KeymapPreset::Qwerty.build();
    k2.quit = 'x';
    k2.search_activate = 'g';
    let a = help_entries(&k1);
    let b = help_entries(&k2);
    assert_eq!(a.len(), b.len());
    for i in 0..a.len() {
        assert_eq!(a[i].1, b[i].1);
        assert_eq!(a[i].2, b[i].2);
    }
    assert_eq!(b[0], ("x / Ctrl+C".to_string(), "Quit", ALL));
    assert_ne!(a[0].0, b[0].0);
}
