use std::collections::HashMap;

use hprof_views::engine::{
    CollectionPage, EntryInfo, FieldInfo, FieldValue, VariableInfo, VariableValue,
};
use hprof_views::favorites::HideKey;
use hprof_views::keyset::KeySet;
use hprof_views::rows::{Span, Tone};
use hprof_views::stack_view::collections::{ChunkPages, ChunkState, CollectionChunks};
use hprof_views::stack_view::types::{ExpansionPhase, NavigationPath};
use hprof_views::tree_render::{
    render_variable_tree, spans_with_dimmed_object_id, split_object_id_range, tree_renderable,
    RenderOptions, TreeRoot,
};

fn render_text(rows: &[Vec<Span>]) -> String {
    rows.iter()
        .map(|r| r.iter().map(|s| s.text.as_str()).collect::<String>())
        .collect::<Vec<_>>()
        .join("\n")
}

fn make_var(index: usize, object_id: u64) -> VariableInfo {
    VariableInfo {
        index,
        value: if object_id == 0 {
            VariableValue::Null
        } else {
            VariableValue::ObjectRef {
                id: object_id,
                class_name: "Object".to_string(),
                entry_count: None,
            }
        },
    }
}

fn opts(show_object_ids: bool, snapshot_mode: bool) -> RenderOptions {
    RenderOptions {
        show_object_ids,
        snapshot_mode,
        show_hidden: false,
    }
}

fn render(
    root: TreeRoot,
    object_fields: &HashMap<u64, Vec<FieldInfo>>,
    collection_chunks: &HashMap<u64, CollectionChunks>,
    object_phases: &HashMap<u64, ExpansionPhase>,
    object_errors: &HashMap<u64, String>,
    options: RenderOptions,
) -> String {
    let hidden: KeySet<HideKey> = KeySet::new();
    let collapsed: KeySet<NavigationPath> = KeySet::new();
    let rows = render_variable_tree(
        root,
        object_fields,
        &HashMap::new(),
        collection_chunks,
        object_phases,
        object_errors,
        options,
        &hidden,
        &collapsed,
    );
    render_text(&rows)
}

#[test]
fn frame_with_no_vars_renders_no_locals() {
    let text = render(
        TreeRoot::Frame { vars: &[], frame_id: 0 },
        &HashMap::new(),
        &HashMap::new(),
        &HashMap::new(),
        &HashMap::new(),
        opts(false, false),
    );
    assert!(text.contains("(no locals)"), "got: {text:?}");
}

#[test]
fn frame_with_null_var_renders_null() {
    let vars = vec![make_var(0, 0)];
    let text = render(
        TreeRoot::Frame { vars: &vars, frame_id: 0 },
        &HashMap::new(),
        &HashMap::new(),
        &HashMap::new(),
        &HashMap::new(),
        opts(false, false),
    );
    assert!(text.contains("[0] null"), "got: {text:?}");
}

#[test]
fn frame_with_collapsed_object_ref_shows_plus() {
    let vars = vec![make_var(0, 42)];
    let text = render(
        TreeRoot::Frame { vars: &vars, frame_id: 0 },
        &HashMap::new(),
        &HashMap::new(),
        &HashMap::new(),
        &HashMap::new(),
        opts(false, false),
    );
    assert!(text.contains("+"), "expected + toggle, got: {text:?}");
    assert!(text.contains("[0]"), "expected var index, got: {text:?}");
}

#[test]
fn frame_with_expanded_object_ref_shows_minus_and_fields() {
    let vars = vec![make_var(0, 42)];
    let mut object_fields = HashMap::new();
    object_fields.insert(
        42u64,
        vec![FieldInfo {
            name: "count".to_string(),
            value: FieldValue::Int(7),
        }],
    );
    let mut object_phases = HashMap::new();
    object_phases.insert(42u64, ExpansionPhase::Expanded);
    let text = render(
        TreeRoot::Frame { vars: &vars, frame_id: 0 },
        &object_fields,
        &HashMap::new(),
        &object_phases,
        &HashMap::new(),
        opts(false, false),
    );
    assert!(text.contains("-"), "expected - toggle, got: {text:?}");
    assert!(text.contains("count"), "expected field name, got: {text:?}");
    assert!(text.contains("7"), "expected field value, got: {text:?}");
}

#[test]
fn snapshot_mode_unavailable_var_shows_question_toggle() {
    let vars = vec![make_var(0, 42)];
    let text = render(
        TreeRoot::Frame { vars: &vars, frame_id: 0 },
        &HashMap::new(),
        &HashMap::new(),
        &HashMap::new(),
        &HashMap::new(),
        opts(false, true),
    );
    assert!(text.contains("?"), "expected ? toggle, got: {text:?}");
    assert!(!text.contains("+ [0]"), "did not expect + toggle, got: {text:?}");
}

#[test]
fn snapshot_mode_collapsed_collection_shows_plus_not_question() {
    let vars = vec![make_var(0, 1)];
    let mut object_fields = HashMap::new();
    object_fields.insert(
        1u64,
        vec![FieldInfo {
            name: "items".to_string(),
            value: FieldValue::ObjectRef {
                id: 200,
                class_name: "java.util.ArrayList".to_string(),
                entry_count: Some(2),
                inline_value: None,
            },
        }],
    );
    let mut collection_chunks = HashMap::new();
    collection_chunks.insert(
        200u64,
        CollectionChunks {
            total_count: 2,
            eager_page: Some(CollectionPage {
                entries: vec![EntryInfo {
                    index: 0,
                    key: None,
                    value: FieldValue::Int(7),
                }],
                total_count: 2,
                offset: 0,
                has_more: false,
            }),
            chunk_pages: ChunkPages::new(),
        },
    );
    // Parent expanded; collection id absent => collapsed in snapshot mode.
    let mut object_phases = HashMap::new();
    object_phases.insert(1u64, ExpansionPhase::Expanded);
    let text = render(
        TreeRoot::Frame { vars: &vars, frame_id: 0 },
        &object_fields,
        &collection_chunks,
        &object_phases,
        &HashMap::new(),
        opts(false, true),
    );
    assert!(text.contains("items: ArrayList"), "expected collection row, got: {text:?}");
    assert!(text.contains("+ items"), "expected + marker, got: {text:?}");
    assert!(!text.contains("? items"), "must not show ? marker, got: {text:?}");
    assert!(!text.contains("[0] 7"), "collapsed collection should hide entries");
}

#[test]
fn nested_object_field_respects_object_id_toggle() {
    let vars = vec![make_var(0, 42)];
    let mut object_fields = HashMap::new();
    object_fields.insert(
        42u64,
        vec![FieldInfo {
            name: "child".to_string(),
            value: FieldValue::ObjectRef {
                id: 77,
                class_name: "com.example.Child".to_string(),
                entry_count: None,
                inline_value: None,
            },
        }],
    );
    let mut object_phases = HashMap::new();
    object_phases.insert(42u64, ExpansionPhase::Expanded);
    let with_ids_text = render(
        TreeRoot::Frame { vars: &vars, frame_id: 0 },
        &object_fields,
        &HashMap::new(),
        &object_phases,
        &HashMap::new(),
        opts(true, false),
    );
    assert!(
        with_ids_text.contains("Child @ 0x4D"),
        "expected nested object id in field row, got: {with_ids_text:?}"
    );
    let without_ids_text = render(
        TreeRoot::Frame { vars: &vars, frame_id: 0 },
        &object_fields,
        &HashMap::new(),
        &object_phases,
        &HashMap::new(),
        opts(false, false),
    );
    assert!(
        !without_ids_text.contains("@ 0x4D"),
        "expected no nested object id when toggle is off, got: {without_ids_text:?}"
    );
}

#[test]
fn cyclic_object_ref_does_not_recurse_infinitely() {
    let vars = vec![make_var(0, 1)];
    let mut object_fields = HashMap::new();
    object_fields.insert(
        1u64,
        vec![FieldInfo {
            name: "self".to_string(),
            value: FieldValue::ObjectRef {
                id: 1,
                class_name: "Node".to_string(),
                entry_count: None,
                inline_value: None,
            },
        }],
    );
    let mut object_phases = HashMap::new();
    object_phases.insert(1u64, ExpansionPhase::Expanded);
    let text = render(
        TreeRoot::Frame { vars: &vars, frame_id: 0 },
        &object_fields,
        &HashMap::new(),
        &object_phases,
        &HashMap::new(),
        opts(false, false),
    );
    assert!(
        text.contains("self-ref") || text.contains("cyclic"),
        "expected cyclic marker, got: {text:?}"
    );
}

#[test]
fn failed_var_label_uses_short_class_without_local_variable_prefix() {
    let vars = vec![make_var(0, 42)];
    let mut object_phases = HashMap::new();
    object_phases.insert(42u64, ExpansionPhase::Failed);
    let mut object_errors = HashMap::new();
    object_errors.insert(42u64, "boom".to_string());
    let text = render(
        TreeRoot::Frame { vars: &vars, frame_id: 0 },
        &HashMap::new(),
        &HashMap::new(),
        &object_phases,
        &object_errors,
        opts(false, false),
    );
    assert!(text.contains("Object — boom"), "got: {text:?}");
    assert!(
        !text.contains("local variable:"),
        "failed label must not include local variable prefix: {text:?}"
    );
}

#[test]
fn subtree_root_renders_fields_at_two_space_indent() {
    let mut object_fields = HashMap::new();
    object_fields.insert(
        99u64,
        vec![FieldInfo {
            name: "x".to_string(),
            value: FieldValue::Int(42),
        }],
    );
    let mut object_phases = HashMap::new();
    object_phases.insert(99u64, ExpansionPhase::Expanded);
    let text = render(
        TreeRoot::Subtree { root_id: 99 },
        &object_fields,
        &HashMap::new(),
        &object_phases,
        &HashMap::new(),
        opts(false, false),
    );
    assert!(text.contains("x"), "expected field name, got: {text:?}");
    assert!(text.contains("42"), "expected field value, got: {text:?}");
    assert!(text.starts_with("  "), "expected two-space indent, got: {text:?}");
}

#[test]
fn subtree_root_collection_renders_eager_entries_and_chunk_sentinel() {
    let mut pages = ChunkPages::new();
    pages.insert(100usize, ChunkState::Collapsed);
    let mut chunks = HashMap::new();
    chunks.insert(
        77u64,
        CollectionChunks {
            total_count: 120,
            eager_page: Some(CollectionPage {
                entries: vec![EntryInfo {
                    index: 0,
                    key: None,
                    value: FieldValue::Int(7),
                }],
                total_count: 120,
                offset: 0,
                has_more: true,
            }),
            chunk_pages: pages,
        },
    );
    let text = render(
        TreeRoot::Subtree { root_id: 77 },
        &HashMap::new(),
        &chunks,
        &HashMap::new(),
        &HashMap::new(),
        opts(false, false),
    );
    assert!(text.contains("[0] 7"), "expected eager entry, got: {text:?}");
    assert!(text.contains("+ [100...119]"), "expected chunk sentinel row, got: {text:?}");
    // A frozen snapshot shows only the chunk sections it holds.
    let snap = render(
        TreeRoot::Subtree { root_id: 77 },
        &HashMap::new(),
        &chunks,
        &HashMap::new(),
        &HashMap::new(),
        opts(false, true),
    );
    assert_eq!(snap, "    [0] 7");
}

#[test]
fn failed_collection_entry_shows_error_message_inline() {
    let vars = vec![make_var(0, 1)];
    let mut object_fields = HashMap::new();
    object_fields.insert(
        1u64,
        vec![FieldInfo {
            name: "items".to_string(),
            value: FieldValue::ObjectRef {
                id: 200,
                class_name: "java.util.ArrayList".to_string(),
                entry_count: Some(1),
                inline_value: None,
            },
        }],
    );
    let mut pages = ChunkPages::new();
    pages.insert(100usize, ChunkState::Collapsed);
    let mut collection_chunks = HashMap::new();
    collection_chunks.insert(
        200u64,
        CollectionChunks {
            total_count: 1,
            eager_page: Some(CollectionPage {
                entries: vec![EntryInfo {
                    index: 0,
                    key: None,
                    value: FieldValue::ObjectRef {
                        id: 300,
                        class_name: "java.lang.String".to_string(),
                        entry_count: None,
                        inline_value: None,
                    },
                }],
                total_count: 1,
                offset: 0,
                has_more: false,
            }),
            chunk_pages: pages,
        },
    );
    let mut object_phases = HashMap::new();
    object_phases.insert(1u64, ExpansionPhase::Expanded);
    object_phases.insert(200u64, ExpansionPhase::Expanded);
    object_phases.insert(300u64, ExpansionPhase::Failed);
    let mut object_errors = HashMap::new();
    object_errors.insert(300u64, "entry missing".to_string());
    let text = render(
        TreeRoot::Frame { vars: &vars, frame_id: 0 },
        &object_fields,
        &collection_chunks,
        &object_phases,
        &object_errors,
        opts(false, false),
    );
    assert!(
        text.contains("! [0] String — entry missing"),
        "failed collection entry must include inline error message, got: {text:?}"
    );
}

#[test]
fn split_object_id_range_handles_inline_value_suffix() {
    let text = "Node @ 0x2A = \"abc\"";
    let (start, end) = split_object_id_range(text).unwrap();
    assert_eq!(&text[start..end], "@ 0x2A");
}

#[test]
fn split_object_id_range_none_without_id() {
    assert_eq!(split_object_id_range("Node"), None);
    assert_eq!(split_object_id_range("Node @ nothing"), None);
}

#[test]
fn dimmed_object_id_span_splits_text() {
    let spans = spans_with_dimmed_object_id("x: Node @ 0x2A".to_string(), Tone::Plain);
    let texts: Vec<&str> = spans.iter().map(|s| s.text.as_str()).collect();
    assert_eq!(texts, vec!["x: Node ", "@ 0x2A", ""]);
    assert_eq!(spans[0].tone, Tone::Plain);
    assert_eq!(spans[1].tone, Tone::ObjectId);
    let plain = spans_with_dimmed_object_id("x: 5".to_string(), Tone::Primitive);
    assert_eq!(plain.len(), 1);
    assert_eq!(plain[0].text, "x: 5");
}

#[test]
fn hidden_field_shows_placeholder_when_requested() {
    let mut object_fields = HashMap::new();
    object_fields.insert(
        5u64,
        vec![
            FieldInfo { name: "a".to_string(), value: FieldValue::Int(1) },
            FieldInfo { name: "b".to_string(), value: FieldValue::Int(2) },
        ],
    );
    let mut phases = HashMap::new();
    phases.insert(5u64, ExpansionPhase::Expanded);
    let mut hidden: KeySet<HideKey> = KeySet::new();
    hidden.insert(HideKey::Field { parent_id: 5, field_idx: 0 });
    let collapsed: KeySet<NavigationPath> = KeySet::new();
    let rows = render_variable_tree(
        TreeRoot::Subtree { root_id: 5 },
        &object_fields,
        &HashMap::new(),
        &HashMap::new(),
        &phases,
        &HashMap::new(),
        RenderOptions { show_object_ids: false, snapshot_mode: false, show_hidden: false },
        &hidden,
        &collapsed,
    );
    let text = render_text(&rows);
    assert!(!text.contains("a: 1"), "hidden field must not show: {text:?}");
    assert!(text.contains("b: 2"), "got: {text:?}");
    let rows = render_variable_tree(
        TreeRoot::Subtree { root_id: 5 },
        &object_fields,
        &HashMap::new(),
        &HashMap::new(),
        &phases,
        &HashMap::new(),
        RenderOptions { show_object_ids: false, snapshot_mode: false, show_hidden: true },
        &hidden,
        &collapsed,
    );
    let text = render_text(&rows);
    assert!(text.contains("a (hidden)"), "placeholder expected: {text:?}");
}

/// An object whose collection field holds the object itself again: each
/// pass through the collection starts a fresh walk of the object, so the
/// walk never ends by itself.
fn collection_loop() -> (HashMap<u64, Vec<FieldInfo>>, HashMap<u64, CollectionChunks>, HashMap<u64, ExpansionPhase>) {
    let mut object_fields = HashMap::new();
    object_fields.insert(
        1u64,
        vec![FieldInfo {
            name: "items".to_string(),
            value: FieldValue::ObjectRef {
                id: 200,
                class_name: "java.util.ArrayList".to_string(),
                entry_count: Some(1),
                inline_value: None,
            },
        }],
    );
    let mut chunks = HashMap::new();
    chunks.insert(
        200u64,
        CollectionChunks {
            total_count: 1,
            eager_page: Some(CollectionPage {
                entries: vec![EntryInfo {
                    index: 0,
                    key: None,
                    value: FieldValue::ObjectRef {
                        id: 1,
                        class_name: "Node".to_string(),
                        entry_count: None,
                        inline_value: None,
                    },
                }],
                total_count: 1,
                offset: 0,
                has_more: false,
            }),
            chunk_pages: ChunkPages::new(),
        },
    );
    let mut phases = HashMap::new();
    phases.insert(1u64, ExpansionPhase::Expanded);
    phases.insert(200u64, ExpansionPhase::Expanded);
    (object_fields, chunks, phases)
}

#[test]
fn collapsing_a_looping_collection_field_lets_the_tree_render() {
    let (object_fields, chunks, phases) = collection_loop();
    let vars = vec![make_var(0, 1)];
    let hidden: KeySet<HideKey> = KeySet::new();
    // Collapsing the collection field breaks the loop.
    let mut collapsed: KeySet<NavigationPath> = KeySet::new();
    collapsed.insert(
        hprof_views::stack_view::types::NavigationPathBuilder::new(
            hprof_views::stack_view::types::FrameId(0),
            hprof_views::stack_view::types::VarIdx(0),
        )
        .field(hprof_views::stack_view::types::FieldIdx(0))
        .build(),
    );
    assert!(tree_renderable(
        TreeRoot::Frame { vars: &vars, frame_id: 0 },
        &object_fields,
        &HashMap::new(),
        &chunks,
        &phases,
        &HashMap::new(),
        opts(false, true),
        &hidden,
        &collapsed,
    ));
}

#[test]
fn deeply_nested_collections_render() {
    let levels: u64 = 300;
    let mut chunks = HashMap::new();
    for k in 0..levels {
        let cid = 1000 + k;
        let value = if k + 1 < levels {
            FieldValue::ObjectRef {
                id: cid + 1,
                class_name: "java.util.ArrayList".to_string(),
                entry_count: Some(1),
                inline_value: None,
            }
        } else {
            FieldValue::Int(7)
        };
        chunks.insert(
            cid,
            CollectionChunks {
                total_count: 1,
                eager_page: Some(CollectionPage {
                    entries: vec![EntryInfo { index: 0, key: None, value }],
                    total_count: 1,
                    offset: 0,
                    has_more: false,
                }),
                chunk_pages: ChunkPages::new(),
            },
        );
    }
    let vars = vec![VariableInfo {
        index: 0,
        value: VariableValue::ObjectRef {
            id: 1000,
            class_name: "java.util.ArrayList".to_string(),
            entry_count: Some(1),
        },
    }];
    let hidden: KeySet<HideKey> = KeySet::new();
    let collapsed: KeySet<NavigationPath> = KeySet::new();
    let root = || TreeRoot::Frame { vars: &vars, frame_id: 0 };
    assert!(tree_renderable(
        root(),
        &HashMap::new(),
        &HashMap::new(),
        &chunks,
        &HashMap::new(),
        &HashMap::new(),
        opts(false, false),
        &hidden,
        &collapsed,
    ));
    let rows = render_variable_tree(
        root(),
        &HashMap::new(),
        &HashMap::new(),
        &chunks,
        &HashMap::new(),
        &HashMap::new(),
        opts(false, false),
        &hidden,
        &collapsed,
    );
    assert_eq!(rows.len(), 1 + levels as usize);
}

#[test]
fn split_object_id_range_gives_byte_offsets_after_non_ascii_text() {
    let text = "é: Node @ 0x2A";
    let (start, end) = split_object_id_range(text).unwrap();
    assert_eq!((start, end), (9, 15));
    assert_eq!(&text[start..end], "@ 0x2A");
}
