//! Pinned favorites: frozen snapshots of a frame or of a variable subtree,
//! with per-item collapse and hidden-field state.

use vstd::prelude::*;

use std::collections::HashMap;

use crate::cursor::CursorKey;
use crate::engine::{FieldInfo, VariableInfo};
use crate::keyset::KeySet;
use crate::stack_view::collections::CollectionChunks;
use crate::stack_view::types::{NavigationPath, ThreadId};

verus! {

/// Identity of a row that can be hidden in a pinned snapshot.
#[derive(Debug, Clone, Copy, PartialEq, Eq, Hash, Structural)]
pub enum HideKey {
    /// A local variable of a pinned frame, by position.
    Var(usize),
    /// A field of an object, by owner and field position.
    Field { parent_id: u64, field_idx: usize },
}

impl View for HideKey {
    type V = HideKey;

    open spec fn view(&self) -> HideKey {
        *self
    }
}

impl CursorKey for HideKey {
    fn key_eq(&self, other: &Self) -> (r: bool) {
        *self == *other
    }

    fn key_copy(&self) -> (r: Self) {
        *self
    }
}

/// Where a pinned item was taken from.
#[derive(Debug)]
pub struct PinKey {
    /// Thread of the pinned frame.
    pub thread_id: ThreadId,
    /// Name of that thread.
    pub thread_name: String,
    /// Path of the pinned node.
    pub nav_path: NavigationPath,
}

/// Frozen content of a pinned item.
#[derive(Debug)]
pub enum PinnedSnapshot {
    /// All variables of a frame with the objects reachable from them.
    Frame {
        variables: Vec<VariableInfo>,
        object_fields: HashMap<u64, Vec<FieldInfo>>,
        object_static_fields: HashMap<u64, Vec<FieldInfo>>,
        collection_chunks: HashMap<u64, CollectionChunks>,
        truncated: bool,
    },
    /// The objects reachable from one object.
    Subtree {
        root_id: u64,
        object_fields: HashMap<u64, Vec<FieldInfo>>,
        object_static_fields: HashMap<u64, Vec<FieldInfo>>,
        collection_chunks: HashMap<u64, CollectionChunks>,
        truncated: bool,
    },
    /// A primitive value, as its display text.
    Primitive { value_label: String },
    /// A reference whose object was never expanded.
    UnexpandedRef { class_name: String, object_id: u64 },
}

/// One pinned favorite.
#[derive(Debug)]
pub struct PinnedItem {
    /// Name of the thread the item comes from.
    pub thread_name: String,
    /// Label of the frame the item comes from.
    pub frame_label: String,
    /// Label of the pinned node.
    pub item_label: String,
    /// Frozen content.
    pub snapshot: PinnedSnapshot,
    /// Paths collapsed in this item by the user.
    pub local_collapsed: KeySet<NavigationPath>,
    /// Rows hidden in this item by the user.
    pub hidden_fields: KeySet<HideKey>,
    /// Whether hidden rows are shown as placeholders.
    pub show_hidden: bool,
    /// Origin of the item.
    pub key: PinKey,
}

} // verus!
