//! The stack frame panel as drawn: its title, border and rows.

use vstd::prelude::*;

use crate::rows::{border_tone, rows_view, Span, Tone};
use crate::stack_view::state::StackState;

verus! {

/// The stack frame panel.
pub struct StackView {
    /// Whether this panel has keyboard focus.
    pub focused: bool,
    /// Whether object IDs are displayed inline for object references.
    pub show_object_ids: bool,
}

impl StackView {
    /// Title of the panel block.
    pub fn title(&self) -> (r: &'static str)
        ensures
            r@ == "Stack Frames"@,
    {
        "Stack Frames"
    }

    /// Tone of the panel border: focused or not.
    pub fn border(&self) -> (r: Tone)
        ensures
            r == (if self.focused { Tone::BorderFocused } else { Tone::Border }),
    {
        border_tone(self.focused)
    }

    /// The rows of the panel, with object ids as the panel shows them.
    pub fn items(&self, state: &StackState) -> (r: Vec<Vec<Span>>)
        requires
            state.trees_renderable(self.show_object_ids),
        ensures
            rows_view(r@) == state.items(self.show_object_ids),
    {
        state.build_items_with_object_ids(self.show_object_ids)
    }
}

} // verus!
