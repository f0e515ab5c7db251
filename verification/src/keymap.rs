//! Configurable key bindings shown in the help panel.

use vstd::prelude::*;

verus! {

/// The configurable single-character key bindings.
#[derive(Debug, Clone, Copy, PartialEq, Eq, Structural)]
pub struct Keymap {
    /// Quit the application.
    pub quit: char,
    /// Re-expand collapsed rows.
    pub batch_expand: char,
    /// Previous pinned favorite.
    pub prev_pin: char,
    /// Next pinned favorite.
    pub next_pin: char,
    /// Pin or unpin the row under the cursor.
    pub toggle_favorite: char,
    /// Move focus to the favorites panel.
    pub focus_favorites: char,
    /// Go to the source of a favorite.
    pub navigate_to_source: char,
    /// Hide or show a field of a favorite.
    pub hide_field: char,
    /// Reveal or hide hidden fields of a favorite.
    pub reveal_hidden: char,
    /// Toggle the display of object ids.
    pub toggle_object_ids: char,
    /// Open the thread search.
    pub search_activate: char,
}

/// Keyboard layout presets.
#[derive(Debug, Clone, Copy, PartialEq, Eq, Structural)]
pub enum KeymapPreset {
    Azerty,
    Qwerty,
}

/// The bindings of the default layout.
pub open spec fn default_keymap() -> Keymap {
    Keymap {
        quit: 'q',
        batch_expand: 'c',
        prev_pin: 'b',
        next_pin: 'n',
        toggle_favorite: 'f',
        focus_favorites: 'F',
        navigate_to_source: 'g',
        hide_field: 'h',
        reveal_hidden: 'H',
        toggle_object_ids: 'i',
        search_activate: 's',
    }
}

impl KeymapPreset {
    /// The bindings of the preset.
    pub fn build(self) -> (r: Keymap)
        ensures
            r == default_keymap(),
    {
        Keymap {
            quit: 'q',
            batch_expand: 'c',
            prev_pin: 'b',
            next_pin: 'n',
            toggle_favorite: 'f',
            focus_favorites: 'F',
            navigate_to_source: 'g',
            hide_field: 'h',
            reveal_hidden: 'H',
            toggle_object_ids: 'i',
            search_activate: 's',
        }
    }
}

impl Default for Keymap {
    fn default() -> (r: Keymap)
        ensures
            r == default_keymap(),
    {
        KeymapPreset::Azerty.build()
    }
}

} // verus!
