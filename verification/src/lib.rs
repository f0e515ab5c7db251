//! View-state logic of the hprof heap-dump explorer: cursors and list
//! selection, the thread list filter, the stack-frame tree with lazy object
//! expansion, the favorites panel row bookkeeping, and the text of the help,
//! status and tree rows.

pub mod engine;
pub mod text;
pub mod cursor;
pub mod keyset;
pub mod favorites;
pub mod stack_view;
pub mod thread_list;
pub mod keymap;
pub mod rows;
pub mod help_bar;
pub mod tree_render;
pub mod favorites_panel;
pub mod status_bar;
pub mod tree_shape;
