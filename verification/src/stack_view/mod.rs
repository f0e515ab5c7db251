//! Stack frame panel: navigation paths, chunked collections, expansion
//! registry and the frame/variable tree state.

pub mod types;
pub mod chunks;
pub mod collections;
pub mod expansion;
pub mod flat;
pub mod format;
pub mod descendants;
pub mod state;

pub mod widget;
pub mod rows_match;
