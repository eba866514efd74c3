//! Line-level diff model, patch rendering and the interactive selection
//! state machine of a terminal diff viewer.

pub mod app;
pub mod browser;
pub mod diff;
pub mod text;
