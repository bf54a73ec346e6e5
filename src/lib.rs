//! Keyboard-shortcut cheat sheet: parses shortcut notation into frames of
//! keys pressed together, ranks shortcuts against a query, animates the
//! frames on a timer and draws them on an ASCII keyboard diagram.

pub mod commands;
pub mod diagram;
pub mod keyboard;
pub mod search;
pub mod sequencer;
pub mod text;
pub mod ui;
