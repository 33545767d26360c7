//! Terminal model for the cometty terminal emulator: the character grid
//! with scrollback and the alternate screen, escape-sequence dispatch,
//! search, selection, the log ring and the settings/panel state.

pub mod text;
pub mod theme;
pub mod title;
pub mod unicode;
pub mod grid;
pub mod input;
pub mod keyboard;
pub mod selection;
pub mod logbuf;
pub mod mouse;
pub mod procinfo;
pub mod render;
pub mod log_panel;
pub mod search;
pub mod search_panel;
pub mod settings;
pub mod tabs;
pub mod term;
