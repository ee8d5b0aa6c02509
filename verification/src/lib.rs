//! Interactive watcher core: a keybinding operation language, the list and
//! selection state it drives, and the event-dispatch and refresh logic that
//! tie a periodically re-executed command to a keyboard-driven list view.

pub mod config;
pub mod keybindings;
pub mod scan;
pub mod stateful_list;
pub mod tui;
