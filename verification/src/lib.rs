//! Watching a directory tree: the rules that turn raw file-system
//! notifications into filtered, debounced events, the merging of command-line
//! and file settings, and the text that reporters emit.

pub mod text;
pub mod paths;
pub mod errors;
pub mod globbing;
pub mod clock;
pub mod event;
pub mod watcher;
pub mod cli;
pub mod config;
pub mod reporter;
pub mod setup;
