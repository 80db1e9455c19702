//! The command-line arguments of a watch.

use vstd::prelude::*;

verus! {

/// The command-line arguments. Paths are held as text.
#[derive(Debug)]
pub struct Cli {
    /// The directory to watch.
    pub path: Option<String>,
    /// Whether to watch subdirectories too.
    pub recursive: bool,
    /// A comma-separated list of extensions to keep (such as `.rs,.toml`).
    pub filter: Option<String>,
    /// A shell-style pattern that file names must match (such as `*.log`).
    pub pattern: Option<String>,
    /// The log file to append events to.
    pub output: Option<String>,
    /// The configuration file to read.
    pub config: Option<String>,
    /// A URL to post each event to.
    pub webhook: Option<String>,
    /// The debounce interval in milliseconds.
    pub debounce: Option<u64>,
    /// Whether to print without colours.
    pub no_color: bool,
}

} // verus!
