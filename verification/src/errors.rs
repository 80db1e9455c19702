//! The library's error type.

use vstd::prelude::*;

verus! {

/// Everything that can go wrong while setting up or running a watch.
#[derive(Debug)]
pub enum AppError {
    /// An input/output failure, with its description.
    Io(String),
    /// A failure of the operating system's notification service, with its
    /// description.
    Notify(String),
    /// The path to watch does not exist.
    PathNotFound(String),
    /// A configuration value could not be used.
    ConfigError(String),
}

} // verus!
