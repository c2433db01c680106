//! What the command line configures: where the add-ons are, and how much is logged.

use vstd::prelude::*;

verus! {

/// Where the add-ons are looked for unless the command line says otherwise.
pub const DEFAULT_ADDONS_PATH: &'static str =
    "/Applications/World of Warcraft/_retail_/Interface/Addons";

/// How much the program logs.
#[derive(Clone, Copy, Debug, PartialEq, Eq, Structural)]
pub enum LogLevel {
    Info,
    Debug,
    Trace,
}

/// A command line that cannot be honoured.
#[derive(Clone, Copy, Debug, PartialEq, Eq, Structural)]
pub enum ConfigError {
    /// The verbosity flag was given a count that names no logging level.
    UnexpectedVerbosity(i8),
}

/// The logging level that a verbosity count stands for, if it stands for one.
pub open spec fn log_level_of(verbose: i8) -> Option<LogLevel> {
    if verbose == 0 {
        Some(LogLevel::Info)
    } else if verbose == 1 {
        Some(LogLevel::Debug)
    } else if verbose == 2 {
        Some(LogLevel::Trace)
    } else {
        None
    }
}

/// Turns the number of `-v` flags into a logging level: none means info,
/// one debug, two trace. Any other count is rejected and handed back in the
/// error.
pub fn verbose_to_log_level(verbose: i8) -> (result: Result<LogLevel, ConfigError>)
    ensures
        result == match log_level_of(verbose) {
            Some(level) => Ok::<LogLevel, ConfigError>(level),
            None => Err(ConfigError::UnexpectedVerbosity(verbose)),
        },
{
    match verbose {
        0 => Ok(LogLevel::Info),
        1 => Ok(LogLevel::Debug),
        2 => Ok(LogLevel::Trace),
        _ => Err(ConfigError::UnexpectedVerbosity(verbose)),
    }
}

} // verus!
