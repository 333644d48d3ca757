//! What the user asks for on the command line.

use std::path::PathBuf;
use vstd::prelude::*;

verus! {

/// How much the program tells of what it does, from the most to the least.
#[derive(Debug, Clone, Copy, PartialEq, Eq, Structural)]
pub enum LogLevel {
    Trace,
    Debug,
    Info,
    Warn,
    Error,
}

/// What the program is to do.
#[derive(Debug, Clone, Copy, PartialEq, Eq, Structural)]
pub enum Command {
    /// Show the panel.
    Run,
    /// Print the configuration and leave.
    PrintConfig,
}

/// The command line.
#[derive(Debug, Clone)]
pub struct Cli {
    /// The least important kind of message that is still logged.
    pub log_level: LogLevel,
    /// The configuration file to read in place of the usual one.
    pub override_config: Option<PathBuf>,
    pub command: Command,
}

impl Default for LogLevel {
    /// Warnings and what is worse.
    fn default() -> (level: Self)
        ensures
            level == LogLevel::Warn,
    {
        LogLevel::Warn
    }
}

impl Cli {
    /// Whether the configuration is read from the usual place.
    pub fn uses_default_path(&self) -> (usual: bool)
        ensures
            usual == (self.override_config is None),
    {
        self.override_config.is_none()
    }
}

/// The command that is run where the user names none.
pub fn chosen_command(command: Option<Command>) -> (chosen: Command)
    ensures
        chosen == match command {
            Some(c) => c,
            None => Command::Run,
        },
{
    match command {
        Some(c) => c,
        None => Command::Run,
    }
}

} // verus!
