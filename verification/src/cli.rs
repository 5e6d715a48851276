//! The commands of the tool, as values. Reading them off a command line
//! is left to the program that uses this library.

use vstd::prelude::*;

verus! {

/// One invocation of the tool.
#[derive(Debug, Clone, PartialEq)]
pub struct Cli {
    pub command: Commands,
}

/// The commands, each with its options.
#[derive(Debug, Clone, PartialEq)]
pub enum Commands {
    /// Write a first configuration file.
    Init { config: String, debug: bool, force: bool },
    /// Show what would change.
    Plan { config: String, debug: bool, target: Vec<String>, show_unchanged: bool, json: bool },
    /// Make the warehouse match the local definitions.
    Apply { config: String, debug: bool, target: Vec<String>, auto_approve: bool, dry_run: bool },
    /// Write the remote definitions to local files.
    Export { config: String, debug: bool, target: Vec<String>, overwrite: bool },
}

impl Commands {
    /// Whether the command asks for debug logging.
    pub open spec fn wants_debug(self) -> bool {
        match self {
            Commands::Init { debug, .. } => debug,
            Commands::Plan { debug, .. } => debug,
            Commands::Apply { debug, .. } => debug,
            Commands::Export { debug, .. } => debug,
        }
    }

    /// Whether the command asks for debug logging.
    pub fn debug(&self) -> (b: bool)
        ensures
            b == self.wants_debug(),
    {
        match self {
            Commands::Init { debug, .. } => *debug,
            Commands::Plan { debug, .. } => *debug,
            Commands::Apply { debug, .. } => *debug,
            Commands::Export { debug, .. } => *debug,
        }
    }

    /// The path of the configuration file that the command names.
    pub fn config(&self) -> (path: &String)
        ensures
            *path == match *self {
                Commands::Init { config, .. } => config,
                Commands::Plan { config, .. } => config,
                Commands::Apply { config, .. } => config,
                Commands::Export { config, .. } => config,
            },
    {
        match self {
            Commands::Init { config, .. } => config,
            Commands::Plan { config, .. } => config,
            Commands::Apply { config, .. } => config,
            Commands::Export { config, .. } => config,
        }
    }
}

/// The level at which the tool logs: `debug` where debug logging is asked
/// for, else `info`.
pub fn log_level(debug: bool) -> (level: &'static str)
    ensures
        level@ == if debug {
            "debug"@
        } else {
            "info"@
        },
{
    if debug {
        "debug"
    } else {
        "info"
    }
}

} // verus!
