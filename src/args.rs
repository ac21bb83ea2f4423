//! The command line that the program accepts, as plain values.

use vstd::prelude::*;

verus! {

/// The parsed command line.
#[derive(Debug, Clone, PartialEq, Eq)]
pub struct Cli {
    /// Optional name to operate on.
    pub name: Option<String>,
    /// The subcommand, if one was given.
    pub command: Option<Commands>,
}

/// The subcommands.
#[derive(Debug, Clone, PartialEq, Eq)]
pub enum Commands {
    /// Does testing things; `list` asks for the test values to be listed.
    Test { list: bool },
}

} // verus!
