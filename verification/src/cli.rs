//! The command-line surface: which subcommand the supervisor was started
//! with.  Argument parsing itself happens outside the library; these are
//! the values it produces.

use vstd::prelude::*;

verus! {

/// Parsed command-line input.
#[derive(Clone, Copy, PartialEq, Eq, Structural, Debug)]
pub struct Cli {
    pub command: Command,
}

/// The supervisor's subcommands.
#[derive(Clone, Copy, PartialEq, Eq, Structural, Debug)]
pub enum Command {
    /// Run the supervisor: lock the configuration, start every service.
    Start,
    /// Query a running supervisor for its status.
    Status,
}

} // verus!
