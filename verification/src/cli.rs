//! The data of the command surface: which action was asked for.

use vstd::prelude::*;

verus! {

/// The actions the command surface accepts.
#[derive(Debug)]
pub enum Commands {
    /// Write a fresh default configuration.
    Init,
    /// Execute the runbook at this path.
    Run { path: String },
}

/// The parsed command line.
#[derive(Debug)]
pub struct Cli {
    pub command: Commands,
}

} // verus!
