//! The command surface: what a front-end asks the library to do. Parsing
//! command-line arguments into these values is entry-point work and stays
//! outside the library.

use vstd::prelude::*;

verus! {

/// Arguments of a fix run.
#[derive(Debug, Clone)]
pub struct FixArgs {
    pub path: String,
    pub yes: bool,
    pub redundant: bool,
    pub scope: String,
    pub full_tests: bool,
}

/// One invocation of the council.
#[derive(Debug, Clone)]
pub enum CouncilCommand {
    Review { path: String, scope: String, json: bool },
    Fix(FixArgs),
    Apply { run_id: String, yes: bool },
    Status { run_id: String },
    Show { run_id: String, plan: bool, patch: bool, verify: bool },
}

/// The parsed command line.
#[derive(Debug, Clone)]
pub struct CouncilCli {
    pub command: CouncilCommand,
}

} // verus!
