//! Command-line surface, as plain values.  Parsing the actual command
//! line is a collaborator's business; these are the values it hands the
//! core.

use vstd::prelude::*;

use crate::cfg::Config;

verus! {

/// Configuration options.
#[derive(Debug)]
pub struct Settings {
    /// Path of the configuration file to load.
    pub path: String,
    /// Configuration data supplied on the command line.
    pub data: Config,
}

/// Execution mode: how the application should be run.  The two flags
/// are mutually exclusive.
#[derive(Clone, Copy, Debug, PartialEq, Eq, Structural)]
pub struct Runtime {
    /// Run as a daemon, periodically refreshing DNS entries.
    pub daemon: bool,
    /// Perform a dry run: build requests but modify no DNS records.
    pub dry_run: bool,
}

} // verus!
