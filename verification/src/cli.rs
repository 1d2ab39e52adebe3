//! The commands of the program.

use vstd::prelude::*;

verus! {

/// What the program is asked to do.
#[derive(Clone, Debug, PartialEq, Eq)]
pub enum Commands {
    /// Install the archive at `path`.
    Install { path: String },
    /// Remove the bundle named `name`.
    Uninstall { name: String },
    /// Upgrade the bundle named `name` from the archive at `path`.
    Upgrade { name: String, path: String },
}

/// The parsed command line.
#[derive(Clone, Debug, PartialEq, Eq)]
pub struct Cli {
    pub command: Commands,
}

} // verus!
