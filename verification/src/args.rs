//! What the user asks the application to do.

use vstd::prelude::*;

verus! {

/// The arguments of one invocation.
#[derive(Debug, Clone, PartialEq, Eq)]
pub struct Args {
    pub command: Commands,
}

/// The four commands. A version is given as the user typed it.
#[derive(Debug, Clone, PartialEq, Eq)]
pub enum Commands {
    /// Install the version.
    Install { version: String },
    /// Make the version the one in use.
    SetCurrent { version: String },
    /// Fetch the package list anew.
    Update,
    Upgrade,
}

} // verus!
