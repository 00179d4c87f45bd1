//! The options of the full project skeleton.

use vstd::prelude::*;

verus! {

/// The options that every generated program of the full profile takes.
#[derive(Clone, Copy, Debug, PartialEq, Eq, Structural)]
pub struct Cli {
    /// Whether verbose output was asked for.
    pub verbose: bool,
    /// Whether the program shall only show what it would do.
    pub dry_run: bool,
}

} // verus!
