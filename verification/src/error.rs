//! Why a maze could not be loaded.

use vstd::prelude::*;

verus! {

/// Why a maze could not be loaded.
#[derive(Debug, Clone, Copy, PartialEq, Eq)]
pub enum LoadError {
    /// The maze file could not be opened or read.
    Unreadable,
    /// What was read is no JSON text, or no maze.
    Malformed,
}

} // verus!
