//! Outcomes of the mortality and growth check of a pop.

use vstd::prelude::*;

verus! {

/// Result of mortality check for a population
#[derive(Debug, Clone, Copy, PartialEq, Eq, Structural)]
pub enum MortalityOutcome {
    /// Pop survives unchanged
    Survives,
    /// Pop dies (should be removed)
    Dies,
    /// Pop grows (should spawn new pop)
    Grows,
}

} // verus!
