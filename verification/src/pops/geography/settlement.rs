//! Natural resources of a settlement.

use vstd::prelude::*;

verus! {

/// What can be extracted at a location
#[derive(Debug, Clone, Copy, PartialEq, Eq, Hash, Structural)]
pub enum NaturalResource {
    FertileLand,  // Enables grain production
    Fishery,  // Enables fishing
    Forest,  // Enables lumber
    IronOre,  // Enables iron mining
}

} // verus!
