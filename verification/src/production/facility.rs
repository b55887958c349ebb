//! Facility kinds of the production model.

use vstd::prelude::*;

verus! {

/// What kind of facility this is
#[derive(Debug, Clone, Copy, PartialEq, Eq, Hash, Structural)]
pub enum FacilityType {
    // Primary production (require natural resources)
    Farm,  // Land → grain
    Fishery,  // Coastal → fish
    Sawmill,  // Forest → lumber
    IronMine,  // OreDeposit → iron
    // Secondary production (no natural resource required)
    Bakery,  // grain → bread
    Smithy,  // iron → tools
}

} // verus!
