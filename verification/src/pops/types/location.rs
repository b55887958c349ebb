//! Location types for the multi-settlement economy.

use vstd::prelude::*;

use super::ids::SettlementId;

verus! {

/// Where stockpiles and agents can be located
#[derive(Clone, Copy, Debug, Hash, Eq, PartialEq, Structural)]
pub enum LocationId {
    /// At a settlement (warehouse, market)
    Settlement(SettlementId),
}

impl LocationId {
    pub fn settlement(id: SettlementId) -> (l: Self)
        ensures
            l == LocationId::Settlement(id),
    {
        Self::Settlement(id)
    }
}

} // verus!
