//! Core ID types.

use vstd::prelude::*;

verus! {

pub type GoodId = u32;

pub type AgentId = u32;

#[derive(Clone, Copy, Debug, Hash, Eq, PartialEq, Structural)]
pub struct SettlementId(pub u32);

impl SettlementId {
    pub fn new(id: u32) -> (s: Self)
        ensures
            s.0 == id,
    {
        Self(id)
    }
}

} // verus!
