//! Resource types for primary production.

use vstd::prelude::*;

use crate::types::ids::FacilityId;

verus! {

/// Broad categories of natural resources
#[derive(Debug, Clone, Copy, PartialEq, Eq, Hash, Structural)]
pub enum ResourceType {
    /// Arable land - farms, orchards, vineyards, ranches
    Land,
    /// Woodland - sawmills, charcoal burners, hunting
    Forest,
    /// Mineral deposits - mines
    OreDeposit,
    /// Access to water - fisheries, salt works, shipyards
    Coastal,
}

/// Quality affects output multiplier
#[derive(Debug, Clone, Copy, PartialEq, Eq, Hash, Structural)]
pub enum ResourceQuality {
    Poor,  // 0.5x output
    Normal,  // 1.0x output
    Rich,  // 1.5x output
}

/// A claimable resource slot at a settlement
#[derive(Debug, Clone, Copy)]
pub struct ResourceSlot {
    pub resource_type: ResourceType,
    pub quality: ResourceQuality,
    pub claimed_by: Option<FacilityId>,
}

impl ResourceSlot {
    /// The slot after `facility_id` asks for it, and whether it was granted:
    /// a free slot goes to the facility, a claimed slot stays as it is.
    pub open spec fn claimed(self, facility_id: FacilityId) -> (ResourceSlot, bool) {
        match self.claimed_by {
            Some(_) => (self, false),
            None => (ResourceSlot { claimed_by: Some(facility_id), ..self }, true),
        }
    }

    /// The slot after it is released: free, of the same type and quality.
    pub open spec fn released(self) -> ResourceSlot {
        ResourceSlot { claimed_by: None, ..self }
    }

    pub fn new(resource_type: ResourceType, quality: ResourceQuality) -> (s: Self)
        ensures
            s.resource_type == resource_type,
            s.quality == quality,
            s.claimed_by is None,
    {
        Self { resource_type, quality, claimed_by: None }
    }

    pub fn is_available(&self) -> (r: bool)
        ensures
            r == self.claimed_by is None,
    {
        self.claimed_by.is_none()
    }

    pub fn claim(&mut self, facility_id: FacilityId) -> (granted: bool)
        ensures
            (*final(self), granted) == old(self).claimed(facility_id),
    {
        if self.claimed_by.is_some() {
            return false;
        }
        self.claimed_by = Some(facility_id);
        true
    }

    pub fn release(&mut self)
        ensures
            *final(self) == old(self).released(),
    {
        self.claimed_by = None;
    }
}

/// A free slot that is claimed and then released is free again, of the same
/// type and quality.
pub proof fn lemma_claim_then_release(s: ResourceSlot, f: FacilityId)
    requires
        s.claimed_by is None,
    ensures
        s.claimed(f).1,
        s.claimed(f).0.claimed_by == Some(f),
        s.claimed(f).0.released() == s,
{
}

/// A slot is held by at most one facility: once claimed, every further claim
/// is refused and leaves the holder in place, until the slot is released.
pub proof fn lemma_claim_is_exclusive(s: ResourceSlot, f: FacilityId, g: FacilityId)
    requires
        s.claimed_by is None,
    ensures
        !s.claimed(f).0.claimed(g).1,
        s.claimed(f).0.claimed(g).0 == s.claimed(f).0,
        s.claimed(f).0.claimed(g).0.claimed_by == Some(f),
        s.claimed(f).0.released().claimed(g).1,
{
}

} // verus!
