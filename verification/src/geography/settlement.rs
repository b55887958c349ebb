//! Resource-slot bookkeeping of a settlement.

use vstd::prelude::*;

use crate::types::ids::FacilityId;

use super::resources::{ResourceSlot, ResourceType};

verus! {

/// Slot `i` is of the given type and free.
pub open spec fn slot_fits(s: ResourceSlot, resource_type: ResourceType) -> bool {
    s.resource_type == resource_type && s.claimed_by is None
}

/// Find an available slot of the given resource type: the first one.
pub fn find_available_slot(slots: &[ResourceSlot], resource_type: ResourceType) -> (r: Option<usize>)
    ensures
        match r {
            Some(i) => i < slots@.len() && slot_fits(slots@[i as int], resource_type)
                && forall|j: int| 0 <= j < i ==> !slot_fits(#[trigger] slots@[j], resource_type),
            None => forall|j: int| 0 <= j < slots@.len() ==> !slot_fits(#[trigger] slots@[j], resource_type),
        },
{
    let n = slots.len();
    for i in 0..n
        invariant
            n == slots@.len(),
            forall|j: int| 0 <= j < i ==> !slot_fits(#[trigger] slots@[j], resource_type),
    {
        if slots[i].resource_type == resource_type && slots[i].is_available() {
            return Some(i);
        }
    }
    None
}

/// Claim a resource slot for a facility; an index past the end is refused.
pub fn claim_slot(slots: &mut Vec<ResourceSlot>, slot_index: usize, facility_id: FacilityId) -> (granted: bool)
    ensures
        slot_index < old(slots)@.len() ==> {
            let (s, g) = old(slots)@[slot_index as int].claimed(facility_id);
            &&& granted == g
            &&& final(slots)@ == old(slots)@.update(slot_index as int, s)
        },
        slot_index >= old(slots)@.len() ==> !granted && final(slots)@ == old(slots)@,
{
    if slot_index < slots.len() {
        let mut slot = slots[slot_index];
        let granted = slot.claim(facility_id);
        slots.set(slot_index, slot);
        granted
    } else {
        false
    }
}

/// The slots after a facility lets go of everything it holds.
pub open spec fn released_by(slots: Seq<ResourceSlot>, facility_id: FacilityId) -> Seq<ResourceSlot> {
    slots.map_values(|s: ResourceSlot| if s.claimed_by == Some(facility_id) { s.released() } else { s })
}

/// Release every slot held by a facility (when the facility is demolished).
pub fn release_slot(slots: &mut Vec<ResourceSlot>, facility_id: FacilityId)
    ensures
        final(slots)@ == released_by(old(slots)@, facility_id),
{
    let n = slots.len();
    let ghost orig = slots@;
    for i in 0..n
        invariant
            n == slots@.len(),
            orig.len() == n,
            forall|j: int| 0 <= j < i ==> #[trigger] slots@[j] == released_by(orig, facility_id)[j],
            forall|j: int| i <= j < n ==> #[trigger] slots@[j] == orig[j],
    {
        if slots[i].claimed_by == Some(facility_id) {
            let mut slot = slots[i];
            slot.release();
            slots.set(i, slot);
        }
    }
    assert(slots@ =~= released_by(orig, facility_id));
}

/// Get the slot claimed by a facility: the first one it holds.
pub fn get_facility_slot(slots: &[ResourceSlot], facility_id: FacilityId) -> (r: Option<&ResourceSlot>)
    ensures
        match r {
            Some(s) => exists|i: int| 0 <= i < slots@.len() && slots@[i] == *s
                && s.claimed_by == Some(facility_id)
                && forall|j: int| 0 <= j < i ==> (#[trigger] slots@[j]).claimed_by != Some(facility_id),
            None => forall|j: int| 0 <= j < slots@.len() ==> (#[trigger] slots@[j]).claimed_by != Some(facility_id),
        },
{
    let n = slots.len();
    for i in 0..n
        invariant
            n == slots@.len(),
            forall|j: int| 0 <= j < i ==> (#[trigger] slots@[j]).claimed_by != Some(facility_id),
    {
        if slots[i].claimed_by == Some(facility_id) {
            return Some(&slots[i]);
        }
    }
    None
}

/// After a facility lets go, none of the settlement's slots is held by it,
/// the slots of other facilities are untouched, and the slot count is kept.
pub proof fn lemma_release_frees_only_that_facility(slots: Seq<ResourceSlot>, f: FacilityId)
    ensures
        released_by(slots, f).len() == slots.len(),
        forall|j: int| 0 <= j < slots.len() ==> (#[trigger] released_by(slots, f)[j]).claimed_by != Some(f),
        forall|j: int| 0 <= j < slots.len() && slots[j].claimed_by != Some(f)
            ==> #[trigger] released_by(slots, f)[j] == slots[j],
{
}

/// Claiming a free slot for a facility that holds none is granted; the
/// facility then holds exactly that slot, and letting the facility go gives
/// back the settlement's slots as they were.
pub proof fn lemma_claim_slot_then_release(slots: Seq<ResourceSlot>, i: int, f: FacilityId)
    requires
        0 <= i < slots.len(),
        slots[i].claimed_by is None,
        forall|j: int| 0 <= j < slots.len() ==> (#[trigger] slots[j]).claimed_by != Some(f),
    ensures
        slots[i].claimed(f).1,
        forall|j: int| 0 <= j < slots.len() ==>
            ((#[trigger] slots.update(i, slots[i].claimed(f).0)[j]).claimed_by == Some(f) <==> j == i),
        released_by(slots.update(i, slots[i].claimed(f).0), f) == slots,
{
    let after = slots.update(i, slots[i].claimed(f).0);
    assert(released_by(after, f) =~= slots);
}

} // verus!
