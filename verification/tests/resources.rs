use sim_core::geography::resources::{ResourceQuality, ResourceSlot, ResourceType};
use sim_core::geography::settlement::{
    claim_slot, find_available_slot, get_facility_slot, release_slot,
};
use sim_core::types::ids::FacilityId;

#[test]
fn test_slot_claim_release() {
    let mut slot = ResourceSlot::new(ResourceType::Land, ResourceQuality::Normal);
    assert!(slot.is_available());

    let facility = FacilityId::new(1);
    assert!(slot.claim(facility));
    assert!(!slot.is_available());
    assert_eq!(slot.claimed_by, Some(facility));

    // Can't double-claim
    let other = FacilityId::new(2);
    assert!(!slot.claim(other));

    slot.release();
    assert!(slot.is_available());
}

#[test]
fn refused_claim_keeps_holder() {
    let mut slot = ResourceSlot::new(ResourceType::Coastal, ResourceQuality::Rich);
    assert!(slot.claim(FacilityId::new(7)));
    assert!(!slot.claim(FacilityId::new(8)));
    assert_eq!(slot.claimed_by, Some(FacilityId::new(7)));
    assert_eq!(slot.resource_type, ResourceType::Coastal);
    assert_eq!(slot.quality, ResourceQuality::Rich);
    slot.release();
    assert!(slot.claim(FacilityId::new(8)));
    assert_eq!(slot.claimed_by, Some(FacilityId::new(8)));
}

fn settlement_slots() -> Vec<ResourceSlot> {
    vec![
        ResourceSlot::new(ResourceType::Land, ResourceQuality::Poor),
        ResourceSlot::new(ResourceType::Forest, ResourceQuality::Normal),
        ResourceSlot::new(ResourceType::Land, ResourceQuality::Rich),
    ]
}

#[test]
fn find_available_slot_picks_first_free_of_type() {
    let mut slots = settlement_slots();
    assert_eq!(find_available_slot(&slots, ResourceType::Land), Some(0));
    assert!(claim_slot(&mut slots, 0, FacilityId::new(1)));
    assert_eq!(find_available_slot(&slots, ResourceType::Land), Some(2));
    assert!(claim_slot(&mut slots, 2, FacilityId::new(2)));
    assert_eq!(find_available_slot(&slots, ResourceType::Land), None);
    assert_eq!(find_available_slot(&slots, ResourceType::OreDeposit), None);
}

#[test]
fn claim_slot_out_of_range_is_refused() {
    let mut slots = settlement_slots();
    assert!(!claim_slot(&mut slots, 3, FacilityId::new(1)));
    assert!(slots.iter().all(|s| s.is_available()));
    assert!(claim_slot(&mut slots, 1, FacilityId::new(1)));
    assert!(!claim_slot(&mut slots, 1, FacilityId::new(2)));
    assert_eq!(slots[1].claimed_by, Some(FacilityId::new(1)));
}

#[test]
fn release_slot_frees_only_that_facility() {
    let mut slots = settlement_slots();
    assert!(claim_slot(&mut slots, 0, FacilityId::new(4)));
    assert!(claim_slot(&mut slots, 1, FacilityId::new(5)));
    assert!(claim_slot(&mut slots, 2, FacilityId::new(4)));
    release_slot(&mut slots, FacilityId::new(4));
    assert!(slots[0].is_available());
    assert_eq!(slots[1].claimed_by, Some(FacilityId::new(5)));
    assert!(slots[2].is_available());
    assert_eq!(slots.len(), 3);
}

#[test]
fn get_facility_slot_finds_held_slot() {
    let mut slots = settlement_slots();
    assert!(get_facility_slot(&slots, FacilityId::new(9)).is_none());
    assert!(claim_slot(&mut slots, 2, FacilityId::new(9)));
    let held = get_facility_slot(&slots, FacilityId::new(9)).unwrap();
    assert_eq!(held.quality, ResourceQuality::Rich);
    assert_eq!(held.claimed_by, Some(FacilityId::new(9)));
}

#[test]
fn claiming_then_releasing_restores_the_slots() {
    let mut slots = settlement_slots();
    assert!(claim_slot(&mut slots, 1, FacilityId::new(3)));
    assert!(claim_slot(&mut slots, 0, FacilityId::new(6)));
    let before: Vec<_> = slots.iter().map(|s| (s.resource_type, s.quality, s.claimed_by)).collect();
    let i = find_available_slot(&slots, ResourceType::Land).unwrap();
    assert!(claim_slot(&mut slots, i, FacilityId::new(8)));
    let held: Vec<usize> =
        (0..slots.len()).filter(|&j| slots[j].claimed_by == Some(FacilityId::new(8))).collect();
    assert_eq!(held, vec![i]);
    release_slot(&mut slots, FacilityId::new(8));
    let after: Vec<_> = slots.iter().map(|s| (s.resource_type, s.quality, s.claimed_by)).collect();
    assert_eq!(after, before);
}
