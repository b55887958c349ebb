use sim_core::types::ids::{
    facility_key_from_u64, facility_key_u64, pop_key_from_u64, pop_key_u64, AgentId, FacilityHandle,
    MerchantId, PopHandle, SettlementId,
};
use sim_core::types::{EntityId, Good, GoodFamily, GoodKind, KeyToU64, LocationId, OrgId, ShipId};

const VERSION_BIT: u64 = 1 << 32;

#[test]
fn newtype_ids_hold_their_number() {
    assert_eq!(SettlementId::new(7).0, 7);
    assert_eq!(MerchantId::new(3).0, 3);
    assert_eq!(sim_core::pops::types::ids::SettlementId::new(4).0, 4);
    assert_eq!(sim_core::production::recipe::RecipeId::new(9).0, 9);
}

#[test]
fn pop_key_roundtrip_sets_version_bit() {
    let k = pop_key_from_u64(5);
    assert_eq!(pop_key_u64(k), 5 | VERSION_BIT);
    let again = pop_key_from_u64(pop_key_u64(k));
    assert_eq!(again, k);
    let f = facility_key_from_u64((3 << 32) | 12);
    assert_eq!(facility_key_u64(f), (3 << 32) | 12);
}

#[test]
fn stable_u64_tags_agent_kinds() {
    let pop = AgentId::Pop(pop_key_from_u64((1 << 32) | 7));
    assert_eq!(pop.stable_u64(), (1 << 32) | 7);
    let big_pop = AgentId::Pop(pop_key_from_u64(u64::MAX));
    assert_eq!(big_pop.stable_u64(), u64::MAX >> 2);
    assert_eq!(AgentId::Merchant(MerchantId::new(42)).stable_u64(), (1 << 62) + 42);
    assert_eq!(AgentId::Outside(9).stable_u64(), (1 << 63) + 9);
    assert_eq!(AgentId::Outside(u64::MAX).stable_u64(), u64::MAX);
    assert_ne!(
        AgentId::Merchant(MerchantId::new(0)).stable_u64(),
        AgentId::Outside(0).stable_u64()
    );
}

#[test]
fn handles_compare_by_settlement_and_key() {
    let k = pop_key_from_u64(1);
    let a = PopHandle { settlement: SettlementId::new(1), key: k };
    let b = PopHandle { settlement: SettlementId::new(2), key: k };
    assert_ne!(a, b);
    let f = FacilityHandle { settlement: SettlementId::new(1), key: facility_key_from_u64(2) };
    assert_eq!(f.key, facility_key_from_u64(2));
}

#[test]
fn slot_map_keys_convert_to_locations_and_entities() {
    let s = sim_core::types::SettlementId::from_u64(5);
    assert_eq!(s.to_u64(), 5 | VERSION_BIT);
    assert_eq!(LocationId::from_settlement(s), LocationId::Settlement(5 | VERSION_BIT));
    assert_eq!(EntityId::from_population(s), EntityId::Population(5 | VERSION_BIT));
    let ship = ShipId::from_u64((2 << 32) | 1);
    assert_eq!(LocationId::from_ship(ship), LocationId::Ship((3 << 32) | 1));
    assert_eq!(EntityId::from_ship(ship), EntityId::Ship((3 << 32) | 1));
    let org = OrgId::from_u64(0);
    assert_eq!(EntityId::from_org(org), EntityId::Org(VERSION_BIT));
}

#[test]
fn goods_catalogue() {
    let all = Good::all();
    assert_eq!(all.len(), 13);
    assert_eq!(all[0], Good::Grain);
    assert_eq!(all[12], Good::Labor);
    let physical = Good::physical();
    assert_eq!(physical.len(), 12);
    assert!(!physical.contains(&Good::Labor));
    assert_eq!(physical[..], all[..12]);
    assert_eq!(Good::Flour.family(), GoodFamily::ProcessedMaterials);
    assert_eq!(Good::Tools.family(), GoodFamily::FinishedGoods);
    assert_eq!(Good::Ships.family(), GoodFamily::CapitalGoods);
    assert_eq!(Good::Labor.family(), GoodFamily::BulkStaples);
    assert_eq!(Good::Labor.kind(), GoodKind::Labor);
    assert_eq!(Good::Wool.kind(), GoodKind::Physical);
}

#[test]
fn world_keys_rebuild_from_their_ffi_form() {
    let s = sim_core::types::SettlementId::from_u64((4 << 32) | 9);
    assert_eq!(sim_core::types::SettlementId::from_u64(s.to_u64()), s);
    let ship = ShipId::from_u64(77);
    assert_eq!(ShipId::from_u64(ship.to_u64()), ship);
    let f = sim_core::types::FacilityId::from_u64(u64::MAX);
    assert_eq!(sim_core::types::FacilityId::from_u64(f.to_u64()), f);
    let org = OrgId::from_u64(0);
    assert_eq!(OrgId::from_u64(org.to_u64()), org);
}
