//! Goods, natural resources and the slot-map identifiers of the world model.

pub mod ids;

use vstd::prelude::*;

use crate::types::ids::version_bit_set;

verus! {

// ============================================================================
// Slot-map identifiers
// ============================================================================

/// The FFI encoding that `slotmap` gives a key after decoding `value`: the low
/// 32 bits are the slot index, the high 32 bits the version, which is always odd.
pub open spec fn slot_key_encoding(value: u64) -> u64 {
    value | 0x1_0000_0000u64
}

/// Calls `slotmap::KeyData::from_ffi` on `value` and reads the key back with
/// `KeyData::as_ffi`. In the crate's source `from_ffi` keeps the low 32 bits as
/// the index and sets the lowest version bit, and `as_ffi` packs
/// `version << 32 | index`: the result is `value` with bit 32 set.
#[verifier::external_body]
pub(crate) fn slot_key_data_roundtrip(value: u64) -> (r: u64)
    ensures
        r == slot_key_encoding(value),
{
    slotmap::KeyData::from_ffi(value).as_ffi()
}

/// Converts a slot-map key to its 64-bit FFI form for the WASM boundary.
pub trait KeyToU64: Sized {
    /// The FFI form of the key.
    spec fn spec_to_u64(self) -> u64;

    fn to_u64(self) -> (r: u64)
        ensures
            r == self.spec_to_u64(),
    ;
}

/// Settlement key of the world arena.
#[derive(Clone, Copy, Debug, PartialEq, Eq, Hash, Structural)]
pub struct SettlementId {
    ffi: u64,
}

/// Ship key of the world arena.
#[derive(Clone, Copy, Debug, PartialEq, Eq, Hash, Structural)]
pub struct ShipId {
    ffi: u64,
}

/// Facility key of the world arena.
#[derive(Clone, Copy, Debug, PartialEq, Eq, Hash, Structural)]
pub struct FacilityId {
    ffi: u64,
}

/// Organisation key of the world arena.
#[derive(Clone, Copy, Debug, PartialEq, Eq, Hash, Structural)]
pub struct OrgId {
    ffi: u64,
}

impl SettlementId {
    #[verifier::type_invariant]
    spec fn wf(self) -> bool {
        self.ffi & 0x1_0000_0000u64 != 0
    }

    /// Rebuilds a key from its FFI form, as `KeyData::from_ffi` does.
    pub fn from_u64(value: u64) -> (k: Self)
        ensures
            k.spec_to_u64() == slot_key_encoding(value),
    {
        let ffi = slot_key_data_roundtrip(value);
        assert(ffi & 0x1_0000_0000u64 != 0) by (bit_vector)
            requires ffi == (value | 0x1_0000_0000u64);
        SettlementId { ffi }
    }
}

impl KeyToU64 for SettlementId {
    closed spec fn spec_to_u64(self) -> u64 {
        self.ffi
    }

    fn to_u64(self) -> (r: u64)
        ensures
            version_bit_set(r),
    {
        proof {
            use_type_invariant(&self);
        }
        self.ffi
    }
}

impl ShipId {
    #[verifier::type_invariant]
    spec fn wf(self) -> bool {
        self.ffi & 0x1_0000_0000u64 != 0
    }

    /// Rebuilds a key from its FFI form, as `KeyData::from_ffi` does.
    pub fn from_u64(value: u64) -> (k: Self)
        ensures
            k.spec_to_u64() == slot_key_encoding(value),
    {
        let ffi = slot_key_data_roundtrip(value);
        assert(ffi & 0x1_0000_0000u64 != 0) by (bit_vector)
            requires ffi == (value | 0x1_0000_0000u64);
        ShipId { ffi }
    }
}

impl KeyToU64 for ShipId {
    closed spec fn spec_to_u64(self) -> u64 {
        self.ffi
    }

    fn to_u64(self) -> (r: u64)
        ensures
            version_bit_set(r),
    {
        proof {
            use_type_invariant(&self);
        }
        self.ffi
    }
}

impl FacilityId {
    #[verifier::type_invariant]
    spec fn wf(self) -> bool {
        self.ffi & 0x1_0000_0000u64 != 0
    }

    /// Rebuilds a key from its FFI form, as `KeyData::from_ffi` does.
    pub fn from_u64(value: u64) -> (k: Self)
        ensures
            k.spec_to_u64() == slot_key_encoding(value),
    {
        let ffi = slot_key_data_roundtrip(value);
        assert(ffi & 0x1_0000_0000u64 != 0) by (bit_vector)
            requires ffi == (value | 0x1_0000_0000u64);
        FacilityId { ffi }
    }
}

impl KeyToU64 for FacilityId {
    closed spec fn spec_to_u64(self) -> u64 {
        self.ffi
    }

    fn to_u64(self) -> (r: u64)
        ensures
            version_bit_set(r),
    {
        proof {
            use_type_invariant(&self);
        }
        self.ffi
    }
}

impl OrgId {
    #[verifier::type_invariant]
    spec fn wf(self) -> bool {
        self.ffi & 0x1_0000_0000u64 != 0
    }

    /// Rebuilds a key from its FFI form, as `KeyData::from_ffi` does.
    pub fn from_u64(value: u64) -> (k: Self)
        ensures
            k.spec_to_u64() == slot_key_encoding(value),
    {
        let ffi = slot_key_data_roundtrip(value);
        assert(ffi & 0x1_0000_0000u64 != 0) by (bit_vector)
            requires ffi == (value | 0x1_0000_0000u64);
        OrgId { ffi }
    }
}

impl KeyToU64 for OrgId {
    closed spec fn spec_to_u64(self) -> u64 {
        self.ffi
    }

    fn to_u64(self) -> (r: u64)
        ensures
            version_bit_set(r),
    {
        proof {
            use_type_invariant(&self);
        }
        self.ffi
    }
}

/// Rebuilding a settlement key from the FFI form it was read out as gives
/// back the same key.
pub proof fn lemma_settlement_id_roundtrip(k: SettlementId, j: SettlementId)
    requires
        version_bit_set(k.spec_to_u64()),
        j.spec_to_u64() == slot_key_encoding(k.spec_to_u64()),
    ensures
        j == k,
{
    let v = k.spec_to_u64();
    assert(v & 0x1_0000_0000u64 != 0 ==> (v | 0x1_0000_0000u64) == v) by (bit_vector);
}

/// The same law for ship keys.
pub proof fn lemma_ship_id_roundtrip(k: ShipId, j: ShipId)
    requires
        version_bit_set(k.spec_to_u64()),
        j.spec_to_u64() == slot_key_encoding(k.spec_to_u64()),
    ensures
        j == k,
{
    let v = k.spec_to_u64();
    assert(v & 0x1_0000_0000u64 != 0 ==> (v | 0x1_0000_0000u64) == v) by (bit_vector);
}

/// The same law for facility keys.
pub proof fn lemma_facility_id_roundtrip(k: FacilityId, j: FacilityId)
    requires
        version_bit_set(k.spec_to_u64()),
        j.spec_to_u64() == slot_key_encoding(k.spec_to_u64()),
    ensures
        j == k,
{
    let v = k.spec_to_u64();
    assert(v & 0x1_0000_0000u64 != 0 ==> (v | 0x1_0000_0000u64) == v) by (bit_vector);
}

/// The same law for organisation keys.
pub proof fn lemma_org_id_roundtrip(k: OrgId, j: OrgId)
    requires
        version_bit_set(k.spec_to_u64()),
        j.spec_to_u64() == slot_key_encoding(k.spec_to_u64()),
    ensures
        j == k,
{
    let v = k.spec_to_u64();
    assert(v & 0x1_0000_0000u64 != 0 ==> (v | 0x1_0000_0000u64) == v) by (bit_vector);
}

// ============================================================================
// Goods - The commodities that flow through the economy
// ============================================================================

#[derive(Debug, Clone, Copy, PartialEq, Eq, Hash, Structural)]
pub enum Good {
    // Primary
    Grain,
    Fish,
    Timber,
    Ore,
    Wool,
    // Processed
    Flour,
    Lumber,
    Iron,
    Cloth,
    // Finished
    Provisions,
    Tools,
    // Capital
    Ships,
    // Special - traded via auction but not stockpiled
    Labor,
}

#[derive(Debug, Clone, Copy, PartialEq, Eq, Hash, Structural)]
pub enum GoodFamily {
    BulkStaples,
    ProcessedMaterials,
    FinishedGoods,
    CapitalGoods,
}

/// Family for labor - separate from physical goods
#[derive(Debug, Clone, Copy, PartialEq, Eq, Hash, Structural)]
pub enum GoodKind {
    Physical, // Can be stockpiled and shipped
    Labor,    // Settlement-scoped, consumed immediately
}

/// Every good, in catalogue order.
pub open spec fn all_goods() -> Seq<Good> {
    seq![
        Good::Grain, Good::Fish, Good::Timber, Good::Ore, Good::Wool,
        Good::Flour, Good::Lumber, Good::Iron, Good::Cloth,
        Good::Provisions, Good::Tools, Good::Ships, Good::Labor,
    ]
}

/// Whether a good can be stockpiled and shipped.
pub open spec fn is_physical(g: Good) -> bool {
    g.spec_kind() == GoodKind::Physical
}

impl Good {
    pub open spec fn spec_family(self) -> GoodFamily {
        match self {
            Good::Grain | Good::Fish | Good::Timber | Good::Ore | Good::Wool => GoodFamily::BulkStaples,
            Good::Flour | Good::Lumber | Good::Iron | Good::Cloth => GoodFamily::ProcessedMaterials,
            Good::Provisions | Good::Tools => GoodFamily::FinishedGoods,
            Good::Ships => GoodFamily::CapitalGoods,
            Good::Labor => GoodFamily::BulkStaples,
        }
    }

    pub open spec fn spec_kind(self) -> GoodKind {
        match self {
            Good::Labor => GoodKind::Labor,
            _ => GoodKind::Physical,
        }
    }

    pub fn family(&self) -> (f: GoodFamily)
        ensures
            f == self.spec_family(),
    {
        match self {
            Good::Grain | Good::Fish | Good::Timber | Good::Ore | Good::Wool => {
                GoodFamily::BulkStaples
            },
            Good::Flour | Good::Lumber | Good::Iron | Good::Cloth => GoodFamily::ProcessedMaterials,
            Good::Provisions | Good::Tools => GoodFamily::FinishedGoods,
            Good::Ships => GoodFamily::CapitalGoods,
            Good::Labor => GoodFamily::BulkStaples,  // Doesn't really apply, but need a value
        }
    }

    pub fn kind(&self) -> (k: GoodKind)
        ensures
            k == self.spec_kind(),
    {
        match self {
            Good::Labor => GoodKind::Labor,
            _ => GoodKind::Physical,
        }
    }

    /// All goods (including Labor), in catalogue order.
    pub fn all() -> (v: Vec<Good>)
        ensures
            v@ == all_goods(),
    {
        let v = vec![
            Good::Grain,
            Good::Fish,
            Good::Timber,
            Good::Ore,
            Good::Wool,
            Good::Flour,
            Good::Lumber,
            Good::Iron,
            Good::Cloth,
            Good::Provisions,
            Good::Tools,
            Good::Ships,
            Good::Labor,
        ];
        assert(v@ =~= all_goods());
        v
    }

    /// Physical goods only (excludes Labor), in catalogue order.
    pub fn physical() -> (v: Vec<Good>)
        ensures
            v@ == all_goods().filter(|g: Good| is_physical(g)),
    {
        let all = Self::all();
        let mut v: Vec<Good> = Vec::new();
        let n = all.len();
        for i in 0..n
            invariant
                n == all@.len(),
                all@ == all_goods(),
                v@ == all@.take(i as int).filter(|g: Good| is_physical(g)),
        {
            let g = all[i];
            proof {
                assert(all@.take(i + 1).drop_last() =~= all@.take(i as int));
                reveal_with_fuel(Seq::<_>::filter, 1);
            }
            if g.kind() == GoodKind::Physical {
                v.push(g);
            }
        }
        assert(all@.take(n as int) =~= all@);
        v
    }
}

/// The catalogue's families: the five primaries (and Labor, which needs some
/// family) are bulk staples, Flour, Lumber, Iron and Cloth processed
/// materials, Provisions and Tools finished goods, Ships capital goods; only
/// Labor is of the labor kind. The catalogue lists each of the thirteen goods
/// once.
pub proof fn lemma_goods_catalogue()
    ensures
        forall|g: Good| #[trigger] g.spec_family() == GoodFamily::BulkStaples <==> (g == Good::Grain
            || g == Good::Fish || g == Good::Timber || g == Good::Ore || g == Good::Wool || g == Good::Labor),
        forall|g: Good| #[trigger] g.spec_family() == GoodFamily::ProcessedMaterials <==> (g == Good::Flour
            || g == Good::Lumber || g == Good::Iron || g == Good::Cloth),
        forall|g: Good| #[trigger] g.spec_family() == GoodFamily::FinishedGoods <==> (g == Good::Provisions
            || g == Good::Tools),
        forall|g: Good| #[trigger] g.spec_family() == GoodFamily::CapitalGoods <==> g == Good::Ships,
        forall|g: Good| #[trigger] g.spec_kind() == GoodKind::Labor <==> g == Good::Labor,
        forall|g: Good| #[trigger] all_goods().contains(g),
        all_goods().len() == 13,
        all_goods().no_duplicates(),
{
    assert forall|g: Good| #[trigger] all_goods().contains(g) by {
        let i: int = match g {
            Good::Grain => 0, Good::Fish => 1, Good::Timber => 2, Good::Ore => 3, Good::Wool => 4,
            Good::Flour => 5, Good::Lumber => 6, Good::Iron => 7, Good::Cloth => 8,
            Good::Provisions => 9, Good::Tools => 10, Good::Ships => 11, Good::Labor => 12,
        };
        assert(all_goods()[i] == g);
    }
}

// ============================================================================
// Natural Resources - What can be extracted at a location
// ============================================================================

#[derive(Debug, Clone, Copy, PartialEq, Eq, Hash, Structural)]
pub enum NaturalResource {
    FertileLand, // Enables grain production
    Fishery,     // Enables fishing
    Forest,      // Enables timber
    OreDeposit,  // Enables mining
    Pastureland, // Enables wool/livestock
}

#[derive(Debug, Clone, Copy, PartialEq, Eq, Structural)]
pub enum TransportMode {
    Sea,
    River,
    Land,
}

#[derive(Debug, Clone, Copy, PartialEq, Eq, Structural)]
pub enum ShipStatus {
    InPort,
    EnRoute,
}

#[derive(Debug, Clone, Copy, PartialEq, Eq, Structural)]
pub enum FacilityType {
    // Primary (extraction)
    Farm,
    Fishery,
    LumberCamp,
    Mine,
    Pasture,
    // Processing
    Mill,
    Foundry,
    Weaver,
    // Finished
    Bakery,
    Toolsmith,
    // Capital
    Shipyard,
    // Special - owned by Settlement Org, fallback for unassigned workers
    SubsistenceFarm,
}

#[derive(Debug, Clone, Copy, PartialEq, Eq, Structural)]
pub enum OrgType {
    Regular,    // Player or AI trading company
    Settlement, // Special: owns subsistence farm, hardcoded behavior
}

// ============================================================================
// Location ID - Where stockpiles exist
// ============================================================================

#[derive(Debug, Clone, Copy, PartialEq, Eq, Hash, Structural)]
pub enum LocationId {
    Settlement(u64), // SettlementId as u64 for WASM
    Ship(u64),       // ShipId as u64 for WASM
}

impl LocationId {
    pub fn from_settlement(id: SettlementId) -> (l: Self)
        ensures
            l == LocationId::Settlement(id.spec_to_u64()),
    {
        LocationId::Settlement(id.to_u64())
    }

    pub fn from_ship(id: ShipId) -> (l: Self)
        ensures
            l == LocationId::Ship(id.spec_to_u64()),
    {
        LocationId::Ship(id.to_u64())
    }
}

// ============================================================================
// Entity ID - Who participates in auctions
// ============================================================================

#[derive(Debug, Clone, Copy, PartialEq, Eq, Hash, Structural)]
pub enum EntityId {
    Org(u64),        // OrgId as u64 for WASM
    Population(u64), // SettlementId as u64 (population of that settlement)
    Ship(u64),       // ShipId as u64 - trades from cargo, money to/from owner
}

impl EntityId {
    pub fn from_org(id: OrgId) -> (e: Self)
        ensures
            e == EntityId::Org(id.spec_to_u64()),
    {
        EntityId::Org(id.to_u64())
    }

    pub fn from_population(settlement_id: SettlementId) -> (e: Self)
        ensures
            e == EntityId::Population(settlement_id.spec_to_u64()),
    {
        EntityId::Population(settlement_id.to_u64())
    }

    pub fn from_ship(ship_id: ShipId) -> (e: Self)
        ensures
            e == EntityId::Ship(ship_id.spec_to_u64()),
    {
        EntityId::Ship(ship_id.to_u64())
    }
}

} // verus!
