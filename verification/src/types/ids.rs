//! Numeric identifiers, settlement-local arena keys and agent identities.

use vstd::prelude::*;

use crate::types::{slot_key_data_roundtrip, slot_key_encoding};

verus! {

// === TYPE ALIASES ===

/// Goods are identified by a plain number.
pub type GoodId = u32;

// === NEWTYPE IDS ===

#[derive(Clone, Copy, Debug, Hash, Eq, PartialEq, Structural)]
pub struct SettlementId(pub u32);

impl SettlementId {
    pub fn new(id: u32) -> (s: Self)
        ensures
            s.0 == id,
    {
        Self(id)
    }
}

#[derive(Clone, Copy, Debug, Hash, Eq, PartialEq, Structural)]
pub struct MerchantId(pub u32);

impl MerchantId {
    pub fn new(id: u32) -> (m: Self)
        ensures
            m.0 == id,
    {
        Self(id)
    }
}

/// Identity of a population unit.
#[derive(Clone, Copy, Debug, Hash, Eq, PartialEq, Structural)]
pub struct PopId(pub u32);

impl PopId {
    pub fn new(id: u32) -> (p: Self)
        ensures
            p.0 == id,
    {
        Self(id)
    }
}

/// Identity of a production facility.
#[derive(Clone, Copy, Debug, Hash, Eq, PartialEq, Structural)]
pub struct FacilityId(pub u32);

impl FacilityId {
    pub fn new(id: u32) -> (f: Self)
        ensures
            f.0 == id,
    {
        Self(id)
    }
}

// === ARENA KEYS ===

/// Bit 32 of a slot-map FFI value: the lowest bit of the key's version,
/// which slot-map keeps set for every key it hands out.
pub open spec fn version_bit_set(v: u64) -> bool {
    v & 0x1_0000_0000u64 != 0
}

/// Key of a pop in its settlement's arena, held in its slot-map FFI form.
#[derive(Clone, Copy, Debug, Hash, Eq, PartialEq, Structural)]
pub struct PopKey {
    ffi: u64,
}

/// Key of a facility in its settlement's arena, held in its slot-map FFI form.
#[derive(Clone, Copy, Debug, Hash, Eq, PartialEq, Structural)]
pub struct FacilityKey {
    ffi: u64,
}

impl PopKey {
    #[verifier::type_invariant]
    spec fn wf(self) -> bool {
        version_bit_set(self.ffi)
    }

    /// The key's slot-map FFI value.
    pub closed spec fn ffi(self) -> u64 {
        self.ffi
    }
}

impl FacilityKey {
    #[verifier::type_invariant]
    spec fn wf(self) -> bool {
        version_bit_set(self.ffi)
    }

    /// The key's slot-map FFI value.
    pub closed spec fn ffi(self) -> u64 {
        self.ffi
    }
}

proof fn lemma_encoding_sets_version_bit(v: u64)
    ensures
        version_bit_set(slot_key_encoding(v)),
        version_bit_set(v) ==> slot_key_encoding(v) == v,
{
    assert((v | 0x1_0000_0000u64) & 0x1_0000_0000u64 != 0) by (bit_vector);
    assert(v & 0x1_0000_0000u64 != 0 ==> (v | 0x1_0000_0000u64) == v) by (bit_vector);
}

pub fn pop_key_u64(k: PopKey) -> (r: u64)
    ensures
        r == k.ffi(),
        version_bit_set(r),
{
    proof {
        use_type_invariant(&k);
    }
    k.ffi
}

pub fn facility_key_u64(k: FacilityKey) -> (r: u64)
    ensures
        r == k.ffi(),
        version_bit_set(r),
{
    proof {
        use_type_invariant(&k);
    }
    k.ffi
}

/// Rebuilds a pop key from its FFI form through slot-map's decoding.
pub fn pop_key_from_u64(v: u64) -> (k: PopKey)
    ensures
        k.ffi() == slot_key_encoding(v),
{
    let ffi = slot_key_data_roundtrip(v);
    proof {
        lemma_encoding_sets_version_bit(v);
    }
    PopKey { ffi }
}

/// Rebuilds a facility key from its FFI form through slot-map's decoding.
pub fn facility_key_from_u64(v: u64) -> (k: FacilityKey)
    ensures
        k.ffi() == slot_key_encoding(v),
{
    let ffi = slot_key_data_roundtrip(v);
    proof {
        lemma_encoding_sets_version_bit(v);
    }
    FacilityKey { ffi }
}

/// A key read out and rebuilt is the same key, and a value that already
/// carries slot-map's version bit survives the rebuild unchanged.
pub proof fn lemma_pop_key_roundtrip(k: PopKey, v: u64)
    requires
        version_bit_set(k.ffi()),
    ensures
        slot_key_encoding(k.ffi()) == k.ffi(),
        version_bit_set(v) ==> slot_key_encoding(v) == v,
        forall|j: PopKey| j.ffi() == k.ffi() ==> j == k,
{
    lemma_encoding_sets_version_bit(k.ffi());
    lemma_encoding_sets_version_bit(v);
}

/// The same law for facility keys.
pub proof fn lemma_facility_key_roundtrip(k: FacilityKey, v: u64)
    requires
        version_bit_set(k.ffi()),
    ensures
        slot_key_encoding(k.ffi()) == k.ffi(),
        version_bit_set(v) ==> slot_key_encoding(v) == v,
        forall|j: FacilityKey| j.ffi() == k.ffi() ==> j == k,
{
    lemma_encoding_sets_version_bit(k.ffi());
    lemma_encoding_sets_version_bit(v);
}

// === AGENTS ===

#[derive(Clone, Copy, Debug, Hash, Eq, PartialEq, Structural)]
pub enum AgentId {
    Pop(PopKey),
    Merchant(MerchantId),
    Outside(u64),
}

/// 2^62 and 2^63, the tags that separate the three kinds of agent.
pub open spec fn merchant_tag() -> int {
    0x4000_0000_0000_0000int
}

pub open spec fn outside_tag() -> int {
    0x8000_0000_0000_0000int
}

impl AgentId {
    /// The stable number of an agent: pops keep the low 62 bits of their key,
    /// merchants are tagged with bit 62, outside agents with bit 63.
    pub open spec fn stable_code(self) -> int {
        match self {
            AgentId::Pop(key) => key.ffi() as int % merchant_tag(),
            AgentId::Merchant(id) => merchant_tag() + id.0 as int,
            AgentId::Outside(raw) => outside_tag() + raw as int % outside_tag(),
        }
    }

    pub fn stable_u64(self) -> (r: u64)
        ensures
            r as int == self.stable_code(),
    {
        match self {
            Self::Pop(key) => {
                let f = pop_key_u64(key);
                let r = f & 0x3FFF_FFFF_FFFF_FFFFu64;
                assert(r == f % 0x4000_0000_0000_0000u64) by (bit_vector)
                    requires r == f & 0x3FFF_FFFF_FFFF_FFFFu64;
                r
            },
            Self::Merchant(id) => {
                let m: u64 = id.0 as u64;
                let r = 0x4000_0000_0000_0000u64 | m;
                assert(r == 0x4000_0000_0000_0000u64 + m) by (bit_vector)
                    requires r == (0x4000_0000_0000_0000u64 | m), m < 0x1_0000_0000u64;
                r
            },
            Self::Outside(raw) => {
                let r = 0x8000_0000_0000_0000u64 | (raw & 0x7FFF_FFFF_FFFF_FFFFu64);
                assert(r == 0x8000_0000_0000_0000u64 + raw % 0x8000_0000_0000_0000u64) by (bit_vector)
                    requires r == (0x8000_0000_0000_0000u64 | (raw & 0x7FFF_FFFF_FFFF_FFFFu64));
                r
            },
        }
    }
}

/// Stable numbers never collide across kinds of agent: pops fall below 2^62,
/// merchants in [2^62, 2^62 + 2^32), outside agents at 2^63 and above.
pub proof fn lemma_stable_code_ranges(a: AgentId)
    ensures
        a is Pop ==> 0 <= a.stable_code() < merchant_tag(),
        a is Merchant ==> merchant_tag() <= a.stable_code() < merchant_tag() + 0x1_0000_0000int,
        a is Outside ==> outside_tag() <= a.stable_code() < 2 * outside_tag(),
{
}

/// Stable numbers identify agents: two agents with the same number are the
/// same agent, as long as pop keys stay below 2^62 and raw outside numbers
/// below 2^63 (above those the high bits are dropped).
pub proof fn lemma_stable_code_injective(a: AgentId, b: AgentId)
    requires
        a.stable_code() == b.stable_code(),
        a matches AgentId::Pop(k) ==> (k.ffi() as int) < merchant_tag(),
        b matches AgentId::Pop(k) ==> (k.ffi() as int) < merchant_tag(),
        a matches AgentId::Outside(r) ==> (r as int) < outside_tag(),
        b matches AgentId::Outside(r) ==> (r as int) < outside_tag(),
    ensures
        a == b,
{
    lemma_stable_code_ranges(a);
    lemma_stable_code_ranges(b);
    match a {
        AgentId::Pop(ka) => {
            if let AgentId::Pop(kb) = b {
                lemma_pop_key_ext(ka, kb);
            }
        },
        _ => {},
    }
}

/// A pop key is determined by its FFI value.
pub proof fn lemma_pop_key_ext(a: PopKey, b: PopKey)
    requires
        a.ffi() == b.ffi(),
    ensures
        a == b,
{
}

/// A facility key is determined by its FFI value.
pub proof fn lemma_facility_key_ext(a: FacilityKey, b: FacilityKey)
    requires
        a.ffi() == b.ffi(),
    ensures
        a == b,
{
}

#[derive(Debug, Clone, Copy, PartialEq, Eq, Hash, Structural)]
pub struct PopHandle {
    pub settlement: SettlementId,
    pub key: PopKey,
}

#[derive(Debug, Clone, Copy, PartialEq, Eq, Hash, Structural)]
pub struct FacilityHandle {
    pub settlement: SettlementId,
    pub key: FacilityKey,
}

} // verus!
