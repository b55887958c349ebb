//! Deterministic orderings of identifiers.
//!
//! Hash maps and arenas hand out their keys in an order that depends on
//! hashing and allocation history; every phase of a tick walks identifiers in
//! the canonical order produced here instead.

use vstd::prelude::*;
use vstd::relations::{sorted_by, total_ordering};

use crate::pops::labor::skills::SkillId;
use crate::types::ids::{
    facility_key_u64, pop_key_u64, FacilityKey, MerchantId, PopKey, SettlementId,
};

verus! {

/// An identifier with a canonical numeric order key that determines it.
pub trait OrderKey: Sized + Copy {
    spec fn order_key(self) -> int;

    fn key_u64(&self) -> (k: u64)
        ensures
            k as int == self.order_key(),
    ;

    proof fn lemma_order_key_determines(a: Self, b: Self)
        requires
            a.order_key() == b.order_key(),
        ensures
            a == b,
    ;
}

/// Ascending order of order keys.
pub open spec fn key_leq<T: OrderKey>() -> spec_fn(T, T) -> bool {
    |a: T, b: T| a.order_key() <= b.order_key()
}

impl OrderKey for SettlementId {
    open spec fn order_key(self) -> int {
        self.0 as int
    }

    fn key_u64(&self) -> (k: u64) {
        self.0 as u64
    }

    proof fn lemma_order_key_determines(a: Self, b: Self) {
    }
}

impl OrderKey for MerchantId {
    open spec fn order_key(self) -> int {
        self.0 as int
    }

    fn key_u64(&self) -> (k: u64) {
        self.0 as u64
    }

    proof fn lemma_order_key_determines(a: Self, b: Self) {
    }
}

impl OrderKey for SkillId {
    open spec fn order_key(self) -> int {
        self.0 as int
    }

    fn key_u64(&self) -> (k: u64) {
        self.0 as u64
    }

    proof fn lemma_order_key_determines(a: Self, b: Self) {
    }
}

impl OrderKey for PopKey {
    open spec fn order_key(self) -> int {
        self.ffi() as int
    }

    fn key_u64(&self) -> (k: u64) {
        pop_key_u64(*self)
    }

    proof fn lemma_order_key_determines(a: Self, b: Self) {
        crate::types::ids::lemma_pop_key_ext(a, b);
    }
}

impl OrderKey for FacilityKey {
    open spec fn order_key(self) -> int {
        self.ffi() as int
    }

    fn key_u64(&self) -> (k: u64) {
        facility_key_u64(*self)
    }

    proof fn lemma_order_key_determines(a: Self, b: Self) {
        crate::types::ids::lemma_facility_key_ext(a, b);
    }
}

pub proof fn lemma_key_leq_total<T: OrderKey>()
    ensures
        total_ordering(key_leq::<T>()),
{
    assert forall|a: T, b: T| #[trigger] key_leq::<T>()(a, b) && #[trigger] key_leq::<T>()(b, a) implies a == b by {
        T::lemma_order_key_determines(a, b);
    }
}

/// The canonical order of a collection of identifiers.
pub open spec fn canonical_order<T: OrderKey>(s: Seq<T>) -> Seq<T> {
    s.sort_by(key_leq::<T>())
}

/// Ascending by order key; identifiers with equal keys are equal, so the
/// result does not depend on the order in which `items` came.
pub(crate) fn sort_by_order_key<T: OrderKey>(items: Vec<T>) -> (r: Vec<T>)
    ensures
        r@ == canonical_order(items@),
{
    let mut r: Vec<T> = Vec::new();
    let n = items.len();
    let ghost leq = key_leq::<T>();
    assert(items@.take(0) =~= r@);
    for i in 0..n
        invariant
            n == items@.len(),
            leq == key_leq::<T>(),
            sorted_by(r@, leq),
            r@.to_multiset() == items@.take(i as int).to_multiset(),
    {
        let x = items[i];
        let kx = x.key_u64();
        let mut j: usize = 0;
        while j < r.len() && r[j].key_u64() <= kx
            invariant
                j <= r@.len(),
                forall|m: int| 0 <= m < j ==> (#[trigger] r@[m]).order_key() <= x.order_key(),
                kx as int == x.order_key(),
            decreases r@.len() - j,
        {
            j += 1;
        }
        let ghost old_r = r@;
        r.insert(j, x);
        proof {
            broadcast use vstd::seq_lib::to_multiset_insert;
            broadcast use vstd::seq_lib::to_multiset_build;
            assert(items@.take(i + 1) =~= items@.take(i as int).push(x));
            old_r.insert_ensures(j as int, x);
            assert forall|a: int, b: int| 0 <= a < b < r@.len() implies #[trigger] leq(r@[a], r@[b]) by {
                if b < j {
                    assert(leq(old_r[a], old_r[b]));
                } else if b == j {
                } else if a < j {
                    assert(leq(old_r[a], old_r[b - 1]));
                } else if a == j {
                    assert(old_r[j as int].order_key() > x.order_key() || j as int == old_r.len());
                    assert(leq(old_r[j as int], old_r[b - 1]) || b - 1 == j);
                } else {
                    assert(leq(old_r[a - 1], old_r[b - 1]));
                }
            }
        }
    }
    proof {
        assert(items@.take(n as int) =~= items@);
        lemma_key_leq_total::<T>();
        items@.lemma_sort_by_ensures(leq);
        vstd::seq_lib::lemma_sorted_unique(r@, items@.sort_by(leq), leq);
    }
    r
}

pub fn sorted_settlement_ids(ids: Vec<SettlementId>) -> (r: Vec<SettlementId>)
    ensures
        r@ == canonical_order(ids@),
        r@.to_multiset() == ids@.to_multiset(),
        forall|i: int, j: int| 0 <= i < j < r@.len() ==> (#[trigger] r@[i]).0 <= (#[trigger] r@[j]).0,
{
    let r = sort_by_order_key(ids);
    proof {
        lemma_canonical_order_sorted(ids@);
    }
    r
}

pub fn sorted_merchant_ids(ids: Vec<MerchantId>) -> (r: Vec<MerchantId>)
    ensures
        r@ == canonical_order(ids@),
        r@.to_multiset() == ids@.to_multiset(),
        forall|i: int, j: int| 0 <= i < j < r@.len() ==> (#[trigger] r@[i]).0 <= (#[trigger] r@[j]).0,
{
    let r = sort_by_order_key(ids);
    proof {
        lemma_canonical_order_sorted(ids@);
    }
    r
}

pub fn sorted_pop_keys(keys: Vec<PopKey>) -> (r: Vec<PopKey>)
    ensures
        r@ == canonical_order(keys@),
        r@.to_multiset() == keys@.to_multiset(),
        forall|i: int, j: int| 0 <= i < j < r@.len() ==> (#[trigger] r@[i]).ffi() <= (#[trigger] r@[j]).ffi(),
{
    let r = sort_by_order_key(keys);
    proof {
        lemma_canonical_order_sorted(keys@);
    }
    r
}

pub fn sorted_facility_keys(keys: Vec<FacilityKey>) -> (r: Vec<FacilityKey>)
    ensures
        r@ == canonical_order(keys@),
        r@.to_multiset() == keys@.to_multiset(),
        forall|i: int, j: int| 0 <= i < j < r@.len() ==> (#[trigger] r@[i]).ffi() <= (#[trigger] r@[j]).ffi(),
{
    let r = sort_by_order_key(keys);
    proof {
        lemma_canonical_order_sorted(keys@);
    }
    r
}

/// The canonical order holds the same identifiers as its input, ascending.
pub proof fn lemma_canonical_order_sorted<T: OrderKey>(s: Seq<T>)
    ensures
        canonical_order(s).to_multiset() == s.to_multiset(),
        forall|i: int, j: int|
            0 <= i < j < canonical_order(s).len() ==> (#[trigger] canonical_order(s)[i]).order_key()
                <= (#[trigger] canonical_order(s)[j]).order_key(),
{
    lemma_key_leq_total::<T>();
    s.lemma_sort_by_ensures(key_leq::<T>());
    assert forall|i: int, j: int| 0 <= i < j < canonical_order(s).len() implies
        (#[trigger] canonical_order(s)[i]).order_key() <= (#[trigger] canonical_order(s)[j]).order_key() by {
        assert(key_leq::<T>()(canonical_order(s)[i], canonical_order(s)[j]));
    }
}

/// Settlement and merchant ids come out ascending by their number, and pop
/// and facility keys ascending by their slot-map FFI value, holding the same
/// identifiers as the input.
pub proof fn lemma_canonical_orders_ascend(
    ss: Seq<SettlementId>,
    ms: Seq<MerchantId>,
    ps: Seq<PopKey>,
    fs: Seq<FacilityKey>,
)
    ensures
        canonical_order(ss).to_multiset() == ss.to_multiset(),
        forall|i: int, j: int| 0 <= i < j < canonical_order(ss).len()
            ==> (#[trigger] canonical_order(ss)[i]).0 <= (#[trigger] canonical_order(ss)[j]).0,
        canonical_order(ms).to_multiset() == ms.to_multiset(),
        forall|i: int, j: int| 0 <= i < j < canonical_order(ms).len()
            ==> (#[trigger] canonical_order(ms)[i]).0 <= (#[trigger] canonical_order(ms)[j]).0,
        canonical_order(ps).to_multiset() == ps.to_multiset(),
        forall|i: int, j: int| 0 <= i < j < canonical_order(ps).len()
            ==> (#[trigger] canonical_order(ps)[i]).ffi() <= (#[trigger] canonical_order(ps)[j]).ffi(),
        canonical_order(fs).to_multiset() == fs.to_multiset(),
        forall|i: int, j: int| 0 <= i < j < canonical_order(fs).len()
            ==> (#[trigger] canonical_order(fs)[i]).ffi() <= (#[trigger] canonical_order(fs)[j]).ffi(),
{
    lemma_canonical_order_sorted(ss);
    lemma_canonical_order_sorted(ms);
    lemma_canonical_order_sorted(ps);
    lemma_canonical_order_sorted(fs);
}

/// Determinism: collections that hold the same identifiers, in whatever
/// order they were gathered, come out in the same canonical order.
pub proof fn lemma_canonical_order_independent_of_input_order<T: OrderKey>(a: Seq<T>, b: Seq<T>)
    requires
        a.to_multiset() == b.to_multiset(),
    ensures
        canonical_order(a) == canonical_order(b),
{
    lemma_key_leq_total::<T>();
    a.lemma_sort_by_ensures(key_leq::<T>());
    b.lemma_sort_by_ensures(key_leq::<T>());
    vstd::seq_lib::lemma_sorted_unique(canonical_order(a), canonical_order(b), key_leq::<T>());
}

/// Sorting an already canonical collection leaves it unchanged.
pub proof fn lemma_canonical_order_idempotent<T: OrderKey>(s: Seq<T>)
    ensures
        canonical_order(canonical_order(s)) == canonical_order(s),
{
    lemma_key_leq_total::<T>();
    s.lemma_sort_by_ensures(key_leq::<T>());
    canonical_order(s).lemma_sort_by_ensures(key_leq::<T>());
    vstd::seq_lib::lemma_sorted_unique(
        canonical_order(canonical_order(s)),
        canonical_order(s),
        key_leq::<T>(),
    );
}

} // verus!
