//! Settlement bookkeeping of the world state.
//!
//! Unemployed pops work the settlement's subsistence land in the order in
//! which they lost their jobs: the subsistence queue.

use vstd::prelude::*;

use crate::determinism::{
    canonical_order, lemma_canonical_order_sorted, sort_by_order_key, sorted_pop_keys,
};
use crate::pops::labor::skills::{SkillDef, SkillId};
use crate::types::ids::PopKey;

verus! {

/// `k` names a pop of the settlement that is not employed.
/// `pops` lists each pop's key and whether it is employed.
pub open spec fn is_unemployed(pops: Seq<(PopKey, bool)>, k: PopKey) -> bool {
    exists|i: int| 0 <= i < pops.len() && (#[trigger] pops[i]).0 == k && !pops[i].1
}

/// The entries of the old queue that are still unemployed, in queue order.
pub open spec fn still_waiting(queue: Seq<PopKey>, pops: Seq<(PopKey, bool)>) -> Seq<PopKey> {
    queue.filter(|k: PopKey| is_unemployed(pops, k))
}

/// Unemployed pops that are not waiting yet, in the order of `pops`.
pub open spec fn newly_unemployed(waiting: Seq<PopKey>, pops: Seq<(PopKey, bool)>) -> Seq<PopKey> {
    pops.filter(|p: (PopKey, bool)| !p.1 && !waiting.contains(p.0)).map_values(|p: (PopKey, bool)| p.0)
}

/// The queue after a labor round: those still unemployed keep their places,
/// and the newly unemployed join at the back in canonical key order.
pub open spec fn next_subsistence_queue(queue: Seq<PopKey>, pops: Seq<(PopKey, bool)>) -> Seq<PopKey> {
    let waiting = still_waiting(queue, pops);
    waiting + canonical_order(newly_unemployed(waiting, pops))
}

fn pop_is_unemployed(pops: &[(PopKey, bool)], k: PopKey) -> (r: bool)
    ensures
        r == is_unemployed(pops@, k),
{
    let n = pops.len();
    for i in 0..n
        invariant
            n == pops@.len(),
            forall|j: int| 0 <= j < i ==> !((#[trigger] pops@[j]).0 == k && !pops@[j].1),
    {
        if pops[i].0 == k && !pops[i].1 {
            return true;
        }
    }
    false
}

fn queue_contains(queue: &Vec<PopKey>, k: PopKey) -> (r: bool)
    ensures
        r == queue@.contains(k),
{
    let n = queue.len();
    for i in 0..n
        invariant
            n == queue@.len(),
            forall|j: int| 0 <= j < i ==> queue@[j] != k,
    {
        if queue[i] == k {
            return true;
        }
    }
    false
}

/// Keep the unemployed in the subsistence queue, drop those who found work,
/// and append the newly unemployed in canonical order.
pub fn update_subsistence_queue(queue: &mut Vec<PopKey>, pops: &[(PopKey, bool)])
    ensures
        final(queue)@ == next_subsistence_queue(old(queue)@, pops@),
        forall|a: int, b: int| still_waiting(old(queue)@, pops@).len() <= a < b < final(queue)@.len()
            ==> (#[trigger] final(queue)@[a]).ffi() <= (#[trigger] final(queue)@[b]).ffi(),
{
    let ghost orig = queue@;
    let ghost keep = |k: PopKey| is_unemployed(pops@, k);
    let mut kept: Vec<PopKey> = Vec::new();
    let n = queue.len();
    for i in 0..n
        invariant
            n == orig.len(),
            queue@ == orig,
            keep == (|k: PopKey| is_unemployed(pops@, k)),
            kept@ == orig.take(i as int).filter(keep),
    {
        let k = queue[i];
        proof {
            assert(orig.take(i + 1).drop_last() =~= orig.take(i as int));
            reveal_with_fuel(Seq::<_>::filter, 1);
        }
        if pop_is_unemployed(pops, k) {
            kept.push(k);
        }
    }
    assert(orig.take(n as int) =~= orig);
    let ghost waiting = kept@;
    let ghost fresh = |p: (PopKey, bool)| !p.1 && !waiting.contains(p.0);
    let ghost first = |p: (PopKey, bool)| p.0;
    let mut newcomers: Vec<PopKey> = Vec::new();
    let m = pops.len();
    for i in 0..m
        invariant
            m == pops@.len(),
            kept@ == waiting,
            fresh == (|p: (PopKey, bool)| !p.1 && !waiting.contains(p.0)),
            first == (|p: (PopKey, bool)| p.0),
            newcomers@ == pops@.take(i as int).filter(fresh).map_values(first),
    {
        let (k, employed) = pops[i];
        proof {
            assert(pops@.take(i + 1).drop_last() =~= pops@.take(i as int));
            reveal_with_fuel(Seq::<_>::filter, 1);
        }
        if !employed && !queue_contains(&kept, k) {
            proof {
                let f = pops@.take(i as int).filter(fresh);
                assert(f.push(pops@[i as int]).map_values(first) =~= f.map_values(first).push(k));
            }
            newcomers.push(k);
        }
    }
    assert(pops@.take(m as int) =~= pops@);
    let mut sorted = sorted_pop_keys(newcomers);
    kept.append(&mut sorted);
    *queue = kept;
    proof {
        lemma_newcomers_join_in_key_order(orig, pops@);
    }
}

/// Filtering keeps only elements of the original, and keeps them distinct.
proof fn lemma_filter_from_original<A>(s: Seq<A>, p: spec_fn(A) -> bool)
    ensures
        s.no_duplicates() ==> s.filter(p).no_duplicates(),
        forall|x: A| #[trigger] s.filter(p).contains(x) ==> s.contains(x) && p(x),
    decreases s.len(),
{
    reveal_with_fuel(Seq::<_>::filter, 1);
    if s.len() > 0 {
        let d = s.drop_last();
        lemma_filter_from_original(d, p);
        let f = d.filter(p);
        assert forall|x: A| #[trigger] s.filter(p).contains(x) implies s.contains(x) && p(x) by {
            if f.contains(x) {
                let i = choose|i: int| 0 <= i < d.len() && d[i] == x;
                assert(s[i] == x);
            } else {
                assert(x == s.last());
                assert(s[s.len() - 1] == x);
            }
        }
        if s.no_duplicates() && p(s.last()) {
            assert(d.no_duplicates());
            assert(!d.contains(s.last()));
            assert(!f.contains(s.last()));
            assert(s.filter(p) == f.push(s.last()));
        }
    }
}

/// Pops named at most once.
pub open spec fn keys_distinct(pops: Seq<(PopKey, bool)>) -> bool {
    forall|i: int, j: int| 0 <= i < j < pops.len() ==> (#[trigger] pops[i]).0 != (#[trigger] pops[j]).0
}

/// The queue stays a faithful waiting list: it holds exactly the unemployed
/// pops, each once, and those already waiting keep their relative order
/// ahead of every newcomer.
pub proof fn lemma_subsistence_queue_invariant(queue: Seq<PopKey>, pops: Seq<(PopKey, bool)>)
    requires
        queue.no_duplicates(),
        keys_distinct(pops),
    ensures
        next_subsistence_queue(queue, pops).no_duplicates(),
        forall|k: PopKey| next_subsistence_queue(queue, pops).contains(k) <==> is_unemployed(pops, k),
        next_subsistence_queue(queue, pops).take(still_waiting(queue, pops).len() as int)
            == queue.filter(|k: PopKey| is_unemployed(pops, k)),
{
    broadcast use vstd::seq_lib::group_to_multiset_ensures;
    let waiting = still_waiting(queue, pops);
    let fresh = |p: (PopKey, bool)| !p.1 && !waiting.contains(p.0);
    let first = |p: (PopKey, bool)| p.0;
    let filtered = pops.filter(fresh);
    let newc = newly_unemployed(waiting, pops);
    let sorted = canonical_order(newc);
    let next = next_subsistence_queue(queue, pops);
    let keep = |k: PopKey| is_unemployed(pops, k);
    broadcast use vstd::seq_lib::group_filter_ensures;
    lemma_canonical_order_sorted(newc);
    // waiting has no duplicates and holds only unemployed pops
    lemma_filter_from_original(queue, keep);
    // newcomers have no duplicates
    assert(pops.no_duplicates()) by {
        assert forall|i: int, j: int| 0 <= i < pops.len() && 0 <= j < pops.len() && i != j implies pops[i] != pops[j] by {
            if i < j {
                assert(pops[i].0 != pops[j].0);
            } else {
                assert(pops[j].0 != pops[i].0);
            }
        }
    }
    lemma_filter_from_original(pops, fresh);
    assert forall|a: int, b: int| 0 <= a < newc.len() && 0 <= b < newc.len() && a != b implies newc[a] != newc[b] by {
        assert(filtered.contains(filtered[a]));
        assert(filtered.contains(filtered[b]));
        let ia = choose|ia: int| 0 <= ia < pops.len() && pops[ia] == filtered[a];
        let ib = choose|ib: int| 0 <= ib < pops.len() && pops[ib] == filtered[b];
        assert(filtered[a] != filtered[b]);
        if ia < ib {
            assert(pops[ia].0 != pops[ib].0);
        } else if ib < ia {
            assert(pops[ib].0 != pops[ia].0);
        }
    }
    newc.lemma_multiset_has_no_duplicates();
    assert forall|x: PopKey| sorted.to_multiset().contains(x) implies sorted.to_multiset().count(x) == 1 by {
        assert(newc.to_multiset().contains(x));
    }
    sorted.lemma_multiset_has_no_duplicates_conv();
    assert forall|x: PopKey| #[trigger] sorted.contains(x) <==> newc.contains(x) by {
        assert(sorted.contains(x) <==> sorted.to_multiset().contains(x));
        assert(newc.contains(x) <==> newc.to_multiset().contains(x));
    }
    assert forall|x: PopKey| #[trigger] newc.contains(x) <==> (is_unemployed(pops, x) && !waiting.contains(x)) by {
        if newc.contains(x) {
            let a = choose|a: int| 0 <= a < newc.len() && newc[a] == x;
            assert(filtered.contains(filtered[a]));
            let ia = choose|ia: int| 0 <= ia < pops.len() && pops[ia] == filtered[a];
            assert(pops[ia].0 == x);
            assert(fresh(filtered[a]));
        }
        if is_unemployed(pops, x) && !waiting.contains(x) {
            let i = choose|i: int| 0 <= i < pops.len() && (#[trigger] pops[i]).0 == x && !pops[i].1;
            assert(fresh(pops[i]));
            assert(filtered.contains(pops[i]));
            let a = choose|a: int| 0 <= a < filtered.len() && filtered[a] == pops[i];
            assert(newc[a] == x);
        }
    }
    assert forall|x: PopKey| #[trigger] waiting.contains(x) implies is_unemployed(pops, x) by {
        if waiting.contains(x) {
            assert(queue.filter(keep).contains(x));
        }
    }
    assert forall|x: PopKey| #[trigger] next.contains(x) <==> is_unemployed(pops, x) by {
        if next.contains(x) {
            let a = choose|a: int| 0 <= a < next.len() && next[a] == x;
            if a < waiting.len() {
                assert(waiting.contains(x));
            } else {
                assert(sorted[a - waiting.len()] == x);
                assert(sorted.contains(x));
            }
        }
        if is_unemployed(pops, x) {
            if waiting.contains(x) {
                let a = choose|a: int| 0 <= a < waiting.len() && waiting[a] == x;
                assert(next[a] == x);
            } else {
                assert(sorted.contains(x));
                let a = choose|a: int| 0 <= a < sorted.len() && sorted[a] == x;
                assert(next[waiting.len() + a] == x);
            }
        }
    }
    assert forall|a: int, b: int| 0 <= a < next.len() && 0 <= b < next.len() && a != b implies next[a] != next[b] by {
        if a < waiting.len() && b >= waiting.len() {
            assert(sorted.contains(next[b]));
            assert(waiting.contains(next[a]));
        } else if b < waiting.len() && a >= waiting.len() {
            assert(sorted.contains(next[a]));
            assert(waiting.contains(next[b]));
        }
    }
    assert(next.take(waiting.len() as int) =~= waiting);
}

/// After a labor round the pops that were waiting and are still unemployed
/// head the queue in their old order; behind them come pops that are
/// unemployed and were not in the queue, ascending by their key's slot-map
/// FFI value.
pub proof fn lemma_newcomers_join_in_key_order(queue: Seq<PopKey>, pops: Seq<(PopKey, bool)>)
    ensures
        ({
            let next = next_subsistence_queue(queue, pops);
            let w = still_waiting(queue, pops).len() as int;
            &&& w <= next.len()
            &&& next.take(w) == queue.filter(|k: PopKey| is_unemployed(pops, k))
            &&& forall|a: int, b: int| w <= a < b < next.len() ==> (#[trigger] next[a]).ffi() <= (#[trigger] next[b]).ffi()
            &&& forall|a: int| w <= a < next.len() ==> is_unemployed(pops, #[trigger] next[a]) && !queue.contains(next[a])
        }),
{
    broadcast use vstd::seq_lib::group_to_multiset_ensures;
    broadcast use vstd::seq_lib::group_filter_ensures;
    let waiting = still_waiting(queue, pops);
    let w = waiting.len() as int;
    let fresh = |p: (PopKey, bool)| !p.1 && !waiting.contains(p.0);
    let first = |p: (PopKey, bool)| p.0;
    let filtered = pops.filter(fresh);
    let newc = newly_unemployed(waiting, pops);
    let sorted = canonical_order(newc);
    let next = next_subsistence_queue(queue, pops);
    let keep = |k: PopKey| is_unemployed(pops, k);
    lemma_canonical_order_sorted(newc);
    lemma_filter_from_original(pops, fresh);
    assert(next.take(w) =~= waiting);
    assert forall|a: int, b: int| w <= a < b < next.len() implies (#[trigger] next[a]).ffi() <= (#[trigger] next[b]).ffi() by {
        assert(next[a] == sorted[a - w]);
        assert(next[b] == sorted[b - w]);
    }
    assert forall|a: int| w <= a < next.len() implies is_unemployed(pops, #[trigger] next[a]) && !queue.contains(next[a]) by {
        let x = next[a];
        assert(x == sorted[a - w]);
        assert(sorted.to_multiset().contains(x));
        assert(newc.to_multiset().contains(x));
        assert(newc.contains(x));
        let c = choose|c: int| 0 <= c < newc.len() && newc[c] == x;
        assert(newc[c] == filtered[c].0);
        assert(filtered.contains(filtered[c]));
        assert(fresh(filtered[c]));
        let ia = choose|ia: int| 0 <= ia < pops.len() && pops[ia] == filtered[c];
        assert(pops[ia].0 == x && !pops[ia].1);
        assert(is_unemployed(pops, x));
        if queue.contains(x) {
            let q = choose|q: int| 0 <= q < queue.len() && queue[q] == x;
            assert(keep(queue[q]));
            assert(queue.filter(keep).contains(x));
            assert(waiting.contains(x));
        }
    }
}

/// Every pop but `key`.
pub open spec fn other_than(key: PopKey) -> spec_fn(PopKey) -> bool {
    |k: PopKey| k != key
}

/// The queue without `key`, the rest in queue order.
pub open spec fn queue_without(queue: Seq<PopKey>, key: PopKey) -> Seq<PopKey> {
    queue.filter(other_than(key))
}

/// Take a pop that has left the settlement (it died) out of the subsistence
/// queue; everyone else keeps their place.
pub fn remove_from_subsistence_queue(queue: &mut Vec<PopKey>, key: PopKey)
    ensures
        final(queue)@ == queue_without(old(queue)@, key),
{
    let ghost orig = queue@;
    let ghost keep = other_than(key);
    let mut kept: Vec<PopKey> = Vec::new();
    let n = queue.len();
    for i in 0..n
        invariant
            n == orig.len(),
            queue@ == orig,
            keep == other_than(key),
            kept@ == orig.take(i as int).filter(keep),
    {
        let k = queue[i];
        proof {
            assert(orig.take(i + 1).drop_last() =~= orig.take(i as int));
            reveal_with_fuel(Seq::<_>::filter, 1);
        }
        if k != key {
            kept.push(k);
        }
    }
    assert(orig.take(n as int) =~= orig);
    *queue = kept;
}

/// Taking a departed pop out keeps the queue a faithful waiting list: it
/// stays free of repeats, holds everyone else it held, in the same order,
/// and no longer holds the departed pop.
pub proof fn lemma_removal_keeps_queue(queue: Seq<PopKey>, key: PopKey)
    requires
        queue.no_duplicates(),
    ensures
        queue_without(queue, key).no_duplicates(),
        forall|k: PopKey| #[trigger] queue_without(queue, key).contains(k) <==> (queue.contains(k) && k != key),
{
    let keep = other_than(key);
    lemma_filter_from_original(queue, keep);
    assert forall|k: PopKey| #[trigger] queue_without(queue, key).contains(k) <==> (queue.contains(k) && k != key) by {
        if queue.contains(k) && k != key {
            broadcast use vstd::seq_lib::group_filter_ensures;
            let i = choose|i: int| 0 <= i < queue.len() && queue[i] == k;
            assert(keep(queue[i]));
        }
    }
}

/// `x` is among the first `n` entries of `s`.
pub open spec fn occurs_within(s: Seq<SkillId>, n: int, x: SkillId) -> bool {
    exists|a: int| 0 <= a < n && #[trigger] s[a] == x
}

/// Some definition in `defs` is for skill `x`.
pub open spec fn defines(defs: Seq<SkillDef>, x: SkillId) -> bool {
    exists|a: int| 0 <= a < defs.len() && (#[trigger] defs[a]).id == x
}

/// The skills traded in a settlement's labor market: each skill id once,
/// ascending, as a definition with an empty name and no parent.
pub fn gather_labor_skills(skill_ids: Vec<SkillId>) -> (skills: Vec<SkillDef>)
    ensures
        forall|i: int, j: int| 0 <= i < j < skills@.len() ==> (#[trigger] skills@[i]).id.0 < (#[trigger] skills@[j]).id.0,
        forall|s: SkillId| #[trigger] skill_ids@.contains(s) <==> defines(skills@, s),
        forall|s: SkillId| #[trigger] defines(skills@, s) ==> skill_ids@.contains(s),
        forall|i: int| 0 <= i < skills@.len() ==> (#[trigger] skills@[i]).name@.len() == 0 && skills@[i].parent is None,
{
    let ghost input = skill_ids@;
    let ordered = sort_by_order_key(skill_ids);
    proof {
        lemma_canonical_order_sorted(input);
        broadcast use vstd::seq_lib::group_to_multiset_ensures;
        assert forall|s: SkillId| #[trigger] ordered@.contains(s) <==> input.contains(s) by {
            assert(ordered@.contains(s) <==> ordered@.to_multiset().contains(s));
            assert(input.contains(s) <==> input.to_multiset().contains(s));
        }
    }
    let mut skills: Vec<SkillDef> = Vec::new();
    let n = ordered.len();
    for i in 0..n
        invariant
            n == ordered@.len(),
            forall|a: int, b: int| 0 <= a < b < ordered@.len() ==> (#[trigger] ordered@[a]).0 <= (#[trigger] ordered@[b]).0,
            forall|a: int, b: int| 0 <= a < b < skills@.len() ==> (#[trigger] skills@[a]).id.0 < (#[trigger] skills@[b]).id.0,
            forall|a: int| 0 <= a < i ==> defines(skills@, #[trigger] ordered@[a]),
            forall|s: SkillId| #[trigger] defines(skills@, s) ==> occurs_within(ordered@, i as int, s),
            forall|a: int| 0 <= a < skills@.len() ==> (#[trigger] skills@[a]).name@.len() == 0 && skills@[a].parent is None,
            skills@.len() > 0 ==> i > 0 && skills@.last().id == ordered@[i - 1],
            skills@.len() == 0 ==> i == 0,
    {
        let id = ordered[i];
        let fresh = skills.len() == 0 || skills[skills.len() - 1].id.0 != id.0;
        let ghost before = skills@;
        if fresh {
            skills.push(SkillDef { id, name: String::new(), parent: None });
        }
        proof {
            assert forall|a: int| 0 <= a < i + 1 implies defines(skills@, #[trigger] ordered@[a]) by {
                let s = ordered@[a];
                if a < i {
                    assert(defines(before, s));
                    let b = choose|b: int| 0 <= b < before.len() && (#[trigger] before[b]).id == s;
                    assert(skills@[b] == before[b]);
                } else {
                    assert(skills@[skills@.len() - 1].id == s);
                }
            }
            assert forall|s: SkillId| #[trigger] defines(skills@, s) implies occurs_within(ordered@, i + 1, s) by {
                let a = choose|a: int| 0 <= a < skills@.len() && (#[trigger] skills@[a]).id == s;
                if a < before.len() {
                    assert(skills@[a] == before[a]);
                    assert(defines(before, s));
                    assert(occurs_within(ordered@, i as int, s));
                    let b = choose|b: int| 0 <= b < i && #[trigger] ordered@[b] == s;
                    assert(ordered@[b] == s);
                } else {
                    assert(ordered@[i as int] == s);
                }
            }
        }
    }
    proof {
        assert forall|s: SkillId| #[trigger] skill_ids@.contains(s) implies defines(skills@, s) by {
            assert(ordered@.contains(s));
            let a = choose|a: int| 0 <= a < ordered@.len() && ordered@[a] == s;
            assert(defines(skills@, ordered@[a]));
        }
        assert forall|s: SkillId| #[trigger] defines(skills@, s) implies skill_ids@.contains(s) by {
            assert(occurs_within(ordered@, n as int, s));
            let a = choose|a: int| 0 <= a < n && #[trigger] ordered@[a] == s;
            assert(ordered@.contains(ordered@[a]));
        }
    }
    skills
}

} // verus!
