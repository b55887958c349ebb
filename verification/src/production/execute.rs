//! Recipe allocations of a facility.

use std::collections::HashMap;

use vstd::prelude::*;

use crate::types::ids::FacilityId;

verus! {

/// Sum of the counts of the first `n` pairs of a listing of (recipe, count) pairs.
pub open spec fn sum_counts(s: Seq<(u32, u32)>, n: int) -> int
    decreases n,
{
    if n <= 0 {
        0
    } else {
        sum_counts(s, n - 1) + s[n - 1].1 as int
    }
}

/// Sum of the counts of a listing.
pub open spec fn listed_total(s: Seq<(u32, u32)>) -> int {
    sum_counts(s, s.len() as int)
}

/// `s` lists each (recipe, count) pair of `m` exactly once.
pub open spec fn lists(s: Seq<(u32, u32)>, m: Map<u32, u32>) -> bool {
    s.no_duplicates() && s.to_set() == m.kv_pairs()
}

/// Total number of recipe instances in an allocation: the sum of its counts.
pub open spec fn runs_total(m: Map<u32, u32>) -> int {
    listed_total(choose|s: Seq<(u32, u32)>| lists(s, m))
}

proof fn lemma_sum_counts_monotone(s: Seq<(u32, u32)>, i: int, j: int)
    requires
        0 <= i <= j <= s.len(),
    ensures
        0 <= sum_counts(s, i) <= sum_counts(s, j),
    decreases j,
{
    if j > 0 {
        if i < j {
            lemma_sum_counts_monotone(s, i, j - 1);
        } else {
            lemma_sum_counts_monotone(s, i - 1, j - 1);
        }
    }
}

proof fn lemma_sum_counts_agree(s: Seq<(u32, u32)>, t: Seq<(u32, u32)>, n: int)
    requires
        0 <= n <= s.len(),
        n <= t.len(),
        forall|k: int| 0 <= k < n ==> s[k] == t[k],
    ensures
        sum_counts(s, n) == sum_counts(t, n),
    decreases n,
{
    if n > 0 {
        lemma_sum_counts_agree(s, t, n - 1);
    }
}

proof fn lemma_listed_total_is_fold(s: Seq<(u32, u32)>)
    ensures
        listed_total(s) == s.fold_left(0int, |acc: int, p: (u32, u32)| acc + p.1 as int),
    decreases s.len(),
{
    if s.len() > 0 {
        lemma_listed_total_is_fold(s.drop_last());
        lemma_sum_counts_agree(s, s.drop_last(), s.len() - 1);
    }
}

/// Any two listings of the same allocation give the same total.
pub proof fn lemma_listed_total_unique(s1: Seq<(u32, u32)>, s2: Seq<(u32, u32)>, m: Map<u32, u32>)
    requires
        lists(s1, m),
        lists(s2, m),
    ensures
        listed_total(s1) == listed_total(s2),
{
    broadcast use vstd::seq_lib::group_to_multiset_ensures;
    s1.lemma_multiset_has_no_duplicates();
    s2.lemma_multiset_has_no_duplicates();
    assert forall|x: (u32, u32)| s1.to_multiset().count(x) == s2.to_multiset().count(x) by {
        assert(s1.to_set().contains(x) == s1.contains(x));
        assert(s2.to_set().contains(x) == s2.contains(x));
    }
    assert(s1.to_multiset() =~= s2.to_multiset());
    let f = |acc: int, p: (u32, u32)| acc + p.1 as int;
    assert(vstd::seq_lib::commutative_foldl(f));
    vstd::seq_lib::lemma_fold_left_permutation(s1, s2, f, 0int);
    lemma_listed_total_is_fold(s1);
    lemma_listed_total_is_fold(s2);
}

/// Summing any listing of an allocation gives its total, whatever the order.
pub proof fn lemma_lists_total(s: Seq<(u32, u32)>, m: Map<u32, u32>)
    requires
        lists(s, m),
    ensures
        listed_total(s) == runs_total(m),
{
    let c = choose|c: Seq<(u32, u32)>| lists(c, m);
    lemma_listed_total_unique(s, c, m);
}

/// Result of allocating recipes to a facility
#[derive(Debug, Clone)]
pub struct RecipeAllocation {
    pub facility_id: FacilityId,
    /// Recipe number -> number of instances to run
    pub runs: HashMap<u32, u32>,
}

impl RecipeAllocation {
    pub fn new(facility_id: FacilityId) -> (a: Self)
        ensures
            a.facility_id == facility_id,
            a.runs@ == Map::<u32, u32>::empty(),
    {
        Self { facility_id, runs: HashMap::new() }
    }

    pub fn total_runs(&self) -> (t: u32)
        requires
            runs_total(self.runs@) <= u32::MAX,
        ensures
            t == runs_total(self.runs@),
    {
        broadcast use vstd::std_specs::hash::group_hash_axioms;
        let ghost m = self.runs@;
        assert forall|s: Seq<(u32, u32)>| #[trigger] lists(s, m) implies listed_total(s) == runs_total(m) by {
            lemma_lists_total(s, m);
        }
        let mut total: u32 = 0;
        for (_recipe, count) in it: self.runs.iter()
            invariant
                m == self.runs@,
                lists(it.seq().unref(), m),
                runs_total(m) <= u32::MAX,
                forall|s: Seq<(u32, u32)>| #[trigger] lists(s, m) ==> listed_total(s) == runs_total(m),
                total as int == sum_counts(it.seq().unref(), it.index() as int),
        {
            proof {
                let s = it.seq().unref();
                lemma_sum_counts_monotone(s, it.index() + 1, s.len() as int);
            }
            total = total + *count;
        }
        total
    }
}

} // verus!
