//! Skills and their inheritance chains.

use std::collections::HashMap;

use vstd::prelude::*;

verus! {

// === SKILL TYPES ===

#[derive(Clone, Copy, Debug, Hash, Eq, PartialEq, Structural)]
pub struct SkillId(pub u32);

pub struct SkillDef {
    pub id: SkillId,
    pub name: String,
    pub parent: Option<SkillId>,  // None for root (e.g., Laborer)
}

/// The definition that a skill id names in the catalogue, if any.
pub open spec fn lookup(all_skills: Map<u32, SkillDef>, id: Option<SkillId>) -> Option<SkillDef> {
    match id {
        Some(s) => if all_skills.contains_key(s.0) {
            Some(all_skills[s.0])
        } else {
            None
        },
        None => None,
    }
}

/// Whether walking up from `id` through parents leaves the catalogue within
/// `fuel` steps (reaching a root, or a parent that the catalogue lacks).
pub open spec fn ends_within(all_skills: Map<u32, SkillDef>, id: Option<SkillId>, fuel: nat) -> bool
    decreases fuel,
{
    match lookup(all_skills, id) {
        None => true,
        Some(def) => fuel > 0 && ends_within(all_skills, def.parent, (fuel - 1) as nat),
    }
}

/// The definitions met walking up from `id`, at most `fuel` of them.
pub open spec fn ancestry(all_skills: Map<u32, SkillDef>, id: Option<SkillId>, fuel: nat) -> Seq<SkillDef>
    decreases fuel,
{
    if fuel == 0 {
        Seq::empty()
    } else {
        match lookup(all_skills, id) {
            None => Seq::empty(),
            Some(def) => seq![def] + ancestry(all_skills, def.parent, (fuel - 1) as nat),
        }
    }
}

/// The chain from `id` up to its root has finite length: no skill is its own ancestor.
pub open spec fn chain_is_finite(all_skills: Map<u32, SkillDef>, id: SkillId) -> bool {
    exists|fuel: nat| ends_within(all_skills, Some(id), fuel)
}

/// The full chain of definitions from `id` up to its root.
pub open spec fn skill_ancestry(all_skills: Map<u32, SkillDef>, id: SkillId) -> Seq<SkillDef> {
    ancestry(all_skills, Some(id), choose|fuel: nat| ends_within(all_skills, Some(id), fuel))
}

/// More fuel than the walk needs changes nothing.
pub proof fn lemma_ancestry_stable(all_skills: Map<u32, SkillDef>, id: Option<SkillId>, f: nat, g: nat)
    requires
        ends_within(all_skills, id, f),
        f <= g,
    ensures
        ends_within(all_skills, id, g),
        ancestry(all_skills, id, f) == ancestry(all_skills, id, g),
    decreases f,
{
    match lookup(all_skills, id) {
        None => {},
        Some(def) => {
            lemma_ancestry_stable(all_skills, def.parent, (f - 1) as nat, (g - 1) as nat);
        },
    }
}

/// A skill's chain starts with its own definition, each later entry is the
/// definition of the previous entry's parent, and the chain stops at the
/// first skill whose parent is absent or missing from the catalogue.
pub proof fn lemma_skill_chain_follows_parents(all_skills: Map<u32, SkillDef>, id: SkillId)
    requires
        chain_is_finite(all_skills, id),
    ensures
        ({
            let c = skill_ancestry(all_skills, id);
            &&& all_skills.contains_key(id.0) ==> c.len() > 0 && c[0] == all_skills[id.0]
            &&& !all_skills.contains_key(id.0) ==> c.len() == 0
            &&& forall|i: int| 0 <= i < c.len() - 1 ==> lookup(all_skills, (#[trigger] c[i]).parent) == Some(c[i + 1])
            &&& c.len() > 0 ==> lookup(all_skills, c.last().parent) is None
        }),
{
    let fuel = choose|fuel: nat| ends_within(all_skills, Some(id), fuel);
    lemma_ancestry_links(all_skills, Some(id), fuel);
}

proof fn lemma_ancestry_links(all_skills: Map<u32, SkillDef>, id: Option<SkillId>, fuel: nat)
    requires
        ends_within(all_skills, id, fuel),
    ensures
        ({
            let c = ancestry(all_skills, id, fuel);
            &&& lookup(all_skills, id) matches Some(d) ==> c.len() > 0 && c[0] == d
            &&& lookup(all_skills, id) is None ==> c.len() == 0
            &&& forall|i: int| 0 <= i < c.len() - 1 ==> lookup(all_skills, (#[trigger] c[i]).parent) == Some(c[i + 1])
            &&& c.len() > 0 ==> lookup(all_skills, c.last().parent) is None
        }),
    decreases fuel,
{
    match lookup(all_skills, id) {
        None => {},
        Some(d) => {
            let f = (fuel - 1) as nat;
            lemma_ancestry_links(all_skills, d.parent, f);
            let rest = ancestry(all_skills, d.parent, f);
            let c = ancestry(all_skills, id, fuel);
            assert(c == seq![d] + rest);
            assert forall|i: int| 0 <= i < c.len() - 1 implies lookup(all_skills, (#[trigger] c[i]).parent) == Some(c[i + 1]) by {
                if i == 0 {
                    if rest.len() == 0 {
                        assert(c.len() == 1);
                    } else {
                        assert(c[1] == rest[0]);
                    }
                } else {
                    assert(c[i] == rest[i - 1]);
                    assert(c[i + 1] == rest[i]);
                }
            }
            if rest.len() > 0 {
                assert(c.last() == rest.last());
            }
        },
    }
}

impl SkillDef {
    /// Returns all ancestor skills (including self), walking up from this
    /// skill's id through the catalogue until a root or a missing parent.
    pub fn skill_chain<'a>(&self, all_skills: &'a HashMap<u32, SkillDef>) -> (chain: Vec<&'a SkillDef>)
        requires
            chain_is_finite(all_skills@, self.id),
        ensures
            chain@.len() == skill_ancestry(all_skills@, self.id).len(),
            forall|i: int| 0 <= i < chain@.len() ==> *chain@[i] == skill_ancestry(all_skills@, self.id)[i],
    {
        broadcast use vstd::std_specs::hash::group_hash_axioms;
        let ghost m = all_skills@;
        let ghost fuel = choose|fuel: nat| ends_within(m, Some(self.id), fuel);
        let ghost full = ancestry(m, Some(self.id), fuel);
        let mut chain: Vec<&'a SkillDef> = vec![];
        let mut current = all_skills.get(&self.id.0);
        let ghost mut cur_id: Option<SkillId> = Some(self.id);
        let ghost mut left: nat = fuel;
        while current.is_some()
            invariant
                m == all_skills@,
                ends_within(m, cur_id, left),
                full == ancestry(m, Some(self.id), fuel),
                chain@.len() + ancestry(m, cur_id, left).len() == full.len(),
                forall|i: int| 0 <= i < chain@.len() ==> *chain@[i] == full[i],
                forall|i: int| 0 <= i < ancestry(m, cur_id, left).len()
                    ==> ancestry(m, cur_id, left)[i] == full[chain@.len() + i],
                match current {
                    Some(d) => lookup(m, cur_id) == Some(*d),
                    None => lookup(m, cur_id) is None,
                },
            decreases left,
        {
            let skill = current.unwrap();
            let ghost old_anc = ancestry(m, cur_id, left);
            let ghost rest = ancestry(m, skill.parent, (left - 1) as nat);
            let ghost old_len = chain@.len();
            proof {
                assert(old_anc =~= seq![*skill] + rest);
                assert(old_anc[0] == *skill);
            }
            chain.push(skill);
            proof {
                let old_left = left;
                cur_id = skill.parent;
                left = (old_left - 1) as nat;
                assert forall|i: int| 0 <= i < rest.len() implies rest[i] == full[chain@.len() + i] by {
                    assert(old_anc[i + 1] == rest[i]);
                    assert(old_anc[i + 1] == full[old_len + i + 1]);
                }
            }
            current = match skill.parent {
                Some(p) => all_skills.get(&p.0),
                None => None,
            };
        }
        chain
    }
}

// === WORKER ===

#[derive(Clone, Copy, Debug, Hash, Eq, PartialEq, Structural)]
pub struct WorkerId(pub u32);

} // verus!
