use std::collections::HashMap;

use sim_core::pops::labor::skills::{SkillDef, SkillId};

fn skill_def(id: u32, name: &str, parent: Option<u32>) -> SkillDef {
    SkillDef { id: SkillId(id), name: name.to_string(), parent: parent.map(SkillId) }
}

fn catalogue() -> HashMap<u32, SkillDef> {
    let mut all = HashMap::new();
    all.insert(1, skill_def(1, "Laborer", None));
    all.insert(2, skill_def(2, "Craftsman", Some(1)));
    all.insert(3, skill_def(3, "Smith", Some(2)));
    all
}

#[test]
fn skill_chain_walks_to_root() {
    let all = catalogue();
    let smith = skill_def(3, "Smith", Some(2));
    let chain: Vec<&str> = smith.skill_chain(&all).iter().map(|d| d.name.as_str()).collect();
    assert_eq!(chain, vec!["Smith", "Craftsman", "Laborer"]);
}

#[test]
fn skill_chain_of_root_and_unknown() {
    let all = catalogue();
    let laborer = skill_def(1, "Laborer", None);
    assert_eq!(laborer.skill_chain(&all).len(), 1);
    let unknown = skill_def(8, "Unknown", Some(1));
    assert!(unknown.skill_chain(&all).is_empty());
}

#[test]
fn skill_chain_stops_at_missing_parent() {
    let mut all = catalogue();
    all.insert(4, skill_def(4, "Shipwright", Some(9)));
    let wright = skill_def(4, "Shipwright", Some(9));
    let chain = wright.skill_chain(&all);
    assert_eq!(chain.len(), 1);
    assert_eq!(chain[0].id, SkillId(4));
}

#[test]
fn gather_labor_skills_dedups_and_sorts() {
    let ids = vec![SkillId(4), SkillId(1), SkillId(4), SkillId(2)];
    let skills = sim_core::world::gather_labor_skills(ids);
    let got: Vec<u32> = skills.iter().map(|s| s.id.0).collect();
    assert_eq!(got, vec![1, 2, 4]);
    assert!(skills.iter().all(|s| s.name.is_empty() && s.parent.is_none()));
    assert!(sim_core::world::gather_labor_skills(Vec::new()).is_empty());
}
