//! Skill-based labor.

pub mod clearing;
pub mod skills;

pub use clearing::FacilityId;
pub use skills::{SkillDef, SkillId, WorkerId};
