//! Skills.
pub mod skill;

pub use skill::{Skill, SkillSource};
