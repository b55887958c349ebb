//! Claimable natural-resource slots at settlements.

pub mod resources;
pub mod settlement;

pub use resources::{ResourceQuality, ResourceSlot, ResourceType};
