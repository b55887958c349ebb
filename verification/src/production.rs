//! Recipes, facility kinds and recipe allocations.

pub mod execute;
pub mod facility;
pub mod recipe;

pub use execute::RecipeAllocation;
pub use facility::FacilityType;
pub use recipe::RecipeId;
