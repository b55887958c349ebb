//! Settlements and the routes that connect them.

pub mod route;
pub mod settlement;

pub use settlement::NaturalResource;
