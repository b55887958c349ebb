//! Population economy: identifiers, skills and the trade network of the
//! per-settlement model.

pub mod geography;
pub mod labor;
pub mod market;
pub mod types;
