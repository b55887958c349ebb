//! Verified core of an economic simulation: identifiers, goods, resource
//! slots, skills, deterministic orderings and the integer bookkeeping that the
//! simulation's phases rely on.

pub mod determinism;
pub mod geography;
pub mod instrument;
pub mod market;
pub mod mortality;
pub mod pops;
pub mod production;
pub mod types;
pub mod world;

use vstd::prelude::*;

verus! {

} // verus!
