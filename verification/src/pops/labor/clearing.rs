//! Identities of the labor market.

use vstd::prelude::*;

verus! {

/// A facility as seen by the labor market.
#[derive(Clone, Copy, Debug, Hash, Eq, PartialEq, Structural)]
pub struct FacilityId(pub u32);

} // verus!
