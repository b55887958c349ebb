//! Single-market clearing policy.

use vstd::prelude::*;

verus! {

/// Which price the call auction picks among those that trade the most volume.
#[derive(Clone, Copy, Debug, Default, PartialEq, Eq, Structural)]
pub enum PriceBias {
    #[default]
    FavorSellers,  // highest price at max volume
    FavorBuyers,  // lowest price at max volume
    Neutral,  // midpoint-oriented tie break at max volume
}

} // verus!
