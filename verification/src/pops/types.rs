//! Core types of the population economy.

pub mod ids;
pub mod location;

use vstd::prelude::*;

verus! {

/// Side of an order in an auction.
#[derive(Clone, Copy, Debug, PartialEq, Eq, Structural)]
pub enum Side {
    Buy,
    Sell,
}

} // verus!
