//! Recipe identities.

use vstd::prelude::*;

verus! {

#[derive(Clone, Copy, Debug, Hash, Eq, PartialEq, Structural)]
pub struct RecipeId(pub u32);

impl RecipeId {
    pub fn new(id: u32) -> (r: Self)
        ensures
            r.0 == id,
    {
        Self(id)
    }
}

} // verus!
