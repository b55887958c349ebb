//! Order sides and the auction's tie-breaking policy.

pub mod clearing;
pub mod orders;

pub use clearing::PriceBias;
pub use orders::Side;
