//! Auction clearing configuration.

pub mod clearing;

pub use clearing::PriceBias;
