//! A bidirectional associative container: a store of `(first, second)` pairs
//! in which either component of a pair can serve as the lookup key for the
//! other, with uniqueness enforced independently on each side.

pub mod laws;
pub mod store;

pub use store::BidirMap;
