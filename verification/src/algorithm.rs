//! Small algorithms: pattern matching, distances between equal elements
//! and a block allocator.

pub mod allocator;
pub mod intervals;
pub mod regexp;
