//! A 128-bit membership filter with two independent hashes, and the logic
//! that loads, queries, updates and persists it.
pub mod bits;
pub mod filter;
pub mod hashing;
pub mod state;
