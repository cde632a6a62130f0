//! Resolving a string against a fixed set of keys to its position, four ways:
//! by comparing strings in order, by comparing fixed-seed hashes, through a
//! perfect-hash table, and through a lazily built hash map. All four are
//! proved to give the same answers on every well-formed key set.

pub mod bench;
pub mod generate;
pub mod hash;
pub mod keyset;
pub mod table;
pub mod variants;
