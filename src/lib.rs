//! A map whose entries are written once and then only read.
//!
//! Each key is initialized at most once; an initialized value is never
//! replaced or removed. Values live in an append-only arena and the key
//! table only records where each value stands.

mod key_index;
pub mod laws;
pub mod model;
pub mod once_map;
pub mod outcome;

pub use once_map::OnceMap;
pub use outcome::GetOrInitData;
