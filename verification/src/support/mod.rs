//! Thin, trusted bridges to the clock, to random identifiers, to path
//! arithmetic and to the hashing and encoding crates that the library relies on.

pub mod clock;
pub mod ids;
pub mod hashing;
pub mod paths;
