//! Contracts for the outside crates that the library calls: each item here
//! names what an outside function gives, or states what its documentation
//! and source promise of it.
pub mod anchors;
pub mod clock;
pub mod codec;
pub mod ids;
pub mod json;
pub mod paths;
pub mod strings;
pub mod x509;
