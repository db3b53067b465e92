//! Core of a link-shortening service.
//!
//! The crate covers the parts of the service with real invariants:
//! salted credential hashing and verification, session issuance and
//! expiry-based validation, the short-code registry with hit counting,
//! and the linking of codes to authenticated owners.  Persistence and
//! transport live outside; the store is modelled as plain in-memory
//! state and every operation carries a contract.

pub mod config;
pub mod errors;
pub mod hasher;
pub mod random;
pub mod store;
pub mod urls;
