//! Component model machinery.
//!
//! [`loader`] turns untrusted bytes into a validated, content-addressed
//! [`loader::Loaded`] artifact and enforces the `ember-guest` contract.
//! [`linker`] is the host side of the component ABI: the `ember:runtime`
//! imports and the request and response records.

pub mod linker;
pub mod loader;

pub use loader::{contract_violations, digest_of, ensure_contract, Loaded};
