//! # Ember
//!
//! The verified core of a lightweight WebAssembly runtime for edge workloads.
//! Ember runs component-model components under the WASI preview 2 surface,
//! isolates each tenant inside a resource-accounted sandbox, hot-reloads
//! components from an OCI registry by pinned digest, and exposes a pluggable
//! HTTP ingress.
//!
//! The crate holds the decisions of the runtime; sockets, files, clocks and
//! the WebAssembly engine are driven by the program around it, which hands
//! plain values in and carries out what comes back. It is structured around
//! five modules that mirror the runtime architecture:
//!
//! - [`component`]: component artifact validation and the component ABI
//! - [`wasi`]: WASI preview 2 context construction and per-tenant sandboxes
//! - [`http`]: the ingress and the outbound egress bridge
//! - [`registry`]: the OCI distribution client and content-addressable store
//! - [`runtime`]: engine set-up, tenant registry, invocation, hot reload
//!
//! The typical entry point is [`runtime::Runtime::build`].

use vstd::prelude::*;

pub mod component;
pub mod config;
pub mod error;
pub mod hash;
pub mod http;
pub mod registry;
pub mod runtime;
pub mod table;
pub mod telemetry;
pub mod text;
pub mod time;
pub mod wasi;

pub use config::Config;
pub use error::Error;
pub use runtime::Runtime;

verus! {

/// Runtime version reported in diagnostics and the metrics endpoint.
pub const VERSION: &'static str = "0.1.0";

/// The world id a component must target to be scheduled by Ember. See
/// [`component::loader::EMBER_WORLD`].
pub const EMBER_WORLD: &'static str = component::loader::EMBER_WORLD;

/// Max length of a tenant id, enforced by [`runtime::TenantId`].
pub const MAX_TENANT_ID_LEN: usize = 64;

} // verus!
