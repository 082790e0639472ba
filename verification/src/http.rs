//! Pluggable HTTP surface.
//!
//! [`ingress`] is the inbound side and [`bridge`] is the outbound side
//! (`wasi:http` egress). [`headers`] is what both know about header fields.

pub mod bridge;
pub mod headers;
pub mod ingress;

pub use bridge::{EgressPolicy, HttpBridge};
pub use ingress::IngressError;
