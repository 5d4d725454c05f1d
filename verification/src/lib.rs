//! A path-based HTTP reverse proxy core.
//!
//! Inbound requests arrive under a versioned prefix (`/v1/...`). The third
//! path segment names a backend service; the registry maps that identifier to
//! the service's base address, the resolver rewrites the path into a fully
//! qualified backend URL, and the forwarder carries the method, headers and
//! body over verbatim. A health probe and a not-found fallback answer
//! directly, without consulting the registry.
//!
//! The library is pure: it decides and computes. The surrounding program owns
//! the listener, performs the outbound network call, and relays the backend's
//! response unchanged.

pub mod forward;
pub mod handlers;
pub mod registry;
pub mod resolve;
pub mod router;
pub mod segments;
