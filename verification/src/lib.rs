//! Safe remote memory introspection and a typed, lazily resolved state cache.
//!
//! The crate has three layers, consumed bottom-up:
//!
//! - [`memory`]: a request/response protocol that resolves a chain of pointer
//!   hops inside a target process's address space. Every memory touch is
//!   probe-validated first, so an unmapped address degrades to a typed
//!   `InvalidAddress` response carrying the hops that did succeed, never a
//!   crash of the privileged context.
//! - [`registry`]: a registry that maps a state kind (plus an optional
//!   per-kind key) to a lazily computed, memoized value. Within one
//!   invalidation epoch every (kind, key) slot is computed at most once;
//!   `invalidate` bumps the epoch in O(1) without evicting storage.
//! - [`radar`]: the consumer that assembles a per-frame snapshot (players,
//!   planted device, carried devices) from cached states, tolerating
//!   per-entity failures while letting foundational failures abort the frame.

pub mod bytes;
pub mod game;
pub mod memory;
pub mod radar;
pub mod registry;
