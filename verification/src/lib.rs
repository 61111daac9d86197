//! Client-side core of an anonymity-preserving message transport.
//!
//! The heart of the crate is a mix-network packet engine: a Sphinx-style
//! codec that wraps payloads in layered symmetric encryption at a fixed
//! wire size, and a dispatcher that batches, pads and advances packets on
//! a constant cadence so that traffic volume and timing reveal nothing.
//! Around that core stand a handful of small, self-contained privacy
//! utilities: a configuration auditor, a dining-cryptographers round,
//! a device-local security sentinel, and a secret-sharing manager.

pub mod audit;
pub mod bundle;
pub mod bytes;
pub mod dcnet;
pub mod mixnet;
pub mod sentinel;
pub mod sharding;
pub mod sphinx;
