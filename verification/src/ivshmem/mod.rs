//! OS-agnostic ivshmem link semantics shared by peer endpoints.
//!
//! This module owns the device-side state that peers of one ivshmem link
//! share: the register page, the shared-memory backing, and the peer
//! lifecycle. It deliberately knows nothing about PCI config space, BAR
//! routing, guest address spaces, or configuration files; the endpoint adapter
//! binds this semantics to a PCI function.
//!
//! Doorbell events leave a link as plain values and reach the sink of their
//! target only after the link is released.

pub mod backing;
pub mod doorbell;
pub mod endpoint;
pub mod error;
pub mod laws;
pub mod layout;
pub mod link;
pub mod memory_laws;
pub mod plan;
pub mod profile;
pub mod registers;
