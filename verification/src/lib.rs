//! Core of a user-space IPC runtime for a Horizon-style microkernel: a
//! multiplexing server framework with per-session object domains and MITM
//! forwarding, a graphics-buffer-producer client speaking Android parcels,
//! and the shared-ownership arena both are built on.

pub mod result;
pub mod mem;
pub mod gpu;
pub mod ipc;
