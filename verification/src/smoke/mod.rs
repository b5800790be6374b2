//! The ivshmem smoke test: its mailboxes, the guest protocol and the build of
//! its binaries.

pub mod binaries;
pub mod guest;
pub mod laws;
pub mod mailbox;
