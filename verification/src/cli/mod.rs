//! The command-line side: the remote client, the daemon's line protocol and
//! the IME actions.

pub mod client;
pub mod ipc;
pub mod windows;
pub mod laws;
