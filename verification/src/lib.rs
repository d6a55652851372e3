//! Query, switch and list input methods, and the line protocol that a
//! loopback daemon and its remote client speak.
//!
//! - [`linux`]: the fcitx5 (D-Bus) and ibus backends and framework detection;
//! - [`windows`]: keyboard layout identifiers (KLIDs);
//! - [`unsupported`]: platforms without a backend;
//! - [`cli`]: the remote client, the daemon's line protocol and its laws;
//! - [`text`]: the character-level text operations these rest on.

pub mod cli;
pub mod error;
pub mod linux;
pub mod text;
pub mod unsupported;
pub mod windows;

pub use error::ImSwitchError;
