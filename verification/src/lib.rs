//! Rclone UI: the verified core of a terminal interface for rclone.
//!
//! The library holds what the program decides: how rclone is invoked,
//! how its replies are read, and how the interface reacts to each key.
//! Running rclone, drawing the screen and reading the keyboard are left
//! to the program around it.

pub mod rclone;
pub mod text;
pub mod tui;

pub use rclone::{CommandOutput, FileItem, Invocation, RcloneClient, RcloneError, Remote};

use vstd::prelude::*;

verus! {

/// Application configuration
#[derive(Debug, Clone, Default)]
pub struct Config {
    /// Rclone configuration path (optional)
    pub rclone_config: Option<String>,
}

} // verus!
