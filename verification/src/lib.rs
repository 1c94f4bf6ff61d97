//! Verified core of a terminal tool that edits the dependencies of a cargo manifest.

pub mod app;
pub mod assoc;
pub mod config;
pub mod event;
pub mod features;
pub mod keybinds;
pub mod manifest;
pub mod text;
pub mod toml;
pub mod ui;
pub mod updater;
pub mod version;

use vstd::prelude::*;

verus! {

/// An error occurred while running the application
#[derive(Debug, Clone, Copy, PartialEq, Eq, Structural)]
pub enum Error {
    /// An error occurred while initializing the application.
    Init,
    /// An error occurred while running the TUI.
    Run,
}

} // verus!
