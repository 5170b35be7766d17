//! Any platform that is neither macOS nor Windows.

pub mod autostart;
