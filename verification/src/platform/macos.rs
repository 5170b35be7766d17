//! macOS.

pub mod autostart;
