//! Windows: what is put into calls of its API and what their results mean.

pub mod autostart;
pub mod d3d;
pub mod elevation;
pub mod event_loop;
pub mod keyboard;
pub mod monitors;
pub mod mouse;
pub mod wide;
