//! The logic of the tray agent: what its menu and icon show, where its files
//! live and how it starts at login.

pub mod autostart;
pub mod icon;
pub mod lock;
pub mod logging;
pub mod menu;
pub mod paths;
pub mod permissions;
pub mod tray;

pub use icon::{render_icon, IconState};
pub use menu::{menu_model, MenuModel};
pub use permissions::{probe_permissions, Permissions};
