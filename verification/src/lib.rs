//! Verified core of a keyboard-driven window manager: same-application window
//! cycling, snap and stack geometry, and the policies around them.

pub mod acl;
pub mod arrangement;
pub mod autostart;
pub mod config;
pub mod context;
pub mod text;
pub mod tray;
pub mod updatecheck;
pub mod util;
pub mod worker;
pub mod command;
pub mod cycling;
pub mod hook;
pub mod icon;
pub mod legacy;
pub mod log;
pub mod menu;
pub mod metrics;
pub mod observed;
pub mod ring;
pub mod switcher;
