//! Space Manager: the verified core of a Hyprland workspace manager that keeps
//! several application instances as ordered "spaces".

pub mod text;
pub mod types;
pub mod hypr;
pub mod geometry;
pub mod manager;
pub mod daemon;
pub mod process;
pub mod input;
pub mod ipc;
pub mod overlay;
pub mod hypr_settings;
pub mod cli;
