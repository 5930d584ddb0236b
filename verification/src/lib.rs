//! Verified core of a desktop relaxation timer: settings persistence,
//! the background timer's decision logic, the texts it shows, and the
//! small geometry and encoding helpers used by the overlay window.
pub mod config;
pub mod controls;
pub mod display;
pub mod icon;
pub mod numbers;
pub mod overlay;
pub mod text;
pub mod timer;
pub mod utf16;

pub use config::{parse_config, render_config};
pub use utf16::wide;
