//! Status bar and tab bar state.
pub mod sidebar;
pub mod statusbar;
pub mod tabs;

pub use statusbar::{StatusBar, StatusInfo};
