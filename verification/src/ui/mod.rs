//! The user interface's state and rules.

pub mod pin_window;
pub mod region_overlay;
pub mod session_laws;
pub mod theme;
pub mod toolbar;
