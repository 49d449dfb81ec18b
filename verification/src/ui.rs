//! Identifiers and state of the user interface.

pub mod icon;
pub mod panels;
pub mod state;
pub mod windows;
