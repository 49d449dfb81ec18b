//! Panels of the interface.

pub mod action;
pub mod info;
pub mod sub_action;

pub use action::ActionPanelPosition;
