//! The group menu.
pub mod options;
pub mod transform;
