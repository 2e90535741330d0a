//! The child controls of the main window.
pub mod edit;
