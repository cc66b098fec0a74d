//! The state of the interactive display: what is shown, in which order, and
//! how key presses change it. Drawing is left to the caller.

pub mod app;
pub mod event;
pub mod ui;
