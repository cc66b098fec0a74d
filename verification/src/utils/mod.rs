//! Paths and settings.

pub mod config;
pub mod fs;
