//! Dependency usage analysis: which declared dependencies a project's sources
//! reference, how important each one is, and which are candidates for removal.

pub mod analyzer;
pub mod manifest;
pub mod name_map;
pub mod text;
pub mod tui;
pub mod utils;
