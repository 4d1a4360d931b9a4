//! Verified core of the Structured Text build-requirements dashboard.

pub mod app;
pub mod builds;
pub mod checks;
pub mod clipboard;
pub mod env;
pub mod layout;
pub mod names;
pub mod paths;
pub mod probe;
pub mod project;
pub mod sequence;
pub mod text;
pub mod theme;
