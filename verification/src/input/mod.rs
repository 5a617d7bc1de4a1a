//! Elevation sources.

pub mod dem;
pub mod types;
