//! Types and helpers shared by the elevation source and the models.

pub mod args;
pub mod color;
pub mod settings;
pub mod types;
pub mod util;
