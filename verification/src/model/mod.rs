//! Mesh topologies and the sampling of elevation onto them.

pub mod obj;
pub mod x3dgeospatial;
pub mod types;
