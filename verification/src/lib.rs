//! Turns tiled elevation data into a planet mesh: a lattice of geographic
//! points with its triangle topology, the elevation and colour of every
//! lattice point, and the colour tables that map elevation to a palette.
//!
//! All quantities are exact: coordinates, texture coordinates and colour
//! channels are fractions of integers, elevations are whole metres.

pub mod common;
pub mod input;
pub mod model;
