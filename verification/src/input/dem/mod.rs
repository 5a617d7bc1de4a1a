//! Digital elevation models.

pub mod arcsec3;
