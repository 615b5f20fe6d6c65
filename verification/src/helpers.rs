//! Rendering helpers: ANSI-aware width measurement, path display formatting,
//! and the table layout engine.

pub mod ansi;
pub mod path;
pub mod table;
