//! Beatmap parsing and derived gameplay geometry.
//!
//! The library reads the line-oriented, sectioned beatmap text format into a
//! typed in-memory representation and derives the geometry that is not
//! literally present in the file: flattened slider curves, the timing of
//! slider sub-events, and the visual stack offsets of overlapping objects.
//! All fractional quantities are carried as fixed-point numbers (see `fx`),
//! so every computation is exact integer arithmetic.

pub mod fx;
pub mod game;
pub mod parser;
pub mod replay;
pub mod request;
pub mod trig;
pub mod util;
