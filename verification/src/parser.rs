//! The beatmap file parser and its text utilities.

pub mod beatmap;
pub mod text;
