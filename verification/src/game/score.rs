//! Score records as a score calculator consumes them.

use vstd::prelude::*;

verus! {

/// A score record without its game mode.
#[derive(Clone, Debug)]
pub struct Score {
    pub score_id: i64,
    pub user_id: i64,
    pub beatmap_id: i32,
    pub mods: i64,
    pub score: i32,
    pub max_combo: i32,
    pub count_300: i32,
    pub count_100: i32,
    pub count_50: i32,
    pub count_geki: i32,
    pub count_katu: i32,
}

/// The part of a score that score calculation needs.
#[derive(Clone, Debug)]
pub struct PartialScore {
    pub mods: i64,
    pub max_combo: i32,
}

} // verus!
