//! Game modes, mod flags and score records.

pub mod score;

use vstd::prelude::*;

use crate::parser::text::str_eq;

verus! {

/// The four game modes.
#[derive(Clone, Copy, Debug, PartialEq, Eq, Structural)]
pub enum Gamemode {
    Standard,
    Taiko,
    Catch,
    Mania,
}

/// The numeric code of a game mode.
pub open spec fn spec_gamemode_code(m: Gamemode) -> int {
    match m {
        Gamemode::Standard => 0,
        Gamemode::Taiko => 1,
        Gamemode::Catch => 2,
        Gamemode::Mania => 3,
    }
}

/// The game mode denoted by a mode string: a name or a numeric code.
pub open spec fn spec_gamemode_of(s: Seq<char>) -> Option<Gamemode> {
    if s == "Standard"@ || s == "0"@ {
        Some(Gamemode::Standard)
    } else if s == "Taiko"@ || s == "1"@ {
        Some(Gamemode::Taiko)
    } else if s == "Catch"@ || s == "2"@ {
        Some(Gamemode::Catch)
    } else if s == "Mania"@ || s == "3"@ {
        Some(Gamemode::Mania)
    } else {
        None
    }
}

impl Gamemode {
    /// The mode with the given numeric code.
    pub fn try_from(v: i32) -> (r: Result<Gamemode, ()>)
        ensures
            r matches Ok(m) ==> spec_gamemode_code(m) == v as int,
            r is Err <==> !(0 <= v as int <= 3),
    {
        match v {
            0 => Ok(Gamemode::Standard),
            1 => Ok(Gamemode::Taiko),
            2 => Ok(Gamemode::Catch),
            3 => Ok(Gamemode::Mania),
            _ => Err(()),
        }
    }

    /// The mode named by a string, by name or numeric code.
    pub fn from_str(input: &str) -> (r: Result<Gamemode, ()>)
        ensures
            r matches Ok(m) ==> spec_gamemode_of(input@) == Some(m),
            r is Err <==> spec_gamemode_of(input@) is None,
    {
        if str_eq(input, "Standard") || str_eq(input, "0") {
            Ok(Gamemode::Standard)
        } else if str_eq(input, "Taiko") || str_eq(input, "1") {
            Ok(Gamemode::Taiko)
        } else if str_eq(input, "Catch") || str_eq(input, "2") {
            Ok(Gamemode::Catch)
        } else if str_eq(input, "Mania") || str_eq(input, "3") {
            Ok(Gamemode::Mania)
        } else {
            Err(())
        }
    }
}

/// The score-modifying mods, one flag each.
#[derive(Clone, Copy, Debug, PartialEq, Eq, Structural)]
pub enum Mods {
    NoMod,
    NoFail,
    Easy,
    TouchDevice,
    Hidden,
    HardRock,
    SuddenDeath,
    DoubleTime,
    Relax,
    HalfTime,
    Nightcore,
    Flashlight,
    Autoplay,
    SpunOut,
    Relax2,
    Perfect,
    Mania4K,
    Mania5K,
    Mania6K,
    Mania7K,
    Mania8K,
    FadeIn,
    Random,
    Cinema,
    Target,
    Mania9K,
    ManiaCoOp,
    Mania1K,
    Mania3K,
    Mania2K,
}

/// The bit-flag value of a mod.
pub open spec fn spec_mods_bits(m: Mods) -> int {
    match m {
        Mods::NoMod => 0,
        Mods::NoFail => 1,
        Mods::Easy => 2,
        Mods::TouchDevice => 4,
        Mods::Hidden => 8,
        Mods::HardRock => 16,
        Mods::SuddenDeath => 32,
        Mods::DoubleTime => 64,
        Mods::Relax => 128,
        Mods::HalfTime => 256,
        Mods::Nightcore => 512,
        Mods::Flashlight => 1024,
        Mods::Autoplay => 2048,
        Mods::SpunOut => 4096,
        Mods::Relax2 => 8192,
        Mods::Perfect => 16384,
        Mods::Mania4K => 32768,
        Mods::Mania5K => 65536,
        Mods::Mania6K => 131072,
        Mods::Mania7K => 262144,
        Mods::Mania8K => 524288,
        Mods::FadeIn => 1048576,
        Mods::Random => 2097152,
        Mods::Cinema => 4194304,
        Mods::Target => 8388608,
        Mods::Mania9K => 16777216,
        Mods::ManiaCoOp => 33554432,
        Mods::Mania1K => 67108864,
        Mods::Mania3K => 134217728,
        Mods::Mania2K => 268435456,
    }
}

/// The mod denoted by a two-letter acronym; anything unrecognized is no mod.
pub open spec fn spec_mods_of(s: Seq<char>) -> Mods {
    if s == "NF"@ {
        Mods::NoFail
    } else if s == "HT"@ {
        Mods::HalfTime
    } else if s == "EZ"@ {
        Mods::Easy
    } else if s == "SD"@ {
        Mods::SuddenDeath
    } else if s == "PF"@ {
        Mods::Perfect
    } else if s == "HR"@ {
        Mods::HardRock
    } else if s == "HD"@ {
        Mods::Hidden
    } else if s == "DT"@ {
        Mods::DoubleTime
    } else if s == "NC"@ {
        Mods::Nightcore
    } else if s == "FL"@ {
        Mods::Flashlight
    } else if s == "RX"@ {
        Mods::Relax
    } else if s == "AP"@ {
        Mods::Relax2
    } else if s == "SO"@ {
        Mods::SpunOut
    } else if s == "AT"@ {
        Mods::Autoplay
    } else if s == "TD"@ {
        Mods::TouchDevice
    } else {
        Mods::NoMod
    }
}

impl Mods {
    /// The mod named by a two-letter acronym; unknown acronyms (and `NM`)
    /// are no mod.
    pub fn from_str(string: String) -> (r: Mods)
        ensures
            r == spec_mods_of(string@),
    {
        let s: &str = string.as_str();
        if str_eq(s, "NF") {
            Mods::NoFail
        } else if str_eq(s, "HT") {
            Mods::HalfTime
        } else if str_eq(s, "EZ") {
            Mods::Easy
        } else if str_eq(s, "SD") {
            Mods::SuddenDeath
        } else if str_eq(s, "PF") {
            Mods::Perfect
        } else if str_eq(s, "HR") {
            Mods::HardRock
        } else if str_eq(s, "HD") {
            Mods::Hidden
        } else if str_eq(s, "DT") {
            Mods::DoubleTime
        } else if str_eq(s, "NC") {
            Mods::Nightcore
        } else if str_eq(s, "FL") {
            Mods::Flashlight
        } else if str_eq(s, "RX") {
            Mods::Relax
        } else if str_eq(s, "AP") {
            Mods::Relax2
        } else if str_eq(s, "SO") {
            Mods::SpunOut
        } else if str_eq(s, "AT") {
            Mods::Autoplay
        } else if str_eq(s, "TD") {
            Mods::TouchDevice
        } else {
            Mods::NoMod
        }
    }

    /// The bit-flag value of this mod.
    pub fn bits(self) -> (r: i64)
        ensures
            r as int == spec_mods_bits(self),
    {
        match self {
            Mods::NoMod => 0,
            Mods::NoFail => 1,
            Mods::Easy => 2,
            Mods::TouchDevice => 4,
            Mods::Hidden => 8,
            Mods::HardRock => 16,
            Mods::SuddenDeath => 32,
            Mods::DoubleTime => 64,
            Mods::Relax => 128,
            Mods::HalfTime => 256,
            Mods::Nightcore => 512,
            Mods::Flashlight => 1024,
            Mods::Autoplay => 2048,
            Mods::SpunOut => 4096,
            Mods::Relax2 => 8192,
            Mods::Perfect => 16384,
            Mods::Mania4K => 32768,
            Mods::Mania5K => 65536,
            Mods::Mania6K => 131072,
            Mods::Mania7K => 262144,
            Mods::Mania8K => 524288,
            Mods::FadeIn => 1048576,
            Mods::Random => 2097152,
            Mods::Cinema => 4194304,
            Mods::Target => 8388608,
            Mods::Mania9K => 16777216,
            Mods::ManiaCoOp => 33554432,
            Mods::Mania1K => 67108864,
            Mods::Mania3K => 134217728,
            Mods::Mania2K => 268435456,
        }
    }
}

/// A full score record.
#[derive(Clone, Debug)]
pub struct Score {
    pub score_id: i64,
    pub mode: Gamemode,
    pub user_id: i64,
    pub beatmap_id: i32,
    pub mods: i64,
    pub score: i32,
    pub max_combo: i32,
    pub count_300: i32,
    pub count_100: i32,
    pub count_50: i32,
    pub count_geki: i32,
    pub count_katu: i32,
}

} // verus!
