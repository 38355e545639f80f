//! Replay input flags.

use vstd::prelude::*;

verus! {

/// The pressable buttons of a replay frame, one flag each.
#[derive(Clone, Copy, Debug, PartialEq, Eq, Structural)]
pub enum Keys {
    M1,
    M2,
    K1,
    K2,
}

/// The bit-flag value of a key.
pub open spec fn spec_keys_bit(k: Keys) -> int {
    match k {
        Keys::M1 => 1,
        Keys::M2 => 2,
        Keys::K1 => 4,
        Keys::K2 => 8,
    }
}

impl Keys {
    /// The bit-flag value of this key.
    pub fn bit(self) -> (r: i32)
        ensures
            r as int == spec_keys_bit(self),
    {
        match self {
            Keys::M1 => 1,
            Keys::M2 => 2,
            Keys::K1 => 4,
            Keys::K2 => 8,
        }
    }
}

} // verus!
