//! The typed objects a beatmap file is parsed into.

use vstd::prelude::*;

use crate::parser::text::str_eq;
use crate::util::Vector2;

verus! {

/// Sample metadata attached to a hit object.
#[derive(Clone, Debug)]
pub struct HitSample {
    pub normal_set: i32,
    pub additional_set: i32,
    pub index: i32,
    pub volume: i32,
    pub file_name: String,
}

impl Default for HitSample {
    /// The silent sample: all sets zero, no file.
    fn default() -> (r: Self)
        ensures
            r.normal_set == 0,
            r.additional_set == 0,
            r.index == 0,
            r.volume == 0,
            r.file_name@ == Seq::<char>::empty(),
    {
        HitSample {
            normal_set: 0,
            additional_set: 0,
            index: 0,
            volume: 0,
            file_name: String::new(),
        }
    }
}

/// Optional trailing data of a hit object.
#[derive(Clone, Debug)]
pub struct HitObjectExtra {
    pub hit_sample: HitSample,
}

/// The named hit sounds.
#[derive(Clone, Copy, Debug, PartialEq, Eq, Structural)]
pub enum HitSound {
    Normal,
    Whistle,
    Finish,
    Clap,
}

/// The hit sound denoted by a name.
pub open spec fn spec_hit_sound_of(s: Seq<char>) -> Option<HitSound> {
    if s == "Normal"@ {
        Some(HitSound::Normal)
    } else if s == "Whistle"@ {
        Some(HitSound::Whistle)
    } else if s == "Finish"@ {
        Some(HitSound::Finish)
    } else if s == "Clap"@ {
        Some(HitSound::Clap)
    } else {
        None
    }
}

/// The numeric code of a hit sound.
pub open spec fn spec_hit_sound_code(h: HitSound) -> int {
    match h {
        HitSound::Normal => 0,
        HitSound::Whistle => 1,
        HitSound::Finish => 2,
        HitSound::Clap => 3,
    }
}

impl HitSound {
    /// The hit sound with the given numeric code.
    pub fn try_from(v: i32) -> (r: Result<HitSound, ()>)
        ensures
            r matches Ok(h) ==> spec_hit_sound_code(h) == v as int,
            r is Err <==> !(0 <= v as int <= 3),
    {
        match v {
            0 => Ok(HitSound::Normal),
            1 => Ok(HitSound::Whistle),
            2 => Ok(HitSound::Finish),
            3 => Ok(HitSound::Clap),
            _ => Err(()),
        }
    }

    /// The hit sound with the given name.
    pub fn from_str(input: &str) -> (r: Result<HitSound, ()>)
        ensures
            r matches Ok(h) ==> spec_hit_sound_of(input@) == Some(h),
            r is Err <==> spec_hit_sound_of(input@) is None,
    {
        if str_eq(input, "Normal") {
            Ok(HitSound::Normal)
        } else if str_eq(input, "Whistle") {
            Ok(HitSound::Whistle)
        } else if str_eq(input, "Finish") {
            Ok(HitSound::Finish)
        } else if str_eq(input, "Clap") {
            Ok(HitSound::Clap)
        } else {
            Err(())
        }
    }
}

/// The hit-object type flags.
#[derive(Clone, Copy, Debug, PartialEq, Eq, Structural)]
pub enum HitType {
    Normal,
    Slider,
    NewCombo,
    Spinner,
    ComboSkip1,
    ComboSkip2,
    ComboSkip3,
    Hold,
}

/// The hit-object type denoted by a name.
pub open spec fn spec_hit_type_of(s: Seq<char>) -> Option<HitType> {
    if s == "Normal"@ {
        Some(HitType::Normal)
    } else if s == "Slider"@ {
        Some(HitType::Slider)
    } else if s == "NewCombo"@ {
        Some(HitType::NewCombo)
    } else if s == "Spinner"@ {
        Some(HitType::Spinner)
    } else if s == "ComboSkip1"@ {
        Some(HitType::ComboSkip1)
    } else if s == "ComboSkip2"@ {
        Some(HitType::ComboSkip2)
    } else if s == "ComboSkip3"@ {
        Some(HitType::ComboSkip3)
    } else if s == "Hold"@ {
        Some(HitType::Hold)
    } else {
        None
    }
}

/// The bit-flag value of a hit-object type.
pub open spec fn spec_hit_type_flag(t: HitType) -> int {
    match t {
        HitType::Normal => 1,
        HitType::Slider => 2,
        HitType::NewCombo => 4,
        HitType::Spinner => 8,
        HitType::ComboSkip1 => 16,
        HitType::ComboSkip2 => 32,
        HitType::ComboSkip3 => 64,
        HitType::Hold => 128,
    }
}

impl HitType {
    /// The bit-flag value of this type.
    pub fn flag(self) -> (r: i32)
        ensures
            r as int == spec_hit_type_flag(self),
    {
        match self {
            HitType::Normal => 1,
            HitType::Slider => 2,
            HitType::NewCombo => 4,
            HitType::Spinner => 8,
            HitType::ComboSkip1 => 16,
            HitType::ComboSkip2 => 32,
            HitType::ComboSkip3 => 64,
            HitType::Hold => 128,
        }
    }

    /// The type whose flag value is exactly `v`.
    pub fn from_i32(v: i32) -> (r: Result<HitType, ()>)
        ensures
            r matches Ok(t) ==> spec_hit_type_flag(t) == v as int,
            r is Err <==> !(v == 1 || v == 2 || v == 4 || v == 8 || v == 16 || v == 32 || v == 64
                || v == 128),
    {
        match v {
            1 => Ok(HitType::Normal),
            2 => Ok(HitType::Slider),
            4 => Ok(HitType::NewCombo),
            8 => Ok(HitType::Spinner),
            16 => Ok(HitType::ComboSkip1),
            32 => Ok(HitType::ComboSkip2),
            64 => Ok(HitType::ComboSkip3),
            128 => Ok(HitType::Hold),
            _ => Err(()),
        }
    }

    /// The type with the given name.
    pub fn from_str(input: &str) -> (r: Result<HitType, ()>)
        ensures
            r matches Ok(t) ==> spec_hit_type_of(input@) == Some(t),
            r is Err <==> spec_hit_type_of(input@) is None,
    {
        if str_eq(input, "Normal") {
            Ok(HitType::Normal)
        } else if str_eq(input, "Slider") {
            Ok(HitType::Slider)
        } else if str_eq(input, "NewCombo") {
            Ok(HitType::NewCombo)
        } else if str_eq(input, "Spinner") {
            Ok(HitType::Spinner)
        } else if str_eq(input, "ComboSkip1") {
            Ok(HitType::ComboSkip1)
        } else if str_eq(input, "ComboSkip2") {
            Ok(HitType::ComboSkip2)
        } else if str_eq(input, "ComboSkip3") {
            Ok(HitType::ComboSkip3)
        } else if str_eq(input, "Hold") {
            Ok(HitType::Hold)
        } else {
            Err(())
        }
    }
}

/// Does a type bit-set have the slider flag?
pub open spec fn spec_is_slider(bits: i32) -> bool {
    bits & 2 != 0
}

/// Does a type bit-set have the spinner flag?
pub open spec fn spec_is_spinner(bits: i32) -> bool {
    bits & 8 != 0
}

/// Does a type bit-set have the hold flag?
pub open spec fn spec_is_hold(bits: i32) -> bool {
    bits & 128 != 0
}

/// Does a type bit-set have the slider flag?
pub fn is_slider_bits(bits: i32) -> (r: bool)
    ensures
        r == spec_is_slider(bits),
{
    bits & 2 != 0
}

/// Does a type bit-set have the spinner flag?
pub fn is_spinner_bits(bits: i32) -> (r: bool)
    ensures
        r == spec_is_spinner(bits),
{
    bits & 8 != 0
}

/// Does a type bit-set have the hold flag?
pub fn is_hold_bits(bits: i32) -> (r: bool)
    ensures
        r == spec_is_hold(bits),
{
    bits & 128 != 0
}

/// The shape of a slider's control-point path.
#[derive(Clone, Copy, Debug, PartialEq, Eq, Structural)]
pub enum CurveType {
    Catmull,
    Bezier,
    Linear,
    PerfectCurve,
}

/// The curve type denoted by a one-letter code.
pub open spec fn spec_curve_type_of(s: Seq<char>) -> Option<CurveType> {
    if s == "C"@ {
        Some(CurveType::Catmull)
    } else if s == "B"@ {
        Some(CurveType::Bezier)
    } else if s == "L"@ {
        Some(CurveType::Linear)
    } else if s == "P"@ {
        Some(CurveType::PerfectCurve)
    } else {
        None
    }
}

impl CurveType {
    /// The curve type with the given one-letter code.
    pub fn from_str(input: &str) -> (r: Result<CurveType, ()>)
        ensures
            r matches Ok(c) ==> spec_curve_type_of(input@) == Some(c),
            r is Err <==> spec_curve_type_of(input@) is None,
    {
        if str_eq(input, "C") {
            Ok(CurveType::Catmull)
        } else if str_eq(input, "B") {
            Ok(CurveType::Bezier)
        } else if str_eq(input, "L") {
            Ok(CurveType::Linear)
        } else if str_eq(input, "P") {
            Ok(CurveType::PerfectCurve)
        } else {
            Err(())
        }
    }
}

/// Whether a timing point defines tempo or only a multiplier.
#[derive(Clone, Copy, Debug, PartialEq, Eq, Structural)]
pub enum TimingPointType {
    Uninherited,
    Inherited,
}

/// One entry of the combined timing-point list.
#[derive(Clone, Copy, Debug, PartialEq, Eq, Structural)]
pub struct TimingPoint {
    pub time: i64,
    pub beat_length: i64,
    pub time_signature: i32,
    pub speed_multiplier: i64,
    pub point_type: TimingPointType,
}

/// A tempo-defining timing point.
#[derive(Clone, Copy, Debug, PartialEq, Eq, Structural)]
pub struct UninheritedTimingPoint {
    pub time: i64,
    pub beat_length: i64,
    pub time_signature: i32,
}

/// A multiplier-only timing point, with the tempo point it inherits from.
#[derive(Clone, Copy, Debug, PartialEq, Eq, Structural)]
pub struct InheritedTimingPoint {
    pub time: i64,
    pub speed_multiplier: i64,
    pub inherited_from: UninheritedTimingPoint,
}

/// A slider's control points and flattened body.
#[derive(Clone, Debug)]
pub struct SliderData {
    pub curve_type: CurveType,
    pub base_points: Vec<Vector2>,
    pub slider_points: Vec<Vector2>,
    pub slider_body: SliderBody,
}

/// A flattened slider path with its cumulative-length table.
#[derive(Clone, Debug)]
pub struct SliderBody {
    pub body: Vec<Vector2>,
    pub length: Vec<i64>,
}

/// One derived slider sub-event.
#[derive(Clone, Copy, Debug, PartialEq, Eq, Structural)]
pub struct SliderObject {
    pub x: i64,
    pub y: i64,
    pub position: Vector2,
    pub start_time: i64,
    pub span_index: i32,
    pub repeat_index: i32,
    pub span_start_time: i64,
    pub slider_object_type: SliderObjectType,
}

/// The kinds of slider sub-events.
#[derive(Clone, Copy, Debug, PartialEq, Eq, Structural)]
pub enum SliderObjectType {
    SliderHead,
    SliderTick,
    SliderRepeat,
    SliderEnd,
}

/// One playable event of a beatmap.
#[derive(Clone, Debug)]
pub struct HitObject {
    pub x: i64,
    pub y: i64,
    pub position: Vector2,
    pub end_position: Vector2,
    pub start_time: i64,
    pub end_time: i64,
    pub hit_sound: i32,
    pub hit_type: i32,
    pub stack_height: i32,
    pub slider_data: Option<SliderData>,
    pub slider_objects: Option<Vec<SliderObject>>,
    pub extra_data: Option<HitObjectExtra>,
}

} // verus!
