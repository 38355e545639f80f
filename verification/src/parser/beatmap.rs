//! The beatmap aggregate and its parser.

pub mod curves;
pub mod objects;
pub mod slider;
pub mod stacking;
pub mod timing;

use vstd::prelude::*;

use crate::fx::{
    fx_abs, fx_add, fx_div, fx_max, fx_mul, fx_of_int, fx_sub, spec_fx_abs, spec_fx_div,
    spec_fx_mul, spec_fx_sub, SCALE,
};
use crate::game::Gamemode;
use crate::parser::beatmap::objects::{
    is_hold_bits, is_slider_bits, is_spinner_bits, CurveType, HitObject, HitObjectExtra,
    HitSample, InheritedTimingPoint, SliderData, TimingPoint, TimingPointType,
    UninheritedTimingPoint,
};
use crate::parser::beatmap::timing::{
    lemma_resolve_total, resolve_index, spec_resolve_idx,
};
use crate::parser::text::{
    contains_char, has_prefix, lines_of, match_key_value, match_section_header, parse_fx_or_zero,
    parse_int, parse_int32_or_zero, piece_at, spec_fx_or_zero,
    spec_int32_or_zero, spec_split, split_str, split_words, str_eq,
};
use crate::util::Vector2;

verus! {

/// What can go wrong while reading a beatmap.
#[derive(Clone, Copy, Debug, PartialEq, Eq, Structural)]
pub enum ParseError {
    /// The source file could not be read at all.
    IoError,
    /// A version or section line could not be read.
    MalformedHeader,
    /// A mandatory positional field is missing or non-numeric.
    MalformedField,
    /// The slider bit is set but the descriptor field is absent or empty.
    MalformedSliderDescriptor,
}

/// An error together with the index of the offending line.
#[derive(Clone, Copy, Debug, PartialEq, Eq, Structural)]
pub struct LineError {
    pub line: usize,
    pub error: ParseError,
}

/// Free-form metadata of a beatmap.
#[derive(Clone, Debug)]
pub struct Metadata {
    pub tags: Vec<String>,
    pub preview_time: i32,
}

/// Audio-related metadata.
#[derive(Clone, Debug)]
pub struct AudioMetadata {
    pub filename: String,
    pub lead_in: i32,
}

/// Difficulty parameters; the fractional ones are fixed-point values.
#[derive(Clone, Copy, Debug, PartialEq, Eq, Structural)]
pub struct DifficultyMetadata {
    pub hp_drain: i64,
    pub circle_size: i64,
    pub overall_difficulty: i64,
    pub approach_rate: i64,
    pub slider_multiplier: i64,
    pub slider_tickrate: i64,
}

/// One parsed beatmap: metadata, timing points and hit objects.
#[derive(Clone, Debug)]
pub struct BeatmapFile {
    pub format_version: i32,
    pub title: String,
    pub title_unicode: String,
    pub artist: String,
    pub artist_unicode: String,
    pub gamemode: Gamemode,
    pub timing_points: Vec<TimingPoint>,
    pub uninherited_points: Vec<UninheritedTimingPoint>,
    pub inherited_points: Vec<InheritedTimingPoint>,
    pub difficulty_name: String,
    pub stack_leniency: i64,
    pub hit_objects: Vec<HitObject>,
    pub audio: AudioMetadata,
    pub difficulty: DifficultyMetadata,
    pub metadata: Metadata,
}

impl Default for BeatmapFile {
    /// The empty beatmap every parse starts from.
    fn default() -> (r: Self)
        ensures
            r.format_version == 0,
            r.title@ == Seq::<char>::empty(),
            r.title_unicode@ == Seq::<char>::empty(),
            r.artist@ == Seq::<char>::empty(),
            r.artist_unicode@ == Seq::<char>::empty(),
            r.gamemode == Gamemode::Standard,
            r.timing_points@.len() == 0,
            r.uninherited_points@.len() == 0,
            r.inherited_points@.len() == 0,
            r.difficulty_name@ == Seq::<char>::empty(),
            r.stack_leniency == 0,
            r.hit_objects@.len() == 0,
            r.audio.filename@ == Seq::<char>::empty(),
            r.audio.lead_in == 0,
            r.difficulty.hp_drain == 0,
            r.difficulty.circle_size == 0,
            r.difficulty.overall_difficulty == 0,
            r.difficulty.approach_rate == 0,
            r.difficulty.slider_multiplier == 0,
            r.difficulty.slider_tickrate == 0,
            r.metadata.tags@.len() == 0,
            r.metadata.preview_time == 0,
    {
        BeatmapFile {
            format_version: 0,
            title: String::new(),
            title_unicode: String::new(),
            artist: String::new(),
            artist_unicode: String::new(),
            gamemode: Gamemode::Standard,
            timing_points: Vec::new(),
            uninherited_points: Vec::new(),
            inherited_points: Vec::new(),
            difficulty_name: String::new(),
            stack_leniency: 0,
            hit_objects: Vec::new(),
            audio: AudioMetadata { filename: String::new(), lead_in: 0 },
            difficulty: DifficultyMetadata {
                hp_drain: 0,
                circle_size: 0,
                overall_difficulty: 0,
                approach_rate: 0,
                slider_multiplier: 0,
                slider_tickrate: 0,
            },
            metadata: Metadata { tags: Vec::new(), preview_time: 0 },
        }
    }
}

/// The derived speed multiplier of a timing point: `100 / |beatLength|`
/// when the beat length is negative, else one.
pub open spec fn spec_speed_multiplier(beat_length: int) -> int {
    if beat_length < 0 {
        spec_fx_div(100 * (SCALE as int), crate::fx::clip(-beat_length))
    } else {
        SCALE as int
    }
}

/// Compute a timing point's speed multiplier from its beat length.
pub fn speed_multiplier_of(beat_length: i64) -> (r: i64)
    ensures
        r as int == spec_speed_multiplier(beat_length as int),
{
    if beat_length < 0 {
        let mag: i64 = crate::fx::fx_sub(0, beat_length);
        crate::fx::fx_div(10000000, mag)
    } else {
        SCALE
    }
}

impl BeatmapFile {
    /// The combined-list point governing `time`.
    pub fn get_timing_point(&self, time: i64) -> (r: TimingPoint)
        requires
            self.timing_points@.len() > 0,
        ensures
            r == self.timing_points@[spec_resolve_idx(
                self.timing_points@.map_values(|p: TimingPoint| p.time as int),
                time as int,
            )],
            exists|i: int| 0 <= i < self.timing_points@.len() && r == self.timing_points@[i],
            forall|i: int|
                0 <= i < self.timing_points@.len() && (#[trigger] self.timing_points@[i]).time <= time
                    ==> self.timing_points@[i].time <= r.time,
            (exists|i: int|
                0 <= i < self.timing_points@.len() && (#[trigger] self.timing_points@[i]).time <= time)
                ==> r.time <= time,
            (forall|i: int|
                0 <= i < self.timing_points@.len() ==> (#[trigger] self.timing_points@[i]).time > time) ==> (
            forall|i: int|
                0 <= i < self.timing_points@.len() ==> r.time <= (#[trigger] self.timing_points@[i]).time),
    {
        let ghost ts = self.timing_points@.map_values(|p: TimingPoint| p.time as int);
        let n: usize = self.timing_points.len();
        let mut times: Vec<i64> = Vec::new();
        let mut i: usize = 0;
        while i < n
            invariant
                0 <= i <= n == self.timing_points@.len(),
                times@.len() == i,
                forall|j: int| 0 <= j < i ==> times@[j] == self.timing_points@[j].time,
            decreases n - i,
        {
            times.push(self.timing_points[i].time);
            i = i + 1;
        }
        proof {
            assert(times@.map_values(|x: i64| x as int) =~= ts);
            lemma_resolve_total(ts, time as int);
            crate::parser::beatmap::timing::lemma_gov_idx_props(ts, time as int, ts.len() as int);
            crate::parser::beatmap::timing::lemma_min_idx_props(ts, ts.len() as int);
            assert forall|i: int| 0 <= i < self.timing_points@.len() implies ts[i] == (
            #[trigger] self.timing_points@[i]).time as int by {
                assert(self.timing_points@.map_values(|p: TimingPoint| p.time as int)[i] == self.timing_points@[i].time as int);
            }
            let g = crate::parser::beatmap::timing::gov_idx(ts, time as int, ts.len() as int);
            if g >= 0 {
                assert(spec_resolve_idx(ts, time as int) == g);
                assert(ts[g] <= time as int);
            } else {
                assert(spec_resolve_idx(ts, time as int) == crate::parser::beatmap::timing::min_idx(
                    ts,
                    ts.len() as int,
                ));
                assert(forall|i: int| 0 <= i < ts.len() ==> #[trigger] ts[i] > time as int);
            }
        }
        let idx: usize = resolve_index(&times, time);
        self.timing_points[idx]
    }

    /// The tempo-defining point governing `time`.
    pub fn get_uninherited_timing_point(&self, time: i64) -> (r: UninheritedTimingPoint)
        requires
            self.uninherited_points@.len() > 0,
        ensures
            r == self.uninherited_points@[spec_resolve_idx(
                self.uninherited_points@.map_values(|p: UninheritedTimingPoint| p.time as int),
                time as int,
            )],
            exists|i: int| 0 <= i < self.uninherited_points@.len() && r == self.uninherited_points@[i],
            forall|i: int|
                0 <= i < self.uninherited_points@.len() && (#[trigger] self.uninherited_points@[i]).time <= time
                    ==> self.uninherited_points@[i].time <= r.time,
            (exists|i: int|
                0 <= i < self.uninherited_points@.len() && (#[trigger] self.uninherited_points@[i]).time <= time)
                ==> r.time <= time,
            (forall|i: int|
                0 <= i < self.uninherited_points@.len() ==> (#[trigger] self.uninherited_points@[i]).time > time) ==> (
            forall|i: int|
                0 <= i < self.uninherited_points@.len() ==> r.time <= (#[trigger] self.uninherited_points@[i]).time),
    {
        let ghost ts = self.uninherited_points@.map_values(
            |p: UninheritedTimingPoint| p.time as int,
        );
        let n: usize = self.uninherited_points.len();
        let mut times: Vec<i64> = Vec::new();
        let mut i: usize = 0;
        while i < n
            invariant
                0 <= i <= n == self.uninherited_points@.len(),
                times@.len() == i,
                forall|j: int| 0 <= j < i ==> times@[j] == self.uninherited_points@[j].time,
            decreases n - i,
        {
            times.push(self.uninherited_points[i].time);
            i = i + 1;
        }
        proof {
            assert(times@.map_values(|x: i64| x as int) =~= ts);
            lemma_resolve_total(ts, time as int);
            crate::parser::beatmap::timing::lemma_gov_idx_props(ts, time as int, ts.len() as int);
            crate::parser::beatmap::timing::lemma_min_idx_props(ts, ts.len() as int);
            assert forall|i: int| 0 <= i < self.uninherited_points@.len() implies ts[i] == (
            #[trigger] self.uninherited_points@[i]).time as int by {
                assert(self.uninherited_points@.map_values(|p: UninheritedTimingPoint| p.time as int)[i] == self.uninherited_points@[i].time as int);
            }
            let g = crate::parser::beatmap::timing::gov_idx(ts, time as int, ts.len() as int);
            if g >= 0 {
                assert(spec_resolve_idx(ts, time as int) == g);
                assert(ts[g] <= time as int);
            } else {
                assert(spec_resolve_idx(ts, time as int) == crate::parser::beatmap::timing::min_idx(
                    ts,
                    ts.len() as int,
                ));
                assert(forall|i: int| 0 <= i < ts.len() ==> #[trigger] ts[i] > time as int);
            }
        }
        let idx: usize = resolve_index(&times, time);
        self.uninherited_points[idx]
    }

    /// The multiplier-only point governing `time`.
    pub fn get_inherited_timing_point(&self, time: i64) -> (r: InheritedTimingPoint)
        requires
            self.inherited_points@.len() > 0,
        ensures
            r == self.inherited_points@[spec_resolve_idx(
                self.inherited_points@.map_values(|p: InheritedTimingPoint| p.time as int),
                time as int,
            )],
            exists|i: int| 0 <= i < self.inherited_points@.len() && r == self.inherited_points@[i],
            forall|i: int|
                0 <= i < self.inherited_points@.len() && (#[trigger] self.inherited_points@[i]).time <= time
                    ==> self.inherited_points@[i].time <= r.time,
            (exists|i: int|
                0 <= i < self.inherited_points@.len() && (#[trigger] self.inherited_points@[i]).time <= time)
                ==> r.time <= time,
            (forall|i: int|
                0 <= i < self.inherited_points@.len() ==> (#[trigger] self.inherited_points@[i]).time > time) ==> (
            forall|i: int|
                0 <= i < self.inherited_points@.len() ==> r.time <= (#[trigger] self.inherited_points@[i]).time),
    {
        let ghost ts = self.inherited_points@.map_values(|p: InheritedTimingPoint| p.time as int);
        let n: usize = self.inherited_points.len();
        let mut times: Vec<i64> = Vec::new();
        let mut i: usize = 0;
        while i < n
            invariant
                0 <= i <= n == self.inherited_points@.len(),
                times@.len() == i,
                forall|j: int| 0 <= j < i ==> times@[j] == self.inherited_points@[j].time,
            decreases n - i,
        {
            times.push(self.inherited_points[i].time);
            i = i + 1;
        }
        proof {
            assert(times@.map_values(|x: i64| x as int) =~= ts);
            lemma_resolve_total(ts, time as int);
            crate::parser::beatmap::timing::lemma_gov_idx_props(ts, time as int, ts.len() as int);
            crate::parser::beatmap::timing::lemma_min_idx_props(ts, ts.len() as int);
            assert forall|i: int| 0 <= i < self.inherited_points@.len() implies ts[i] == (
            #[trigger] self.inherited_points@[i]).time as int by {
                assert(self.inherited_points@.map_values(|p: InheritedTimingPoint| p.time as int)[i] == self.inherited_points@[i].time as int);
            }
            let g = crate::parser::beatmap::timing::gov_idx(ts, time as int, ts.len() as int);
            if g >= 0 {
                assert(spec_resolve_idx(ts, time as int) == g);
                assert(ts[g] <= time as int);
            } else {
                assert(spec_resolve_idx(ts, time as int) == crate::parser::beatmap::timing::min_idx(
                    ts,
                    ts.len() as int,
                ));
                assert(forall|i: int| 0 <= i < ts.len() ==> #[trigger] ts[i] > time as int);
            }
        }
        let idx: usize = resolve_index(&times, time);
        self.inherited_points[idx]
    }
}


/// Which section's handler a body line goes to.
#[derive(Clone, Copy, Debug, PartialEq, Eq, Structural)]
pub enum Section {
    Outside,
    General,
    Difficulty,
    Meta,
    TimingPoints,
    HitObjects,
    Unknown,
}

/// Everything the line router determines, read off the line stream alone:
/// the current section, the format version, the three timing lists with
/// their provenance, the reported errors, and which lines became hit
/// objects. `from_str` returns exactly this trace, plus the per-object
/// geometry.
pub struct RouteState {
    pub section: Section,
    pub version: int,
    pub combined: Seq<TimingPoint>,
    pub uninherited: Seq<UninheritedTimingPoint>,
    pub inherited: Seq<InheritedTimingPoint>,
    pub last_uninherited: UninheritedTimingPoint,
    pub errors: Seq<LineError>,
    pub object_lines: Seq<int>,
}

/// The router's starting state.
pub open spec fn spec_route_init() -> RouteState {
    RouteState {
        section: Section::Outside,
        version: 0,
        combined: Seq::<TimingPoint>::empty(),
        uninherited: Seq::<UninheritedTimingPoint>::empty(),
        inherited: Seq::<InheritedTimingPoint>::empty(),
        last_uninherited: UninheritedTimingPoint { time: 0, beat_length: 0, time_signature: 4 },
        errors: Seq::<LineError>::empty(),
        object_lines: Seq::<int>::empty(),
    }
}

/// Is the line a comment?
pub open spec fn spec_is_comment(line: Seq<char>) -> bool {
    line.len() >= "//"@.len() && line.subrange(0, "//"@.len() as int) == "//"@
}

/// Does the line carry the format-version marker?
pub open spec fn spec_is_version_line(line: Seq<char>) -> bool {
    line.len() >= "osu file format v"@.len() && line.subrange(
        0,
        "osu file format v"@.len() as int,
    ) == "osu file format v"@
}

/// The section a header name selects.
pub open spec fn spec_section_of(name: Seq<char>) -> Section {
    if name == "General"@ {
        Section::General
    } else if name == "Difficulty"@ {
        Section::Difficulty
    } else if name == "Metadata"@ {
        Section::Meta
    } else if name == "TimingPoints"@ {
        Section::TimingPoints
    } else if name == "HitObjects"@ {
        Section::HitObjects
    } else {
        Section::Unknown
    }
}

/// A version line's effect: the parsed suffix becomes the version; a suffix
/// that does not fit defaults to zero and reports a malformed header.
pub open spec fn spec_version_update(st: RouteState, line: Seq<char>, idx: int) -> RouteState {
    let suffix = line.subrange("osu file format v"@.len() as int, line.len() as int);
    match crate::parser::text::spec_parse_int(suffix) {
        Some(m) => if -2147483648 <= m <= 2147483647 {
            RouteState { version: m, ..st }
        } else {
            RouteState {
                version: 0,
                errors: st.errors.push(
                    LineError { line: idx as usize, error: ParseError::MalformedHeader },
                ),
                ..st
            }
        },
        None => RouteState {
            version: 0,
            errors: st.errors.push(
                LineError { line: idx as usize, error: ParseError::MalformedHeader },
            ),
            ..st
        },
    }
}

/// A timing-point line's effect: lines of fewer than two fields do nothing;
/// otherwise the point is classified uninherited exactly when the seventh
/// field equals one, appended to its split list and to the combined list
/// with the derived multiplier, and an inherited point records the most
/// recently seen uninherited point.
pub open spec fn spec_timing_update(st: RouteState, line: Seq<char>) -> RouteState {
    let parts = spec_split(line, ',');
    if parts.len() < 2 {
        st
    } else {
        let time = if st.version < 5 {
            crate::fx::spec_fx_add(spec_fx_or_zero(parts[0]), 2400000)
        } else {
            spec_fx_or_zero(parts[0])
        };
        let bl = spec_fx_or_zero(parts[1]);
        let sig = if parts.len() >= 3 {
            if spec_int32_or_zero(parts[2]) == 0 {
                4int
            } else {
                spec_int32_or_zero(parts[2])
            }
        } else {
            4int
        };
        let flag = parts.len() >= 7 && spec_int32_or_zero(parts[6]) == 1;
        let mult = spec_speed_multiplier(bl);
        if flag {
            let up = UninheritedTimingPoint {
                time: time as i64,
                beat_length: bl as i64,
                time_signature: sig as i32,
            };
            RouteState {
                combined: st.combined.push(
                    TimingPoint {
                        time: time as i64,
                        beat_length: bl as i64,
                        time_signature: sig as i32,
                        speed_multiplier: mult as i64,
                        point_type: TimingPointType::Uninherited,
                    },
                ),
                uninherited: st.uninherited.push(up),
                last_uninherited: up,
                ..st
            }
        } else {
            RouteState {
                combined: st.combined.push(
                    TimingPoint {
                        time: time as i64,
                        beat_length: bl as i64,
                        time_signature: sig as i32,
                        speed_multiplier: mult as i64,
                        point_type: TimingPointType::Inherited,
                    },
                ),
                inherited: st.inherited.push(
                    InheritedTimingPoint {
                        time: time as i64,
                        speed_multiplier: mult as i64,
                        inherited_from: st.last_uninherited,
                    },
                ),
                ..st
            }
        }
    }
}

/// An object line's effect: missing or non-numeric base fields report a
/// malformed field; a set slider bit without a descriptor reports a
/// malformed descriptor; otherwise the line joins the object list.
pub open spec fn spec_objects_update(st: RouteState, line: Seq<char>, idx: int) -> RouteState {
    let parts = spec_split(line, ',');
    if !spec_base_fields_ok(parts) {
        RouteState {
            errors: st.errors.push(
                LineError { line: idx as usize, error: ParseError::MalformedField },
            ),
            ..st
        }
    } else if crate::parser::beatmap::objects::spec_is_slider(
        spec_int32_or_zero(parts[3]) as i32,
    ) && (parts.len() <= 5 || parts[5].len() == 0) {
        RouteState {
            errors: st.errors.push(
                LineError { line: idx as usize, error: ParseError::MalformedSliderDescriptor },
            ),
            ..st
        }
    } else {
        RouteState { object_lines: st.object_lines.push(idx), ..st }
    }
}

/// One line through the router: comments do nothing; a version marker sets
/// the version; a header switches the section; otherwise the current
/// section's handler runs.
pub open spec fn spec_route_step(st: RouteState, line: Seq<char>, idx: int) -> RouteState {
    if spec_is_comment(line) {
        st
    } else {
        let st1 = if spec_is_version_line(line) {
            spec_version_update(st, line, idx)
        } else {
            st
        };
        match crate::parser::text::spec_section_header(line) {
            Some(name) => RouteState { section: spec_section_of(name), ..st1 },
            None => {
                if st1.section == Section::TimingPoints {
                    spec_timing_update(st1, line)
                } else if st1.section == Section::HitObjects {
                    spec_objects_update(st1, line, idx)
                } else {
                    st1
                }
            },
        }
    }
}

/// The router's state after the first `n` lines.
pub open spec fn spec_route(lines: Seq<Seq<char>>, n: int) -> RouteState
    decreases n,
    when 0 <= n <= lines.len()
{
    if n <= 0 {
        spec_route_init()
    } else {
        spec_route_step(spec_route(lines, n - 1), lines[n - 1], n - 1)
    }
}

/// The repeat count of a slider line: the seventh field minus one, floored
/// at zero, zero when the field is absent or malformed.
pub open spec fn spec_repeat_count(parts: Seq<Seq<char>>) -> int {
    let raw = if parts.len() > 6 {
        spec_int32_or_zero(parts[6])
    } else {
        0int
    };
    if raw - 1 < 0 {
        0int
    } else {
        raw - 1
    }
}

/// The declared pixel length of a slider line: the eighth field, floored
/// at zero, zero when absent.
pub open spec fn spec_expected_length(parts: Seq<Seq<char>>) -> int {
    let sl = if parts.len() > 7 {
        spec_fx_or_zero(parts[7])
    } else {
        0int
    };
    if sl >= 0 {
        sl
    } else {
        0int
    }
}

/// The sample fields of a returned hit object, read from the line's last
/// colon-separated field; a hold object's end time occupies the first piece,
/// shifting the sample by one; a spinner without sample data gets the silent
/// default.
pub open spec fn spec_extra_matches(o: HitObject, parts: Seq<Seq<char>>) -> bool {
    let last = parts[parts.len() - 1];
    let has_colon = exists|k: int| 0 <= k < last.len() && last[k] == ':';
    o.extra_data matches Some(e) ==> {
        let t = spec_split(last, ':');
        let off: int = if crate::parser::beatmap::objects::spec_is_hold(o.hit_type) {
            1
        } else {
            0
        };
        if has_colon {
            &&& e.hit_sample.normal_set as int == spec_int32_or_zero(piece_at(t, off))
            &&& e.hit_sample.additional_set as int == spec_int32_or_zero(piece_at(t, off + 1))
            &&& e.hit_sample.index as int == spec_int32_or_zero(piece_at(t, off + 2))
            &&& e.hit_sample.volume as int == spec_int32_or_zero(piece_at(t, off + 3))
            &&& e.hit_sample.file_name@ == piece_at(t, off + 4)
        } else {
            &&& e.hit_sample.normal_set == 0
            &&& e.hit_sample.additional_set == 0
            &&& e.hit_sample.index == 0
            &&& e.hit_sample.volume == 0
            &&& e.hit_sample.file_name@ == Seq::<char>::empty()
        }
    }
}

/// How a returned hit object relates to its source line: the base fields
/// are the line's, read exactly as `parse_hit_object_line` fixes them, and
/// a slider additionally carries its descriptor's control points, the
/// reclassified curve type, a well-formed resampled body bounded by the
/// declared length, and at least head and end sub-objects sorted by time.
/// The stack height is the resolver's, stated separately.
pub open spec fn spec_object_matches(o: HitObject, line: Seq<char>) -> bool {
    let parts = spec_split(line, ',');
    let last = parts[parts.len() - 1];
    let has_colon = exists|k: int| 0 <= k < last.len() && last[k] == ':';
    &&& spec_base_fields_ok(parts)
    &&& o.x as int == spec_fx_or_zero(parts[0])
    &&& o.y as int == spec_fx_or_zero(parts[1])
    &&& o.position == (Vector2 { x: o.x, y: o.y })
    &&& o.start_time as int == spec_fx_or_zero(parts[2])
    &&& o.hit_type as int == spec_int32_or_zero(parts[3])
    &&& o.hit_sound as int == spec_int32_or_zero(parts[4])
    &&& (o.extra_data is Some <==> has_colon || crate::parser::beatmap::objects::spec_is_spinner(
        o.hit_type,
    ))
    &&& spec_extra_matches(o, parts)
    &&& (!crate::parser::beatmap::objects::spec_is_slider(o.hit_type) ==> {
        &&& o.slider_data is None
        &&& o.slider_objects is None
        &&& o.end_position == (Vector2 { x: 0, y: 0 })
        &&& o.end_time as int == (if crate::parser::beatmap::objects::spec_is_spinner(o.hit_type) {
            if parts.len() > 5 {
                spec_fx_or_zero(parts[5])
            } else {
                0int
            }
        } else if crate::parser::beatmap::objects::spec_is_hold(o.hit_type) && has_colon {
            spec_fx_or_zero(piece_at(spec_split(last, ':'), 0))
        } else {
            0int
        })
    })
    &&& (crate::parser::beatmap::objects::spec_is_slider(o.hit_type) ==> {
        let dparts = spec_split(parts[5], '|');
        let t0 = spec_curve_type_default(piece_at(dparts, 0));
        let pts = spec_ctrl_points(dparts);
        let expected = spec_expected_length(parts);
        &&& parts.len() > 5
        &&& parts[5].len() > 0
        &&& (o.slider_data matches Some(sd) && {
            &&& sd.base_points@ == pts
            &&& sd.slider_points@.len() == pts.len() + 1
            &&& sd.slider_points@[0] == (Vector2 { x: 0, y: 0 })
            &&& (forall|j: int|
                0 <= j < pts.len() ==> sd.slider_points@[j + 1] == spec_rel_point(
                    #[trigger] pts[j],
                    o.position,
                ))
            &&& sd.curve_type == (if t0 == CurveType::PerfectCurve && sd.slider_points@.len() == 3
                && spec_collinear(
                sd.slider_points@[0],
                sd.slider_points@[1],
                sd.slider_points@[2],
            ) {
                CurveType::Linear
            } else {
                t0
            })
            &&& sd.slider_body.body@.len() >= 1
            &&& sd.slider_body.length@.len() == sd.slider_body.body@.len()
            &&& sd.slider_body.length@[0] == 0
            &&& (sd.curve_type == CurveType::Linear ==> sd.slider_body.body@
                == crate::parser::beatmap::slider::spec_resample(
                crate::parser::beatmap::slider::spec_dedup(sd.slider_points@),
                expected,
            ).0 && sd.slider_body.length@ == crate::parser::beatmap::slider::spec_resample(
                crate::parser::beatmap::slider::spec_dedup(sd.slider_points@),
                expected,
            ).1)
            &&& (forall|k: int|
                0 <= k < sd.slider_body.length@.len() ==> 0 <= #[trigger] sd.slider_body.length@[k]
                    <= expected)
            &&& (forall|k: int|
                0 <= k < sd.slider_body.length@.len() - 1 ==> #[trigger] sd.slider_body.length@[k]
                    <= sd.slider_body.length@[k + 1])
            &&& (sd.slider_body.length@[sd.slider_body.length@.len() - 1] == expected || (
            sd.slider_body.length@[sd.slider_body.length@.len() - 1]
                == crate::parser::beatmap::slider::spec_acc_len(sd.slider_body.body@) && (
            sd.slider_body.body@.len() == 1 || crate::parser::beatmap::slider::spec_dist(
                sd.slider_body.body@[sd.slider_body.body@.len() - 2],
                sd.slider_body.body@[sd.slider_body.body@.len() - 1],
            ) == 0)))
            &&& o.end_position == (Vector2 {
                x: crate::fx::spec_fx_add(
                    o.position.x as int,
                    crate::parser::beatmap::slider::spec_position_at(
                        sd.slider_body.body@,
                        sd.slider_body.length@,
                        expected as i64,
                    ).x as int,
                ) as i64,
                y: crate::fx::spec_fx_add(
                    o.position.y as int,
                    crate::parser::beatmap::slider::spec_position_at(
                        sd.slider_body.body@,
                        sd.slider_body.length@,
                        expected as i64,
                    ).y as int,
                ) as i64,
            })
        })
        &&& (o.slider_objects matches Some(so) && so@.len() >= 2
            && crate::parser::beatmap::slider::spec_sorted_by_time(so@)
            && crate::parser::beatmap::slider::kind_count(
            so@,
            crate::parser::beatmap::objects::SliderObjectType::SliderHead,
        ) == 1 && crate::parser::beatmap::slider::kind_count(
            so@,
            crate::parser::beatmap::objects::SliderObjectType::SliderEnd,
        ) == 1 && crate::parser::beatmap::slider::kind_count(
            so@,
            crate::parser::beatmap::objects::SliderObjectType::SliderRepeat,
        ) == spec_repeat_count(parts))
    })
}

proof fn lemma_object_matches_stack(o1: HitObject, o2: HitObject, line: Seq<char>)
    requires
        spec_object_matches(o1, line),
        o2.x == o1.x,
        o2.y == o1.y,
        o2.position == o1.position,
        o2.end_position == o1.end_position,
        o2.start_time == o1.start_time,
        o2.end_time == o1.end_time,
        o2.hit_sound == o1.hit_sound,
        o2.hit_type == o1.hit_type,
        o2.slider_data == o1.slider_data,
        o2.slider_objects == o1.slider_objects,
        o2.extra_data == o1.extra_data,
    ensures
        spec_object_matches(o2, line),
{
}

/// The sample a colon-separated piece list denotes, from `off` on.
fn sample_from_parts(parts: &Vec<String>, off: usize) -> (r: HitSample)
    requires
        off <= 1,
    ensures
        r.normal_set as int == spec_int32_or_zero(
            piece_at(parts@.map_values(|t: String| t@), off as int),
        ),
        r.additional_set as int == spec_int32_or_zero(
            piece_at(parts@.map_values(|t: String| t@), off as int + 1),
        ),
        r.index as int == spec_int32_or_zero(
            piece_at(parts@.map_values(|t: String| t@), off as int + 2),
        ),
        r.volume as int == spec_int32_or_zero(
            piece_at(parts@.map_values(|t: String| t@), off as int + 3),
        ),
        r.file_name@ == piece_at(parts@.map_values(|t: String| t@), off as int + 4),
{
    let ghost ps = parts@.map_values(|t: String| t@);
    let normal_set: i32 = if off < parts.len() {
        parse_int32_or_zero(parts[off].as_str())
    } else {
        0
    };
    let additional_set: i32 = if off + 1 < parts.len() {
        parse_int32_or_zero(parts[off + 1].as_str())
    } else {
        0
    };
    let index: i32 = if off + 2 < parts.len() {
        parse_int32_or_zero(parts[off + 2].as_str())
    } else {
        0
    };
    let volume: i32 = if off + 3 < parts.len() {
        parse_int32_or_zero(parts[off + 3].as_str())
    } else {
        0
    };
    let file_name: String = if off + 4 < parts.len() {
        parts[off + 4].as_str().to_owned()
    } else {
        String::new()
    };
    HitSample { normal_set, additional_set, index, volume, file_name }
}

impl BeatmapFile {
    /// Read colon-separated sample metadata: `set:set:index:volume:filename`,
    /// each numeric field zero when absent or malformed, the name empty when
    /// absent.
    pub fn parse_hitsample(val: &str) -> (r: HitSample)
        ensures
            r.normal_set as int == spec_int32_or_zero(piece_at(spec_split(val@, ':'), 0)),
            r.additional_set as int == spec_int32_or_zero(piece_at(spec_split(val@, ':'), 1)),
            r.index as int == spec_int32_or_zero(piece_at(spec_split(val@, ':'), 2)),
            r.volume as int == spec_int32_or_zero(piece_at(spec_split(val@, ':'), 3)),
            r.file_name@ == piece_at(spec_split(val@, ':'), 4),
    {
        let parts: Vec<String> = split_str(val, ':');
        sample_from_parts(&parts, 0)
    }
}

/// Are the five mandatory leading fields of an object line present and
/// numeric: position, start time, type bit-set, hit-sound bit-set?
pub open spec fn spec_base_fields_ok(parts: Seq<Seq<char>>) -> bool {
    &&& parts.len() >= 5
    &&& crate::parser::text::spec_parse_fx(parts[0]) is Some
    &&& crate::parser::text::spec_parse_fx(parts[1]) is Some
    &&& crate::parser::text::spec_parse_fx(parts[2]) is Some
    &&& (match crate::parser::text::spec_parse_int(parts[3]) {
        Some(m) => -2147483648 <= m <= 2147483647,
        None => false,
    })
    &&& (match crate::parser::text::spec_parse_int(parts[4]) {
        Some(m) => -2147483648 <= m <= 2147483647,
        None => false,
    })
}

impl BeatmapFile {
    /// Build the base hit object of one comma-split object line: position,
    /// times, type and sound bit-sets, optional trailing sample metadata and
    /// a hold's end time. Slider geometry is attached separately. The stack
    /// height starts at zero. Lines whose five mandatory fields are absent
    /// or non-numeric are rejected.
    pub fn parse_hit_object_line(values: &Vec<String>) -> (r: Result<HitObject, ParseError>)
        ensures
            r is Err <==> !spec_base_fields_ok(values@.map_values(|t: String| t@)),
            r matches Err(e) ==> e == ParseError::MalformedField,
            r matches Ok(o) ==> {
                let parts = values@.map_values(|t: String| t@);
                let last = parts[parts.len() - 1];
                let has_colon = exists|k: int| 0 <= k < last.len() && last[k] == ':';
                &&& o.x as int == spec_fx_or_zero(parts[0])
                &&& o.y as int == spec_fx_or_zero(parts[1])
                &&& o.position == (Vector2 { x: o.x, y: o.y })
                &&& o.end_position == (Vector2 { x: 0, y: 0 })
                &&& o.start_time as int == spec_fx_or_zero(parts[2])
                &&& o.hit_type as int == spec_int32_or_zero(parts[3])
                &&& o.hit_sound as int == spec_int32_or_zero(parts[4])
                &&& o.stack_height == 0
                &&& o.slider_data is None
                &&& o.slider_objects is None
                &&& o.end_time as int == (if crate::parser::beatmap::objects::spec_is_spinner(
                    o.hit_type,
                ) {
                    if parts.len() > 5 {
                        spec_fx_or_zero(parts[5])
                    } else {
                        0int
                    }
                } else if crate::parser::beatmap::objects::spec_is_hold(o.hit_type) && has_colon {
                    spec_fx_or_zero(piece_at(spec_split(last, ':'), 0))
                } else {
                    0int
                })
                &&& (o.extra_data is Some <==> has_colon || crate::parser::beatmap::objects::spec_is_spinner(
                    o.hit_type,
                ))
                &&& spec_extra_matches(o, parts)
            },
    {
        let n: usize = values.len();
        if n < 5 {
            return Err(ParseError::MalformedField);
        }
        let x: i64 = match crate::parser::text::parse_fx(values[0].as_str()) {
            Some(v) => v,
            None => {
                return Err(ParseError::MalformedField);
            },
        };
        let y: i64 = match crate::parser::text::parse_fx(values[1].as_str()) {
            Some(v) => v,
            None => {
                return Err(ParseError::MalformedField);
            },
        };
        let start_time: i64 = match crate::parser::text::parse_fx(values[2].as_str()) {
            Some(v) => v,
            None => {
                return Err(ParseError::MalformedField);
            },
        };
        let hit_type: i32 = match parse_int(values[3].as_str()) {
            Some(v) => {
                if -2147483648 <= v && v <= 2147483647 {
                    v as i32
                } else {
                    return Err(ParseError::MalformedField);
                }
            },
            None => {
                return Err(ParseError::MalformedField);
            },
        };
        let hit_sound: i32 = match parse_int(values[4].as_str()) {
            Some(v) => {
                if -2147483648 <= v && v <= 2147483647 {
                    v as i32
                } else {
                    return Err(ParseError::MalformedField);
                }
            },
            None => {
                return Err(ParseError::MalformedField);
            },
        };
        let mut base: HitObject = HitObject {
            x,
            y,
            position: Vector2 { x, y },
            end_position: Vector2 { x: 0, y: 0 },
            start_time,
            end_time: 0,
            hit_sound,
            hit_type,
            stack_height: 0,
            slider_data: None,
            slider_objects: None,
            extra_data: None,
        };
        let last: &String = &values[n - 1];
        proof {
            assert(values@.map_values(|t: String| t@)[n as int - 1] == values@[n as int - 1]@);
        }
        if contains_char(last.as_str(), ':') {
            let t: Vec<String> = split_str(last.as_str(), ':');
            proof {
                assert(t@.map_values(|x: String| x@) == spec_split(last@, ':'));
                assert(piece_at(spec_split(last@, ':'), 0) == t@.map_values(|x: String| x@)[0]);
                assert(t@.map_values(|x: String| x@)[0] == t@[0]@);
            }
            if is_hold_bits(base.hit_type) {
                let end_time: i64 = if t.len() > 0 {
                    parse_fx_or_zero(t[0].as_str())
                } else {
                    0
                };
                base.end_time = end_time;
                base.extra_data = Some(HitObjectExtra { hit_sample: sample_from_parts(&t, 1) });
            } else {
                base.extra_data = Some(HitObjectExtra { hit_sample: sample_from_parts(&t, 0) });
            }
        }
        if is_spinner_bits(base.hit_type) {
            base.end_time = if n > 5 {
                parse_fx_or_zero(values[5].as_str())
            } else {
                0
            };
            if base.extra_data.is_none() {
                if contains_char(last.as_str(), ':') {
                    base.extra_data = Some(
                        HitObjectExtra { hit_sample: Self::parse_hitsample(last.as_str()) },
                    );
                } else {
                    base.extra_data = Some(HitObjectExtra { hit_sample: HitSample::default() });
                }
            }
        }
        Ok(base)
    }
}

/// The control points of a pipe-split slider descriptor: one point for each
/// piece holding a colon, read as `x:y` with zero fallbacks.
pub open spec fn spec_ctrl_points(parts: Seq<Seq<char>>) -> Seq<Vector2>
    decreases parts.len(),
{
    if parts.len() == 0 {
        Seq::<Vector2>::empty()
    } else {
        let p = spec_ctrl_points(parts.drop_last());
        let piece = parts[parts.len() - 1];
        if exists|k: int| 0 <= k < piece.len() && piece[k] == ':' {
            let pd = spec_split(piece, ':');
            p.push(
                Vector2 {
                    x: spec_fx_or_zero(piece_at(pd, 0)) as i64,
                    y: spec_fx_or_zero(piece_at(pd, 1)) as i64,
                },
            )
        } else {
            p
        }
    }
}

proof fn lemma_ctrl_points_step(parts: Seq<Seq<char>>, j: int)
    requires
        0 <= j < parts.len(),
    ensures
        spec_ctrl_points(parts.take(j + 1)) == (if exists|k: int|
            0 <= k < parts[j].len() && parts[j][k] == ':' {
            spec_ctrl_points(parts.take(j)).push(
                Vector2 {
                    x: spec_fx_or_zero(piece_at(spec_split(parts[j], ':'), 0)) as i64,
                    y: spec_fx_or_zero(piece_at(spec_split(parts[j], ':'), 1)) as i64,
                },
            )
        } else {
            spec_ctrl_points(parts.take(j))
        }),
{
    let t = parts.take(j + 1);
    assert(t.drop_last() =~= parts.take(j));
    assert(t[t.len() - 1] == parts[j]);
}

/// A control point shifted to be relative to the object's anchor.
pub open spec fn spec_rel_point(p: Vector2, anchor: Vector2) -> Vector2 {
    Vector2 {
        x: spec_fx_sub(p.x as int, anchor.x as int) as i64,
        y: spec_fx_sub(p.y as int, anchor.y as int) as i64,
    }
}

/// Three nearly-collinear points: the cross-product magnitude of the two
/// edge vectors stays within the precision tolerance.
pub open spec fn spec_collinear(p1: Vector2, p2: Vector2, p3: Vector2) -> bool {
    spec_fx_abs(
        spec_fx_sub(
            0,
            spec_fx_sub(
                spec_fx_mul(
                    spec_fx_sub(p2.y as int, p1.y as int),
                    spec_fx_sub(p3.x as int, p1.x as int),
                ),
                spec_fx_mul(
                    spec_fx_sub(p2.x as int, p1.x as int),
                    spec_fx_sub(p3.y as int, p1.y as int),
                ),
            ),
        ),
    ) <= crate::parser::beatmap::curves::PRECISION_LENIENCE as int
}

/// The curve type a descriptor's first piece denotes; unrecognized codes
/// mean Catmull-Rom.
pub open spec fn spec_curve_type_default(piece: Seq<char>) -> CurveType {
    match crate::parser::beatmap::objects::spec_curve_type_of(piece) {
        Some(c) => c,
        None => CurveType::Catmull,
    }
}

impl BeatmapFile {
    /// Read a pipe-delimited slider descriptor: a one-letter curve code,
    /// then `x:y` control points, kept both absolute and relative to the
    /// anchor (the relative list starts with the zero point). A perfect
    /// circle over exactly three nearly-collinear relative points is
    /// reclassified as Linear.
    pub fn parse_slider_descriptor(descriptor: &str, anchor: Vector2) -> (r: (
        CurveType,
        Vec<Vector2>,
        Vec<Vector2>,
    ))
        ensures
            ({
                let parts = spec_split(descriptor@, '|');
                let t0 = spec_curve_type_default(piece_at(parts, 0));
                let pts = spec_ctrl_points(parts);
                &&& r.1@ == pts
                &&& r.2@.len() == pts.len() + 1
                &&& r.2@[0] == (Vector2 { x: 0, y: 0 })
                &&& (forall|j: int|
                    0 <= j < pts.len() ==> r.2@[j + 1] == spec_rel_point(#[trigger] pts[j], anchor))
                &&& r.0 == (if t0 == CurveType::PerfectCurve && r.2@.len() == 3 && spec_collinear(
                    r.2@[0],
                    r.2@[1],
                    r.2@[2],
                ) {
                    CurveType::Linear
                } else {
                    t0
                })
            }),
    {
        let parts: Vec<String> = split_str(descriptor, '|');
        let ghost ps = parts@.map_values(|t: String| t@);
        let t0: CurveType = match CurveType::from_str(parts[0].as_str()) {
            Ok(c) => c,
            Err(_) => CurveType::Catmull,
        };
        let mut base_points: Vec<Vector2> = Vec::new();
        let mut slider_points: Vec<Vector2> = Vec::new();
        slider_points.push(Vector2 { x: 0, y: 0 });
        proof {
            assert(ps.take(0) =~= Seq::<Seq<char>>::empty());
        }
        let m: usize = parts.len();
        let mut i: usize = 0;
        while i < m
            invariant
                0 <= i <= m == parts@.len(),
                ps == parts@.map_values(|t: String| t@),
                base_points@ == spec_ctrl_points(ps.take(i as int)),
                slider_points@.len() == base_points@.len() + 1,
                slider_points@[0] == (Vector2 { x: 0, y: 0 }),
                forall|j: int|
                    0 <= j < base_points@.len() ==> slider_points@[j + 1] == spec_rel_point(
                        #[trigger] base_points@[j],
                        anchor,
                    ),
            decreases m - i,
        {
            proof {
                lemma_ctrl_points_step(ps, i as int);
                assert(ps[i as int] == parts@[i as int]@);
            }
            let piece: &String = &parts[i];
            if contains_char(piece.as_str(), ':') {
                let pd: Vec<String> = split_str(piece.as_str(), ':');
                let px: i64 = if pd.len() > 0 {
                    parse_fx_or_zero(pd[0].as_str())
                } else {
                    0
                };
                let py: i64 = if pd.len() > 1 {
                    parse_fx_or_zero(pd[1].as_str())
                } else {
                    0
                };
                let p: Vector2 = Vector2 { x: px, y: py };
                base_points.push(p);
                slider_points.push(p.sub(anchor));
            }
            i = i + 1;
        }
        proof {
            assert(ps.take(m as int) =~= ps);
        }
        let curve_type: CurveType = if t0 == CurveType::PerfectCurve && slider_points.len() == 3 {
            let p1: Vector2 = slider_points[0];
            let p2: Vector2 = slider_points[1];
            let p3: Vector2 = slider_points[2];
            let cross: i64 = fx_sub(
                0,
                fx_sub(
                    fx_mul(fx_sub(p2.y, p1.y), fx_sub(p3.x, p1.x)),
                    fx_mul(fx_sub(p2.x, p1.x), fx_sub(p3.y, p1.y)),
                ),
            );
            if fx_abs(cross) <= crate::parser::beatmap::curves::PRECISION_LENIENCE {
                CurveType::Linear
            } else {
                CurveType::PerfectCurve
            }
        } else {
            t0
        };
        (curve_type, base_points, slider_points)
    }
}


impl BeatmapFile {
    /// Read the numeric fields of a comma-split timing-point line: the time
    /// (shifted by the legacy offset under old format versions), the beat
    /// length, the time signature (four when absent or zero) and whether the
    /// uninherited flag equals one.
    pub fn parse_timing_values(values: &Vec<String>, format_version: i32) -> (r: (
        i64,
        i64,
        i32,
        bool,
    ))
        requires
            values@.len() >= 2,
        ensures
            ({
                let parts = values@.map_values(|t: String| t@);
                &&& r.0 as int == (if format_version < 5 {
                    crate::fx::spec_fx_add(spec_fx_or_zero(parts[0]), 2400000)
                } else {
                    spec_fx_or_zero(parts[0])
                })
                &&& r.1 as int == spec_fx_or_zero(parts[1])
                &&& r.2 as int == (if parts.len() >= 3 {
                    if spec_int32_or_zero(parts[2]) == 0 {
                        4int
                    } else {
                        spec_int32_or_zero(parts[2])
                    }
                } else {
                    4int
                })
                &&& r.3 == (parts.len() >= 7 && spec_int32_or_zero(parts[6]) == 1)
            }),
    {
        let mut time: i64 = parse_fx_or_zero(values[0].as_str());
        if format_version < 5 {
            time = fx_add(time, 2400000);
        }
        let beat_length: i64 = parse_fx_or_zero(values[1].as_str());
        let time_signature: i32 = if values.len() >= 3 {
            let change: i32 = parse_int32_or_zero(values[2].as_str());
            if change == 0 {
                4
            } else {
                change
            }
        } else {
            4
        };
        let timing_change: bool = if values.len() >= 7 {
            parse_int32_or_zero(values[6].as_str()) == 1
        } else {
            false
        };
        (time, beat_length, time_signature, timing_change)
    }

    /// Derive a slider's timing from the governing point and the difficulty
    /// values: the scoring distance is a hundred times the slider multiplier
    /// times the point's speed multiplier; the velocity divides it by the
    /// point's beat length; the tick spacing divides it by the tick rate;
    /// the end time advances the start by spans times length over velocity.
    /// Returns velocity, tick spacing, end time and duration.
    pub fn derive_slider_timing(
        start_time: i64,
        expected: i64,
        repeat_count: i32,
        beat_length: i64,
        speed_multiplier: i64,
        slider_multiplier: i64,
        slider_tickrate: i64,
    ) -> (r: (i64, i64, i64, i64))
        requires
            0 <= repeat_count < i32::MAX,
        ensures
            ({
                let scoring = spec_fx_mul(
                    spec_fx_mul(10000000, slider_multiplier as int),
                    speed_multiplier as int,
                );
                &&& r.0 as int == spec_fx_div(scoring, beat_length as int)
                &&& r.1 as int == spec_fx_div(scoring, slider_tickrate as int)
                &&& r.2 as int == crate::fx::spec_fx_add(
                    start_time as int,
                    spec_fx_div(
                        spec_fx_mul(crate::fx::spec_fx_of_int(repeat_count as int + 1), expected as int),
                        r.0 as int,
                    ),
                )
                &&& r.3 as int == spec_fx_sub(r.2 as int, start_time as int)
            }),
    {
        let scoring_distance: i64 = fx_mul(fx_mul(10000000, slider_multiplier), speed_multiplier);
        let velocity: i64 = fx_div(scoring_distance, beat_length);
        let span_count: i32 = repeat_count + 1;
        let tick_distance: i64 = fx_div(scoring_distance, slider_tickrate);
        let end_time: i64 = fx_add(
            start_time,
            fx_div(fx_mul(fx_of_int(span_count as i64), expected), velocity),
        );
        let duration: i64 = fx_sub(end_time, start_time);
        (velocity, tick_distance, end_time, duration)
    }

    /// Parse a whole beatmap text. Lines flow through the section router,
    /// whose whole effect `spec_route` states exactly: the format version,
    /// the three timing lists (classification by the uninherited flag, the
    /// derived multiplier, an inherited point's provenance), the error list
    /// with each malformed line's index, and which lines became hit objects
    /// — each returned object relating to its source line as
    /// `spec_object_matches` fixes. Stacking then runs once: no height
    /// exceeds one, and a beatmap of plain circles keeps every height in
    /// `{0, 1}`.
    #[verifier::rlimit(100)]
    pub fn from_str(map_string: &str) -> (r: (BeatmapFile, Vec<LineError>))
        ensures
            ({
                let all = crate::parser::text::spec_lines(map_string@);
                let st = spec_route(all, all.len() as int);
                &&& r.0.format_version as int == st.version
                &&& r.0.timing_points@ == st.combined
                &&& r.0.uninherited_points@ == st.uninherited
                &&& r.0.inherited_points@ == st.inherited
                &&& r.1@ == st.errors
                &&& r.0.hit_objects@.len() == st.object_lines.len()
                &&& (forall|k: int|
                    0 <= k < st.object_lines.len() ==> 0 <= #[trigger] st.object_lines[k]
                        < all.len() && spec_object_matches(
                        r.0.hit_objects@[k],
                        all[st.object_lines[k]],
                    ))
            }),
            forall|k: int|
                0 <= k < r.0.timing_points@.len() ==> (
                #[trigger] r.0.timing_points@[k]).speed_multiplier as int == spec_speed_multiplier(
                    r.0.timing_points@[k].beat_length as int,
                ),
            r.0.timing_points@.len() == r.0.uninherited_points@.len()
                + r.0.inherited_points@.len(),
            forall|k: int|
                0 <= k < r.0.hit_objects@.len() ==> (#[trigger] r.0.hit_objects@[k]).stack_height
                    <= 1,
            (forall|k: int|
                0 <= k < r.0.hit_objects@.len() ==> (#[trigger] r.0.hit_objects@[k]).hit_type
                    != 2) ==> (forall|k: int|
                0 <= k < r.0.hit_objects@.len() ==> 0 <= (
                #[trigger] r.0.hit_objects@[k]).stack_height <= 1),
    {
        let lines: Vec<String> = lines_of(map_string);
        let ghost lseq = lines@.map_values(|t: String| t@);
        let mut beatmap: BeatmapFile = Default::default();
        let mut hit_objects: Vec<HitObject> = Vec::new();
        let mut errors: Vec<LineError> = Vec::new();
        let mut section: Section = Section::Outside;
        let mut last_uninherited: UninheritedTimingPoint = UninheritedTimingPoint {
            time: 0,
            beat_length: 0,
            time_signature: 4,
        };
        proof {
            assert(beatmap.timing_points@ =~= spec_route_init().combined);
            assert(beatmap.uninherited_points@ =~= spec_route_init().uninherited);
            assert(beatmap.inherited_points@ =~= spec_route_init().inherited);
            assert(errors@ =~= spec_route_init().errors);
        }
        let nlines: usize = lines.len();
        let mut li: usize = 0;
        while li < nlines
            invariant
                0 <= li <= nlines == lines@.len(),
                lseq == lines@.map_values(|t: String| t@),
                lseq.len() == nlines,
                ({
                    let st = spec_route(lseq, li as int);
                    &&& beatmap.format_version as int == st.version
                    &&& section == st.section
                    &&& beatmap.timing_points@ == st.combined
                    &&& beatmap.uninherited_points@ == st.uninherited
                    &&& beatmap.inherited_points@ == st.inherited
                    &&& last_uninherited == st.last_uninherited
                    &&& errors@ == st.errors
                    &&& hit_objects@.len() == st.object_lines.len()
                    &&& (forall|k: int|
                        0 <= k < st.object_lines.len() ==> 0 <= #[trigger] st.object_lines[k] < li
                            && spec_object_matches(hit_objects@[k], lseq[st.object_lines[k]]))
                }),
                forall|k: int|
                    0 <= k < beatmap.timing_points@.len() ==> (
                    #[trigger] beatmap.timing_points@[k]).speed_multiplier as int
                        == spec_speed_multiplier(beatmap.timing_points@[k].beat_length as int),
                beatmap.timing_points@.len() == beatmap.uninherited_points@.len()
                    + beatmap.inherited_points@.len(),
                forall|k: int|
                    0 <= k < hit_objects@.len() ==> (#[trigger] hit_objects@[k]).stack_height == 0,
            decreases nlines - li,
        {
            let line_no: usize = li;
            li = li + 1;
            let ls: &str = lines[line_no].as_str();
            let ghost st0 = spec_route(lseq, line_no as int);
            let ghost cur = lseq[line_no as int];
            proof {
                assert(cur == lines@[line_no as int]@);
                assert(spec_route(lseq, li as int) == spec_route_step(st0, cur, line_no as int));
            }
            if has_prefix(ls, "//") {
                proof {
                    assert(spec_is_comment(cur));
                }
                continue ;
            }
            if has_prefix(ls, "osu file format v") {
                proof {
                    reveal_strlit("osu file format v");
                    assert(spec_is_version_line(cur));
                }
                let n: usize = ls.unicode_len();
                let suffix: &str = ls.substring_char(17, n);
                proof {
                    assert(suffix@ == cur.subrange(
                        "osu file format v"@.len() as int,
                        cur.len() as int,
                    ));
                }
                match parse_int(suffix) {
                    Some(v) => {
                        if -2147483648 <= v && v <= 2147483647 {
                            beatmap.format_version = v as i32;
                        } else {
                            beatmap.format_version = 0;
                            errors.push(
                                LineError { line: line_no, error: ParseError::MalformedHeader },
                            );
                        }
                    },
                    None => {
                        beatmap.format_version = 0;
                        errors.push(LineError { line: line_no, error: ParseError::MalformedHeader });
                    },
                }
            }
            let ghost st1 = if spec_is_version_line(cur) {
                spec_version_update(st0, cur, line_no as int)
            } else {
                st0
            };
            proof {
                assert(beatmap.format_version as int == st1.version);
                assert(errors@ == st1.errors);
            }
            match match_section_header(ls) {
                Some(name) => {
                    let ns: &str = name.as_str();
                    section = if str_eq(ns, "General") {
                        Section::General
                    } else if str_eq(ns, "Difficulty") {
                        Section::Difficulty
                    } else if str_eq(ns, "Metadata") {
                        Section::Meta
                    } else if str_eq(ns, "TimingPoints") {
                        Section::TimingPoints
                    } else if str_eq(ns, "HitObjects") {
                        Section::HitObjects
                    } else {
                        Section::Unknown
                    };
                    proof {
                        assert(section == spec_section_of(ns@));
                    }
                    continue ;
                },
                None => {},
            }
            if section == Section::General {
                match match_key_value(ls) {
                    Some(kv) => {
                        let key: &str = kv.0.as_str();
                        if str_eq(key, "AudioFilename") {
                            beatmap.audio.filename = kv.1;
                        } else if str_eq(key, "AudioLeadIn") {
                            beatmap.audio.lead_in = parse_int32_or_zero(kv.1.as_str());
                        } else if str_eq(key, "PreviewTime") {
                            beatmap.metadata.preview_time = parse_int32_or_zero(kv.1.as_str());
                        } else if str_eq(key, "Mode") {
                            beatmap.gamemode = match Gamemode::from_str(kv.1.as_str()) {
                                Ok(g) => g,
                                Err(_) => Gamemode::Standard,
                            };
                        } else if str_eq(key, "StackLeniency") {
                            beatmap.stack_leniency = parse_fx_or_zero(kv.1.as_str());
                        }
                    },
                    None => {},
                }
            } else if section == Section::Difficulty {
                match match_key_value(ls) {
                    Some(kv) => {
                        let key: &str = kv.0.as_str();
                        if str_eq(key, "HPDrainRate") {
                            beatmap.difficulty.hp_drain = parse_fx_or_zero(kv.1.as_str());
                        } else if str_eq(key, "CircleSize") {
                            beatmap.difficulty.circle_size = parse_fx_or_zero(kv.1.as_str());
                        } else if str_eq(key, "OverallDifficulty") {
                            beatmap.difficulty.overall_difficulty = parse_fx_or_zero(kv.1.as_str());
                        } else if str_eq(key, "ApproachRate") {
                            beatmap.difficulty.approach_rate = parse_fx_or_zero(kv.1.as_str());
                        } else if str_eq(key, "SliderMultiplier") {
                            beatmap.difficulty.slider_multiplier = parse_fx_or_zero(kv.1.as_str());
                        } else if str_eq(key, "SliderTickRate") {
                            beatmap.difficulty.slider_tickrate = parse_fx_or_zero(kv.1.as_str());
                        }
                    },
                    None => {},
                }
            } else if section == Section::Meta {
                match match_key_value(ls) {
                    Some(kv) => {
                        let key: &str = kv.0.as_str();
                        if str_eq(key, "Title") {
                            beatmap.title = kv.1;
                        } else if str_eq(key, "TitleUnicode") {
                            beatmap.title_unicode = kv.1;
                        } else if str_eq(key, "Artist") {
                            beatmap.artist = kv.1;
                        } else if str_eq(key, "ArtistUnicode") {
                            beatmap.artist_unicode = kv.1;
                        } else if str_eq(key, "Version") {
                            beatmap.difficulty_name = kv.1;
                        } else if str_eq(key, "Tags") {
                            beatmap.metadata.tags = split_words(kv.1.as_str());
                        }
                    },
                    None => {},
                }
            } else if section == Section::TimingPoints {
                let values: Vec<String> = split_str(ls, ',');
                proof {
                    assert(values@.map_values(|t: String| t@) == spec_split(cur, ','));
                }
                if values.len() < 2 {
                    continue ;
                }
                let parsed: (i64, i64, i32, bool) = Self::parse_timing_values(
                    &values,
                    beatmap.format_version,
                );
                let time: i64 = parsed.0;
                let beat_length: i64 = parsed.1;
                let time_signature: i32 = parsed.2;
                let timing_change: bool = parsed.3;
                let multiplier: i64 = speed_multiplier_of(beat_length);
                if timing_change {
                    let up: UninheritedTimingPoint = UninheritedTimingPoint {
                        time,
                        beat_length,
                        time_signature,
                    };
                    beatmap.uninherited_points.push(up);
                    last_uninherited = up;
                    beatmap.timing_points.push(
                        TimingPoint {
                            time,
                            beat_length,
                            time_signature,
                            speed_multiplier: multiplier,
                            point_type: TimingPointType::Uninherited,
                        },
                    );
                } else {
                    beatmap.inherited_points.push(
                        InheritedTimingPoint {
                            time,
                            speed_multiplier: multiplier,
                            inherited_from: last_uninherited,
                        },
                    );
                    beatmap.timing_points.push(
                        TimingPoint {
                            time,
                            beat_length,
                            time_signature,
                            speed_multiplier: multiplier,
                            point_type: TimingPointType::Inherited,
                        },
                    );
                }
            } else if section == Section::HitObjects {
                let values: Vec<String> = split_str(ls, ',');
                proof {
                    assert(values@.map_values(|t: String| t@) == spec_split(cur, ','));
                }
                let mut base: HitObject = match Self::parse_hit_object_line(&values) {
                    Ok(o) => o,
                    Err(e) => {
                        errors.push(LineError { line: line_no, error: e });
                        continue ;
                    },
                };
                if is_slider_bits(base.hit_type) {
                    if values.len() <= 5 || values[5].as_str().unicode_len() == 0 {
                        errors.push(
                            LineError {
                                line: line_no,
                                error: ParseError::MalformedSliderDescriptor,
                            },
                        );
                        continue ;
                    }
                    proof {
                        assert(values@[5]@ == spec_split(cur, ',')[5]);
                    }
                    let desc: (CurveType, Vec<Vector2>, Vec<Vector2>) =
                        Self::parse_slider_descriptor(values[5].as_str(), base.position);
                    let curve_type: CurveType = desc.0;
                    let base_points: Vec<Vector2> = desc.1;
                    let slider_points: Vec<Vector2> = desc.2;
                    let raw_repeat: i32 = if values.len() > 6 {
                        parse_int32_or_zero(values[6].as_str())
                    } else {
                        0
                    };
                    let rc64: i64 = raw_repeat as i64 - 1;
                    let repeat_count: i32 = if rc64 < 0 {
                        0
                    } else {
                        rc64 as i32
                    };
                    let slider_length: i64 = if values.len() > 7 {
                        parse_fx_or_zero(values[7].as_str())
                    } else {
                        0
                    };
                    let expected: i64 = fx_max(0, slider_length);
                    proof {
                        assert(expected as int == spec_expected_length(spec_split(cur, ',')));
                        assert(repeat_count as int == spec_repeat_count(spec_split(cur, ',')));
                    }
                    let flattened: Vec<Vector2> = Self::build_flattened_path(
                        curve_type,
                        &slider_points,
                    );
                    let sb: crate::parser::beatmap::objects::SliderBody = Self::resample_body(
                        flattened,
                        expected,
                    );
                    let vertex: Vector2 = crate::parser::beatmap::slider::position_at(
                        &sb.body,
                        &sb.length,
                        expected,
                    );
                    base.end_position = base.position.add(vertex);
                    proof {
                        if sb.length@[sb.length@.len() - 1] != expected {
                            crate::parser::beatmap::slider::lemma_resample_short(
                                flattened@,
                                expected as int,
                            );
                        }
                    }
                    let tp: TimingPoint = if beatmap.timing_points.len() > 0 {
                        beatmap.get_timing_point(base.start_time)
                    } else {
                        // no tempo information: a neutral point keeps the
                        // derivation total
                        TimingPoint {
                            time: 0,
                            beat_length: 0,
                            time_signature: 4,
                            speed_multiplier: SCALE,
                            point_type: TimingPointType::Uninherited,
                        }
                    };
                    let timing: (i64, i64, i64, i64) = Self::derive_slider_timing(
                        base.start_time,
                        expected,
                        repeat_count,
                        tp.beat_length,
                        tp.speed_multiplier,
                        beatmap.difficulty.slider_multiplier,
                        beatmap.difficulty.slider_tickrate,
                    );
                    let velocity: i64 = timing.0;
                    let tick_distance: i64 = timing.1;
                    let end_time: i64 = timing.2;
                    let duration: i64 = timing.3;
                    base.end_time = end_time;
                    let objs: Vec<crate::parser::beatmap::objects::SliderObject> =
                        crate::parser::beatmap::slider::build_slider_objects(
                        base.position,
                        base.end_position,
                        base.start_time,
                        end_time,
                        duration,
                        expected,
                        velocity,
                        tick_distance,
                        repeat_count,
                        &sb.body,
                        &sb.length,
                    );
                    base.slider_data = Some(
                        SliderData { curve_type, base_points, slider_points, slider_body: sb },
                    );
                    base.slider_objects = Some(objs);
                }
                proof {
                    assert(spec_object_matches(base, cur));
                    let st_new = spec_route(lseq, li as int);
                    assert(st_new.object_lines == st1.object_lines.push(line_no as int));
                }
                hit_objects.push(base);
            }
            proof {
                let st_new = spec_route(lseq, li as int);
                assert(section == st_new.section);
            }
        }
        let ghost final_route = spec_route(lseq, nlines as int);
        // stacking: compute all heights, then write them back
        let preempt: i64 = crate::parser::beatmap::stacking::approach_preempt(
            beatmap.difficulty.approach_rate,
        );
        let heights: Vec<i32> = crate::parser::beatmap::stacking::compute_stack_heights(
            &hit_objects,
            preempt,
            beatmap.stack_leniency,
        );
        let ghost built = hit_objects@;
        proof {
            assert(crate::parser::beatmap::stacking::spec_zeroed(built));
        }
        let total: usize = hit_objects.len();
        let mut rev: Vec<HitObject> = Vec::new();
        while hit_objects.len() > 0
            invariant
                rev@.len() + hit_objects@.len() == total == built.len(),
                hit_objects@ == built.take(hit_objects@.len() as int),
                forall|m: int| 0 <= m < rev@.len() ==> rev@[m] == built[total - 1 - m],
            decreases hit_objects@.len(),
        {
            let ghost before = hit_objects@;
            match hit_objects.pop() {
                Some(o) => {
                    proof {
                        assert(before.drop_last() =~= built.take(before.len() - 1));
                    }
                    rev.push(o);
                },
                None => {},
            }
        }
        let mut updated: Vec<HitObject> = Vec::new();
        while rev.len() > 0
            invariant
                heights@.len() == total == built.len(),
                updated@.len() + rev@.len() == total,
                forall|m: int| 0 <= m < rev@.len() ==> rev@[m] == built[total - 1 - m],
                forall|m: int|
                    0 <= m < updated@.len() ==> #[trigger] updated@[m] == (HitObject {
                        stack_height: heights@[m],
                        ..built[m]
                    }),
            decreases rev@.len(),
        {
            match rev.pop() {
                Some(taken) => {
                    let mut o: HitObject = taken;
                    let k: usize = updated.len();
                    o.stack_height = heights[k];
                    updated.push(o);
                },
                None => {},
            }
        }
        proof {
            assert(lseq == crate::parser::text::spec_lines(map_string@));
            assert forall|k: int|
                0 <= k < final_route.object_lines.len() implies 0 <= #[trigger] final_route.object_lines[k]
                < lseq.len() && spec_object_matches(
                updated@[k],
                lseq[final_route.object_lines[k]],
            ) by {
                assert(spec_object_matches(built[k], lseq[final_route.object_lines[k]]));
                assert(updated@[k] == (HitObject { stack_height: heights@[k], ..built[k] }));
                lemma_object_matches_stack(
                    built[k],
                    updated@[k],
                    lseq[final_route.object_lines[k]],
                );
            }
            if forall|k: int| 0 <= k < updated@.len() ==> (#[trigger] updated@[k]).hit_type != 2 {
                assert forall|k: int|
                    0 <= k < built.len() implies (#[trigger] built[k]).hit_type != 2 by {
                    assert(updated@[k].hit_type == built[k].hit_type);
                }
                assert(crate::parser::beatmap::stacking::spec_sliderless(built));
            }
        }
        beatmap.hit_objects = updated;
        (beatmap, errors)
    }
}

} // verus!
