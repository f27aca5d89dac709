//! Data model of the pre-parsed beatmap feed: hit events in ascending time
//! order, a timing-point table and the map-wide slider velocity multiplier.
//!
//! Reading the textual beatmap format into these records is a job for the
//! surrounding application; the simulation consumes plain values only.
//! Event times are microseconds, coordinates playfield units, beat lengths
//! microseconds per beat, and the slider multiplier hundredths.

use vstd::prelude::*;
use crate::consts::{
    BEAT_LENGTH_LIMIT, COORD_LIMIT, SLIDER_LENGTH_LIMIT, SLIDER_MULTIPLIER_LIMIT, TIME_LIMIT,
};

verus! {

/// Which sample set a hit object triggers; consumed by audio, irrelevant to
/// the simulation rules.
#[derive(Copy, Clone, Debug, PartialEq, Eq, Structural)]
pub enum OsuHitObjectHitSound {
    Normal,
    Whistle,
    Finish,
    Clap,
}

/// Curve kind tag of a slider as declared by the beatmap source.
#[derive(Copy, Clone, Debug, PartialEq, Eq, Structural)]
pub enum OsuBeatSliderCurveType {
    Bezier,
    ComRom,
    Linear,
    PerfectCircle,
}

/// A timing point: from `time_offset_in_us` on, a beat lasts
/// `beat_length_us` microseconds.
#[derive(Copy, Clone, Debug, PartialEq, Eq, Structural)]
pub struct TimingPoint {
    pub time_offset_in_us: i64,
    pub beat_length_us: i64,
    pub inherited: bool,
}

/// Slider-specific data of a hit event: the declared curve kind, the control
/// points after the starting point, the repeat count and the path length in
/// playfield units.
#[derive(Clone, Debug, PartialEq)]
pub struct OsuBeatMapHitObjectSliderParams {
    pub curve_type: OsuBeatSliderCurveType,
    pub curve_points: Vec<(i64, i64)>,
    pub slides: i32,
    pub length: i64,
}

/// What kind of object a hit event spawns.
#[derive(Clone, Debug, PartialEq)]
pub enum OsuBeatMapHitObjectParams {
    HitCircle,
    Slider(OsuBeatMapHitObjectSliderParams),
}

/// One hit event of the beatmap: position, strike time, sample tag and the
/// optional object-kind parameters.
#[derive(Clone, Debug, PartialEq)]
pub struct OsuBeatMapHitObject {
    pub x: i64,
    pub y: i64,
    pub time_offset_in_us: i64,
    pub hit_sound: OsuHitObjectHitSound,
    pub object_params: Option<OsuBeatMapHitObjectParams>,
}

/// The pre-parsed beatmap: the audio file to play, the lead-in silence, the
/// slider velocity multiplier (hundredths), the timing points and the hit
/// events sorted ascending by time.
#[derive(Clone, Debug)]
pub struct OsuBeatMap {
    pub audio_file_name: String,
    pub audio_lead_in_us: i64,
    pub slider_multiplier_hundredths: i64,
    pub timing_points: Vec<TimingPoint>,
    pub hit_objects: Vec<OsuBeatMapHitObject>,
}

/// Configuration of the beatmap reader: whether the audio lead-in is folded
/// into every event and timing-point time up front.
#[derive(Default, Copy, Clone, Debug)]
pub struct OsuBeatMapParseConfig {
    pub pre_add_audio_lead_in: bool,
}

/// Coordinates of a hit event lie in the admitted playfield range.
pub open spec fn spec_coord_ok(v: int) -> bool {
    0 <= v <= COORD_LIMIT
}

/// All machine-level bounds a slider's parameters must meet.
pub open spec fn spec_slider_params_ok(p: OsuBeatMapHitObjectSliderParams) -> bool {
    &&& 1 <= p.length <= SLIDER_LENGTH_LIMIT
    &&& forall|i: int|
        0 <= i < p.curve_points@.len() ==> spec_coord_ok(#[trigger] p.curve_points@[i].0 as int)
            && spec_coord_ok(p.curve_points@[i].1 as int)
}

/// A slider's control point count is supported (1 linear, 2 quadratic,
/// 3 cubic).
pub open spec fn spec_curve_count_ok(p: OsuBeatMapHitObjectSliderParams) -> bool {
    1 <= p.curve_points@.len() <= 3
}

/// Numeric validity of one hit event.
pub open spec fn spec_hit_object_ok(o: OsuBeatMapHitObject) -> bool {
    &&& spec_coord_ok(o.x as int)
    &&& spec_coord_ok(o.y as int)
    &&& 0 <= o.time_offset_in_us <= TIME_LIMIT
    &&& match o.object_params {
        Some(OsuBeatMapHitObjectParams::Slider(p)) => spec_slider_params_ok(p),
        _ => true,
    }
}

/// Numeric validity of one timing point.
pub open spec fn spec_timing_point_ok(t: TimingPoint) -> bool {
    &&& 0 <= t.time_offset_in_us <= TIME_LIMIT
    &&& 1 <= t.beat_length_us <= BEAT_LENGTH_LIMIT
}

impl OsuBeatMap {
    /// Hit events are sorted ascending by strike time.
    pub open spec fn spec_sorted(self) -> bool {
        forall|i: int, j: int|
            0 <= i < j < self.hit_objects@.len()
                ==> #[trigger] self.hit_objects@[i].time_offset_in_us
                <= #[trigger] self.hit_objects@[j].time_offset_in_us
    }
}

/// Every timing point is numerically valid.
pub open spec fn spec_all_timing_ok(pts: Seq<TimingPoint>) -> bool {
    forall|i: int| 0 <= i < pts.len() ==> spec_timing_point_ok(#[trigger] pts[i])
}

/// Every hit event is numerically valid.
pub open spec fn spec_all_objects_ok(objs: Seq<OsuBeatMapHitObject>) -> bool {
    forall|i: int| 0 <= i < objs.len() ==> spec_hit_object_ok(#[trigger] objs[i])
}

/// Every slider declares a supported control point count.
pub open spec fn spec_all_curve_counts_ok(objs: Seq<OsuBeatMapHitObject>) -> bool {
    forall|i: int|
        0 <= i < objs.len() ==> match (#[trigger] objs[i]).object_params {
            Some(OsuBeatMapHitObjectParams::Slider(p)) => spec_curve_count_ok(p),
            _ => true,
        }
}

/// Why a beatmap was rejected at load time; no partial beatmap is accepted.
#[derive(Copy, Clone, Debug, PartialEq, Eq, Structural)]
pub enum BeatmapError {
    InvalidSliderMultiplier,
    NoTimingPoints,
    InvalidTimingPoint,
    InvalidHitObject,
    UnsortedHitObjects,
    UnsupportedCurvePointCount,
    InvalidSliderDuration,
}

} // verus!
