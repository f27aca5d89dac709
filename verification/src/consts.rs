//! Fixed constants of the gameplay rules and the machine limits of the model.
//!
//! Times are microseconds, coordinates playfield units, health thousandths,
//! progress and completion ten-thousandths.

use vstd::prelude::*;

verus! {

/// Lead time before an object's strike time at which it is spawned.
pub const LIFETIME: i64 = 700_000;

/// Half-width of the hit window around an object's strike time: a circle is
/// hittable while its remaining time is within `[-HIT_WINDOW, HIT_WINDOW]`.
pub const HIT_WINDOW: i64 = 200_000;

/// Half-width of the perfect sub-window: a hit whose remaining time lies
/// strictly inside `(-PERFECT_HIT_WINDOW, PERFECT_HIT_WINDOW)` is perfect.
pub const PERFECT_HIT_WINDOW: i64 = 66_700;

/// Radius of a tap circle, in playfield units.
pub const BASE_CIRCLE_RADIUS: i64 = 35;

/// Diameter of a tap circle, in playfield units.
pub const BASE_CIRCLE_DIAMETER: i64 = 70;

/// The larger hold radius of a slider is the circle radius scaled by 6/5.
pub const SLIDER_RADIUS_NUM: i64 = 6;

/// Denominator of the slider hold radius factor.
pub const SLIDER_RADIUS_DEN: i64 = 5;

/// Number of cursor positions remembered by the trail.
pub const TRIAL_POINTS: usize = 32;

/// Interval at which the trail samples the cursor position, in microseconds.
pub const TRAIL_SAMPLE_EACH: i64 = 10_000;

/// Fixed-point scale of slider progress and slider completion: a progress of
/// `PROGRESS_SCALE` means the slider has run its whole duration.
pub const PROGRESS_SCALE: i64 = 10_000;

/// Fixed-point scale of health: a value of `HP_SCALE` is full health.
pub const HP_SCALE: i64 = 1_000;

/// Width of the logical playfield, in playfield units.
pub const PLAYFIELD_WIDTH: i64 = 640;

/// Height of the logical playfield, in playfield units.
pub const PLAYFIELD_HEIGHT: i64 = 480;

/// Upper bound on playfield coordinates admitted by the model (headroom over
/// the nominal playfield so that out-of-field control points still work).
pub const COORD_LIMIT: i64 = 1_000_000;

/// Upper bound on simulation time (about 13 days in microseconds); keeps all
/// time arithmetic far from overflow.
pub const TIME_LIMIT: i64 = 0x100_0000_0000;

/// Bound on the numerator and denominator of the viewport scale.
pub const SCALE_LIMIT: i64 = 0x10_0000;

/// Bound on the magnitude of screen-space coordinates (cursor, translation).
pub const SCREEN_LIMIT: i64 = 0x100_0000_0000;

/// Bound on the magnitude of the inputs of the circle containment test; wide
/// enough for any screen-space value the simulation can produce.
pub const GEOM_LIMIT: i64 = 0x1000_0000_0000_0000;

/// Bound on a timing point's beat length, in microseconds.
pub const BEAT_LENGTH_LIMIT: i64 = 1_000_000_000;

/// Bound on a slider's path length, in playfield units.
pub const SLIDER_LENGTH_LIMIT: i64 = 1_000_000;

/// Bound on the map-wide slider velocity multiplier, in hundredths.
pub const SLIDER_MULTIPLIER_LIMIT: i64 = 100_000;

/// Bound on how many objects may be live in one frame; a machine limit that
/// keeps scoring arithmetic far from overflow.
pub const MAX_OBJECTS: usize = 0x10_0000;

/// Bound on the combo counter admitted by a frame; a machine limit.
pub const COMBO_LIMIT: u64 = 0x8000_0000;

/// Bound on the accumulated score admitted by a frame; a machine limit.
pub const SCORE_LIMIT: u64 = 0x4000_0000_0000_0000;

} // verus!
