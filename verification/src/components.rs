//! Component records attached to gameplay objects: position, remaining
//! lifetime, hit rating, sample tag, the slider with its curve and state
//! machine, and the despawn marker read by scoring.

use vstd::prelude::*;
use crate::beatmap::OsuHitObjectHitSound;
use crate::utils::{lerp, spec_lerp};
use crate::consts::{
    COORD_LIMIT, HIT_WINDOW, LIFETIME, PERFECT_HIT_WINDOW, PROGRESS_SCALE, TIME_LIMIT,
};

verus! {

/// Position in the fixed logical playfield coordinate space (640x480 units).
#[derive(Copy, Clone, Debug, PartialEq, Eq, Structural)]
pub struct GamePos {
    pub x: i64,
    pub y: i64,
}

impl GamePos {
    pub open spec fn wf(self) -> bool {
        &&& 0 <= self.x <= COORD_LIMIT
        &&& 0 <= self.y <= COORD_LIMIT
    }
}

/// Marker component of tap-circle objects.
#[derive(Copy, Clone, Debug, PartialEq, Eq, Structural)]
pub struct Circle;

/// Time until the object's nominal strike time, in microseconds. Positive
/// before the strike moment, zero at it, negative afterwards; decremented by
/// the frame delta every frame.
#[derive(Copy, Clone, Debug, PartialEq, Eq, Structural)]
pub struct Lifetime {
    pub remaining: i64,
}

impl Lifetime {
    /// Relative to the current total elapsed time: an object can never have
    /// been spawned longer ago than simulation start, nor earlier than the
    /// spawn lead allows.
    pub open spec fn wf(self, elapsed_us: int) -> bool {
        -elapsed_us <= self.remaining <= LIFETIME
    }

    pub open spec fn spec_is_dead(self) -> bool {
        self.remaining <= 0
    }

    pub open spec fn spec_is_alive(self) -> bool {
        self.remaining > 0
    }

    /// The hit window: the strike time plus or minus `HIT_WINDOW`.
    pub open spec fn spec_is_in_hit_zone(self) -> bool {
        -HIT_WINDOW <= self.remaining <= HIT_WINDOW
    }

    /// The perfect sub-window, strictly inside `PERFECT_HIT_WINDOW` of the
    /// strike time.
    pub open spec fn spec_is_in_perfect_hit_zone(self) -> bool {
        -PERFECT_HIT_WINDOW < self.remaining < PERFECT_HIT_WINDOW
    }

    /// A lifetime at exactly the strike moment.
    pub fn zero() -> (l: Lifetime)
        ensures
            l.remaining == 0,
    {
        Lifetime { remaining: 0 }
    }

    pub fn is_dead(&self) -> (r: bool)
        ensures
            r == self.spec_is_dead(),
    {
        self.remaining <= 0
    }

    pub fn is_alive(&self) -> (r: bool)
        ensures
            r == self.spec_is_alive(),
    {
        self.remaining > 0
    }

    pub fn is_in_hit_zone(&self) -> (r: bool)
        ensures
            r == self.spec_is_in_hit_zone(),
    {
        -HIT_WINDOW <= self.remaining && self.remaining <= HIT_WINDOW
    }

    pub fn is_in_perfect_hit_zone(&self) -> (r: bool)
        ensures
            r == self.spec_is_in_perfect_hit_zone(),
    {
        -PERFECT_HIT_WINDOW < self.remaining && self.remaining < PERFECT_HIT_WINDOW
    }
}

/// A circle whose remaining time is strictly above the hit window is never
/// hittable, regardless of where the cursor is.
pub proof fn lemma_not_hittable_before_window(l: Lifetime)
    requires
        l.remaining > HIT_WINDOW,
    ensures
        !l.spec_is_in_hit_zone(),
{
}

/// Judgment of a successful hit: perfect timing rates `GREAT`, any other
/// timing inside the hit window rates `GOOD`.
pub open spec fn spec_hit_rating(l: Lifetime) -> CircleHitRating {
    if l.spec_is_in_perfect_hit_zone() {
        CircleHitRating::GREAT
    } else {
        CircleHitRating::GOOD
    }
}

/// The rating a successful hit earns from its timing alone.
pub fn hit_rating(l: &Lifetime) -> (r: CircleHitRating)
    ensures
        r == spec_hit_rating(*l),
{
    if l.is_in_perfect_hit_zone() {
        CircleHitRating::GREAT
    } else {
        CircleHitRating::GOOD
    }
}

/// A successful hit strictly inside the perfect sub-window rates `GREAT`;
/// one elsewhere in the hit window rates `GOOD`.
pub proof fn lemma_hit_rating_windows(l: Lifetime)
    ensures
        -PERFECT_HIT_WINDOW < l.remaining < PERFECT_HIT_WINDOW ==> spec_hit_rating(l)
            == CircleHitRating::GREAT,
        (-HIT_WINDOW <= l.remaining <= -PERFECT_HIT_WINDOW || PERFECT_HIT_WINDOW <= l.remaining
            <= HIT_WINDOW) ==> spec_hit_rating(l) == CircleHitRating::GOOD,
{
}

/// How a resolved circle was judged. Defaults to `MISS`; set once when the
/// circle is hit.
#[derive(Copy, Clone, Debug, PartialEq, Eq, Structural)]
pub enum CircleHitRating {
    MISS,
    GOOD,
    GREAT,
}

impl Default for CircleHitRating {
    fn default() -> (r: Self)
        ensures
            r == CircleHitRating::MISS,
    {
        CircleHitRating::MISS
    }
}

/// Sample tag carried per object, consumed by audio.
#[derive(Copy, Clone, Debug, PartialEq, Eq, Structural)]
pub struct HitSound {
    pub value: OsuHitObjectHitSound,
}

/// Why an object is being removed; read by scoring before deletion.
#[derive(Copy, Clone, Debug, PartialEq, Eq, Structural)]
pub enum DespawnObjectReason {
    CircleHit(CircleHitRating),
    SliderEnd(SliderState),
}

/// Ephemeral despawn marker: attached once by a judging system, read by
/// scoring in the same frame, then the object is deleted at the maintain
/// barrier. A marker, once attached, is never overwritten.
#[derive(Copy, Clone, Debug, PartialEq, Eq, Structural)]
pub struct DespawnObject {
    pub reason: DespawnObjectReason,
    pub despawned_at: i64,
}

/// What a slider state transition means for the hold sound: whether a hold
/// just started, just stopped, or nothing changed.
#[derive(Copy, Clone, Debug, PartialEq, Eq, Structural)]
pub enum SliderStateChange {
    NoChange,
    Start,
    Stop,
}

/// State machine of a slider. `DRAGGING` carries the microseconds spent
/// successfully dragging; `FINISHED` carries the completed fraction in
/// ten-thousandths and the timestamp at which the drag ended.
#[derive(Copy, Clone, Debug, PartialEq, Eq, Structural)]
pub enum SliderState {
    UNTOUCHED,
    DRAGGING(i64),
    FINISHED(i64, i64),
}

/// Validity of a slider state relative to the slider's duration and the
/// total elapsed time: drag time never exceeds elapsed time, and a finished
/// fraction times the duration never exceeds elapsed time.
pub open spec fn spec_state_wf(s: SliderState, duration: int, elapsed_us: int) -> bool {
    match s {
        SliderState::UNTOUCHED => true,
        SliderState::DRAGGING(v) => 0 <= v <= elapsed_us,
        SliderState::FINISHED(pct, at) => {
            &&& 0 <= pct
            &&& pct * duration <= elapsed_us * PROGRESS_SCALE
            &&& 0 <= at <= elapsed_us
        },
    }
}

/// A straight segment from `start` to `end`.
#[derive(Copy, Clone, Debug, PartialEq, Eq)]
pub struct SliderCurveLinear {
    pub start: (i64, i64),
    pub end: (i64, i64),
}

/// A quadratic Bezier curve.
#[derive(Copy, Clone, Debug, PartialEq, Eq)]
pub struct SliderCurveQuadBezier {
    pub start: (i64, i64),
    pub control_point: (i64, i64),
    pub end: (i64, i64),
}

/// A cubic Bezier curve.
#[derive(Copy, Clone, Debug, PartialEq, Eq)]
pub struct SliderCurveCubicBezier {
    pub start: (i64, i64),
    pub control_point: (i64, i64),
    pub control_point_2: (i64, i64),
    pub end: (i64, i64),
}

/// The path a slider travels, as a closed set of curve shapes.
#[derive(Copy, Clone, Debug, PartialEq, Eq)]
pub enum SliderCurve {
    Linear(SliderCurveLinear),
    QuadBezier(SliderCurveQuadBezier),
    CubicBezier(SliderCurveCubicBezier),
}

pub open spec fn spec_point_wf(p: (i64, i64)) -> bool {
    &&& 0 <= p.0 <= COORD_LIMIT
    &&& 0 <= p.1 <= COORD_LIMIT
}

pub open spec fn spec_curve_wf(c: SliderCurve) -> bool {
    match c {
        SliderCurve::Linear(l) => spec_point_wf(l.start) && spec_point_wf(l.end),
        SliderCurve::QuadBezier(q) => spec_point_wf(q.start) && spec_point_wf(q.control_point)
            && spec_point_wf(q.end),
        SliderCurve::CubicBezier(cu) => spec_point_wf(cu.start) && spec_point_wf(cu.control_point)
            && spec_point_wf(cu.control_point_2) && spec_point_wf(cu.end),
    }
}

/// First control point of the curve.
pub open spec fn spec_curve_start(c: SliderCurve) -> (i64, i64) {
    match c {
        SliderCurve::Linear(l) => l.start,
        SliderCurve::QuadBezier(q) => q.start,
        SliderCurve::CubicBezier(cu) => cu.start,
    }
}

/// Last control point of the curve.
pub open spec fn spec_curve_end(c: SliderCurve) -> (i64, i64) {
    match c {
        SliderCurve::Linear(l) => l.end,
        SliderCurve::QuadBezier(q) => q.end,
        SliderCurve::CubicBezier(cu) => cu.end,
    }
}

/// One coordinate of the standard parametric curve formulas, in fixed point:
/// the parameter runs over `0..=PROGRESS_SCALE` and the weighted sum of the
/// control coordinates is divided by the scale raised to the curve's degree.
pub open spec fn spec_curve_coord(c: SliderCurve, p: int, x0: int, x1: int, x2: int, x3: int) -> int {
    let s = PROGRESS_SCALE as int;
    let a = s - p;
    match c {
        SliderCurve::Linear(_) => (a * x0 + p * x1) / s,
        SliderCurve::QuadBezier(_) => (a * a * x0 + 2 * a * p * x1 + p * p * x2) / (s * s),
        SliderCurve::CubicBezier(_) => (a * a * a * x0 + 3 * a * a * p * x1 + 3 * a * p * p * x2
            + p * p * p * x3) / (s * s * s),
    }
}

/// The x coordinate of the curve at parameter `p` ten-thousandths.
pub open spec fn spec_curve_x(c: SliderCurve, p: int) -> int {
    match c {
        SliderCurve::Linear(l) => spec_curve_coord(c, p, l.start.0 as int, l.end.0 as int, 0, 0),
        SliderCurve::QuadBezier(q) => spec_curve_coord(
            c,
            p,
            q.start.0 as int,
            q.control_point.0 as int,
            q.end.0 as int,
            0,
        ),
        SliderCurve::CubicBezier(cu) => spec_curve_coord(
            c,
            p,
            cu.start.0 as int,
            cu.control_point.0 as int,
            cu.control_point_2.0 as int,
            cu.end.0 as int,
        ),
    }
}

/// The y coordinate of the curve at parameter `p` ten-thousandths.
pub open spec fn spec_curve_y(c: SliderCurve, p: int) -> int {
    match c {
        SliderCurve::Linear(l) => spec_curve_coord(c, p, l.start.1 as int, l.end.1 as int, 0, 0),
        SliderCurve::QuadBezier(q) => spec_curve_coord(
            c,
            p,
            q.start.1 as int,
            q.control_point.1 as int,
            q.end.1 as int,
            0,
        ),
        SliderCurve::CubicBezier(cu) => spec_curve_coord(
            c,
            p,
            cu.start.1 as int,
            cu.control_point.1 as int,
            cu.control_point_2.1 as int,
            cu.end.1 as int,
        ),
    }
}

proof fn lemma_deg2_bounds(a: int, b: int, x0: int, x1: int, x2: int, m: int)
    requires
        0 <= a,
        0 <= b,
        a + b == PROGRESS_SCALE,
        0 <= x0 <= m,
        0 <= x1 <= m,
        0 <= x2 <= m,
        0 <= m,
    ensures
        0 <= a * a <= PROGRESS_SCALE * PROGRESS_SCALE,
        0 <= 2 * a * b <= 2 * (PROGRESS_SCALE * PROGRESS_SCALE),
        0 <= b * b <= PROGRESS_SCALE * PROGRESS_SCALE,
        0 <= a * a * x0 <= PROGRESS_SCALE * PROGRESS_SCALE * m,
        0 <= 2 * a * b * x1 <= PROGRESS_SCALE * PROGRESS_SCALE * m,
        0 <= b * b * x2 <= PROGRESS_SCALE * PROGRESS_SCALE * m,
        0 <= a * a * x0 + 2 * a * b * x1 + b * b * x2 <= PROGRESS_SCALE * PROGRESS_SCALE * m,
        0 <= (a * a * x0 + 2 * a * b * x1 + b * b * x2) / ((PROGRESS_SCALE * PROGRESS_SCALE) as int)
            <= m,
{
    assert(0 <= a * a <= PROGRESS_SCALE * PROGRESS_SCALE && 0 <= 2 * a * b <= 2 * (PROGRESS_SCALE
        * PROGRESS_SCALE) && 0 <= b * b <= PROGRESS_SCALE * PROGRESS_SCALE && 0 <= a * a * x0
        <= PROGRESS_SCALE * PROGRESS_SCALE * m && 0 <= 2 * a * b * x1 <= PROGRESS_SCALE
        * PROGRESS_SCALE * m && 0 <= b * b * x2 <= PROGRESS_SCALE * PROGRESS_SCALE * m && 0 <= a * a
        * x0 + 2 * a * b * x1 + b * b * x2 <= PROGRESS_SCALE * PROGRESS_SCALE * m)
        by (nonlinear_arith)
        requires
            0 <= a,
            0 <= b,
            a + b == PROGRESS_SCALE,
            0 <= x0 <= m,
            0 <= x1 <= m,
            0 <= x2 <= m,
            0 <= m,
    ;
    vstd::arithmetic::div_mod::lemma_div_pos_is_pos(
        a * a * x0 + 2 * a * b * x1 + b * b * x2,
        (PROGRESS_SCALE * PROGRESS_SCALE) as int,
    );
    vstd::arithmetic::div_mod::lemma_div_is_ordered(
        a * a * x0 + 2 * a * b * x1 + b * b * x2,
        PROGRESS_SCALE * PROGRESS_SCALE * m,
        (PROGRESS_SCALE * PROGRESS_SCALE) as int,
    );
    vstd::arithmetic::div_mod::lemma_div_multiples_vanish(
        m,
        (PROGRESS_SCALE * PROGRESS_SCALE) as int,
    );
}

proof fn lemma_deg3_bounds(a: int, b: int, x0: int, x1: int, x2: int, x3: int, m: int)
    requires
        0 <= a,
        0 <= b,
        a + b == PROGRESS_SCALE,
        0 <= x0 <= m,
        0 <= x1 <= m,
        0 <= x2 <= m,
        0 <= x3 <= m,
        0 <= m,
    ensures
        0 <= a * a <= PROGRESS_SCALE * PROGRESS_SCALE,
        0 <= a * a * a <= PROGRESS_SCALE * PROGRESS_SCALE * PROGRESS_SCALE,
        0 <= 3 * a * a <= 3 * (PROGRESS_SCALE * PROGRESS_SCALE),
        0 <= 3 * a * a * b <= 3 * (PROGRESS_SCALE * PROGRESS_SCALE * PROGRESS_SCALE),
        0 <= 3 * a * b <= 3 * (PROGRESS_SCALE * PROGRESS_SCALE),
        0 <= 3 * a * b * b <= 3 * (PROGRESS_SCALE * PROGRESS_SCALE * PROGRESS_SCALE),
        0 <= b * b <= PROGRESS_SCALE * PROGRESS_SCALE,
        0 <= b * b * b <= PROGRESS_SCALE * PROGRESS_SCALE * PROGRESS_SCALE,
        0 <= a * a * a * x0 <= PROGRESS_SCALE * PROGRESS_SCALE * PROGRESS_SCALE * m,
        0 <= 3 * a * a * b * x1 <= PROGRESS_SCALE * PROGRESS_SCALE * PROGRESS_SCALE * m,
        0 <= 3 * a * b * b * x2 <= PROGRESS_SCALE * PROGRESS_SCALE * PROGRESS_SCALE * m,
        0 <= b * b * b * x3 <= PROGRESS_SCALE * PROGRESS_SCALE * PROGRESS_SCALE * m,
        0 <= a * a * a * x0 + 3 * a * a * b * x1 + 3 * a * b * b * x2 + b * b * b * x3
            <= PROGRESS_SCALE * PROGRESS_SCALE * PROGRESS_SCALE * m,
        0 <= (a * a * a * x0 + 3 * a * a * b * x1 + 3 * a * b * b * x2 + b * b * b * x3) / ((
        PROGRESS_SCALE * PROGRESS_SCALE * PROGRESS_SCALE) as int) <= m,
{
    assert(0 <= a * a <= PROGRESS_SCALE * PROGRESS_SCALE && 0 <= a * a * a <= PROGRESS_SCALE
        * PROGRESS_SCALE * PROGRESS_SCALE && 0 <= 3 * a * a <= 3 * (PROGRESS_SCALE * PROGRESS_SCALE)
        && 0 <= 3 * a * a * b <= 3 * (PROGRESS_SCALE * PROGRESS_SCALE * PROGRESS_SCALE) && 0 <= 3
        * a * b <= 3 * (PROGRESS_SCALE * PROGRESS_SCALE) && 0 <= 3 * a * b * b <= 3 * (
        PROGRESS_SCALE * PROGRESS_SCALE * PROGRESS_SCALE) && 0 <= b * b <= PROGRESS_SCALE
        * PROGRESS_SCALE && 0 <= b * b * b <= PROGRESS_SCALE * PROGRESS_SCALE * PROGRESS_SCALE && 0
        <= a * a * a * x0 <= PROGRESS_SCALE * PROGRESS_SCALE * PROGRESS_SCALE * m && 0 <= 3 * a
        * a * b * x1 <= PROGRESS_SCALE * PROGRESS_SCALE * PROGRESS_SCALE * m && 0 <= 3 * a * b * b
        * x2 <= PROGRESS_SCALE * PROGRESS_SCALE * PROGRESS_SCALE * m && 0 <= b * b * b * x3
        <= PROGRESS_SCALE * PROGRESS_SCALE * PROGRESS_SCALE * m && 0 <= a * a * a * x0 + 3 * a * a
        * b * x1 + 3 * a * b * b * x2 + b * b * b * x3 <= PROGRESS_SCALE * PROGRESS_SCALE
        * PROGRESS_SCALE * m) by (nonlinear_arith)
        requires
            0 <= a,
            0 <= b,
            a + b == PROGRESS_SCALE,
            0 <= x0 <= m,
            0 <= x1 <= m,
            0 <= x2 <= m,
            0 <= x3 <= m,
            0 <= m,
    ;
    vstd::arithmetic::div_mod::lemma_div_pos_is_pos(
        a * a * a * x0 + 3 * a * a * b * x1 + 3 * a * b * b * x2 + b * b * b * x3,
        (PROGRESS_SCALE * PROGRESS_SCALE * PROGRESS_SCALE) as int,
    );
    vstd::arithmetic::div_mod::lemma_div_is_ordered(
        a * a * a * x0 + 3 * a * a * b * x1 + 3 * a * b * b * x2 + b * b * b * x3,
        PROGRESS_SCALE * PROGRESS_SCALE * PROGRESS_SCALE * m,
        (PROGRESS_SCALE * PROGRESS_SCALE * PROGRESS_SCALE) as int,
    );
    vstd::arithmetic::div_mod::lemma_div_multiples_vanish(
        m,
        (PROGRESS_SCALE * PROGRESS_SCALE * PROGRESS_SCALE) as int,
    );
}

fn eval_deg2(a: i64, b: i64, x0: i64, x1: i64, x2: i64) -> (r: i64)
    requires
        0 <= a,
        0 <= b,
        a + b == PROGRESS_SCALE,
        0 <= x0 <= COORD_LIMIT,
        0 <= x1 <= COORD_LIMIT,
        0 <= x2 <= COORD_LIMIT,
    ensures
        r == (a * a * x0 + 2 * a * b * x1 + b * b * x2) / ((PROGRESS_SCALE * PROGRESS_SCALE) as int),
        0 <= r <= COORD_LIMIT,
{
    proof {
        lemma_deg2_bounds(a as int, b as int, x0 as int, x1 as int, x2 as int, COORD_LIMIT as int);
    }
    let au = a as u64;
    let bu = b as u64;
    let num: u64 = au * au * (x0 as u64) + 2 * au * bu * (x1 as u64) + bu * bu * (x2 as u64);
    (num / ((PROGRESS_SCALE * PROGRESS_SCALE) as u64)) as i64
}

fn eval_deg3(a: i64, b: i64, x0: i64, x1: i64, x2: i64, x3: i64) -> (r: i64)
    requires
        0 <= a,
        0 <= b,
        a + b == PROGRESS_SCALE,
        0 <= x0 <= COORD_LIMIT,
        0 <= x1 <= COORD_LIMIT,
        0 <= x2 <= COORD_LIMIT,
        0 <= x3 <= COORD_LIMIT,
    ensures
        r == (a * a * a * x0 + 3 * a * a * b * x1 + 3 * a * b * b * x2 + b * b * b * x3) / ((
        PROGRESS_SCALE * PROGRESS_SCALE * PROGRESS_SCALE) as int),
        0 <= r <= COORD_LIMIT,
{
    proof {
        lemma_deg3_bounds(
            a as int,
            b as int,
            x0 as int,
            x1 as int,
            x2 as int,
            x3 as int,
            COORD_LIMIT as int,
        );
    }
    let au = a as u64;
    let bu = b as u64;
    let num: u64 = au * au * au * (x0 as u64) + 3 * au * au * bu * (x1 as u64) + 3 * au * bu * bu
        * (x2 as u64) + bu * bu * bu * (x3 as u64);
    (num / ((PROGRESS_SCALE * PROGRESS_SCALE * PROGRESS_SCALE) as u64)) as i64
}

/// Evaluates the curve at parameter `progress` ten-thousandths, by the exact
/// standard parametric formula of the curve's degree.
pub fn curve_point_at(curve: &SliderCurve, progress: i64) -> (r: (i64, i64))
    requires
        spec_curve_wf(*curve),
        0 <= progress <= PROGRESS_SCALE,
    ensures
        r.0 == spec_curve_x(*curve, progress as int),
        r.1 == spec_curve_y(*curve, progress as int),
        0 <= r.0 <= COORD_LIMIT,
        0 <= r.1 <= COORD_LIMIT,
{
    let a: i64 = PROGRESS_SCALE - progress;
    let b: i64 = progress;
    match curve {
        SliderCurve::Linear(l) => {
            (lerp(l.start.0, l.end.0, progress), lerp(l.start.1, l.end.1, progress))
        },
        SliderCurve::QuadBezier(q) => {
            (
                eval_deg2(a, b, q.start.0, q.control_point.0, q.end.0),
                eval_deg2(a, b, q.start.1, q.control_point.1, q.end.1),
            )
        },
        SliderCurve::CubicBezier(c) => {
            (
                eval_deg3(a, b, c.start.0, c.control_point.0, c.control_point_2.0, c.end.0),
                eval_deg3(a, b, c.start.1, c.control_point.1, c.control_point_2.1, c.end.1),
            )
        },
    }
}

/// Curve evaluation at parameter zero yields the start control point and at
/// the full parameter the end control point, for all three curve degrees.
pub proof fn lemma_curve_endpoints(c: SliderCurve)
    requires
        spec_curve_wf(c),
    ensures
        spec_curve_x(c, 0) == spec_curve_start(c).0,
        spec_curve_y(c, 0) == spec_curve_start(c).1,
        spec_curve_x(c, PROGRESS_SCALE as int) == spec_curve_end(c).0,
        spec_curve_y(c, PROGRESS_SCALE as int) == spec_curve_end(c).1,
{
    let s = PROGRESS_SCALE as int;
    match c {
        SliderCurve::Linear(l) => {
            vstd::arithmetic::div_mod::lemma_div_multiples_vanish(l.start.0 as int, s);
            vstd::arithmetic::div_mod::lemma_div_multiples_vanish(l.start.1 as int, s);
            vstd::arithmetic::div_mod::lemma_div_multiples_vanish(l.end.0 as int, s);
            vstd::arithmetic::div_mod::lemma_div_multiples_vanish(l.end.1 as int, s);
            let x0 = l.start.0 as int;
            let y0 = l.start.1 as int;
            let x1 = l.end.0 as int;
            let y1 = l.end.1 as int;
            assert((s - 0) * x0 + 0 * x1 == s * x0 && (s - 0) * y0 + 0 * y1 == s * y0 && 0 * x0 + s
                * x1 == s * x1 && 0 * y0 + s * y1 == s * y1) by (nonlinear_arith);
        },
        SliderCurve::QuadBezier(q) => {
            vstd::arithmetic::div_mod::lemma_div_multiples_vanish(q.start.0 as int, s * s);
            vstd::arithmetic::div_mod::lemma_div_multiples_vanish(q.start.1 as int, s * s);
            vstd::arithmetic::div_mod::lemma_div_multiples_vanish(q.end.0 as int, s * s);
            vstd::arithmetic::div_mod::lemma_div_multiples_vanish(q.end.1 as int, s * s);
            let x0 = q.start.0 as int;
            let y0 = q.start.1 as int;
            let x1 = q.control_point.0 as int;
            let y1 = q.control_point.1 as int;
            let x2 = q.end.0 as int;
            let y2 = q.end.1 as int;
            assert((s - 0) * (s - 0) * x0 + 2 * (s - 0) * 0 * x1 + 0 * 0 * x2 == (s * s) * x0 && (s
                - 0) * (s - 0) * y0 + 2 * (s - 0) * 0 * y1 + 0 * 0 * y2 == (s * s) * y0 && 0 * 0
                * x0 + 2 * 0 * s * x1 + s * s * x2 == (s * s) * x2 && 0 * 0 * y0 + 2 * 0 * s * y1
                + s * s * y2 == (s * s) * y2) by (nonlinear_arith);
        },
        SliderCurve::CubicBezier(cu) => {
            vstd::arithmetic::div_mod::lemma_div_multiples_vanish(cu.start.0 as int, s * s * s);
            vstd::arithmetic::div_mod::lemma_div_multiples_vanish(cu.start.1 as int, s * s * s);
            vstd::arithmetic::div_mod::lemma_div_multiples_vanish(cu.end.0 as int, s * s * s);
            vstd::arithmetic::div_mod::lemma_div_multiples_vanish(cu.end.1 as int, s * s * s);
            let x0 = cu.start.0 as int;
            let y0 = cu.start.1 as int;
            let x1 = cu.control_point.0 as int;
            let y1 = cu.control_point.1 as int;
            let x2 = cu.control_point_2.0 as int;
            let y2 = cu.control_point_2.1 as int;
            let x3 = cu.end.0 as int;
            let y3 = cu.end.1 as int;
            assert((s - 0) * (s - 0) * (s - 0) * x0 + 3 * (s - 0) * (s - 0) * 0 * x1 + 3 * (s - 0)
                * 0 * 0 * x2 + 0 * 0 * 0 * x3 == (s * s * s) * x0 && (s - 0) * (s - 0) * (s - 0)
                * y0 + 3 * (s - 0) * (s - 0) * 0 * y1 + 3 * (s - 0) * 0 * 0 * y2 + 0 * 0 * 0 * y3
                == (s * s * s) * y0) by (nonlinear_arith);
            assert(0 * 0 * 0 * x0 + 3 * 0 * 0 * s * x1 + 3 * 0 * s * s * x2 + s * s * s * x3 == (s
                * s * s) * x3 && 0 * 0 * 0 * y0 + 3 * 0 * 0 * s * y1 + 3 * 0 * s * s * y2 + s * s
                * s * y3 == (s * s * s) * y3) by (nonlinear_arith);
        },
    }
}

/// A slider object: its path, duration, progress through the path in
/// ten-thousandths, and hold state. The curve carries all control points.
#[derive(Copy, Clone, Debug, PartialEq)]
pub struct Slider {
    pub duration_in_us: i64,
    pub progress: i64,
    pub curve: SliderCurve,
    pub state: SliderState,
}

/// What a requested state transition means for the hold sound. Grabbing
/// (entering `DRAGGING` from elsewhere) starts it; leaving `DRAGGING` stops
/// it; everything else changes nothing. Entering `UNTOUCHED` is not a legal
/// request.
pub open spec fn spec_go_to_state(current: SliderState, next: SliderState) -> SliderStateChange {
    match next {
        SliderState::UNTOUCHED => SliderStateChange::NoChange,
        SliderState::DRAGGING(_) => match current {
            SliderState::DRAGGING(_) => SliderStateChange::NoChange,
            _ => SliderStateChange::Start,
        },
        SliderState::FINISHED(_, _) => match current {
            SliderState::DRAGGING(_) => SliderStateChange::Stop,
            _ => SliderStateChange::NoChange,
        },
    }
}

impl Slider {
    pub open spec fn wf(self, elapsed_us: int) -> bool {
        &&& spec_curve_wf(self.curve)
        &&& 1 <= self.duration_in_us <= TIME_LIMIT
        &&& 0 <= self.progress <= PROGRESS_SCALE
        &&& spec_state_wf(self.state, self.duration_in_us as int, elapsed_us)
    }

    /// Moves the state machine to `next_state` and reports what the move
    /// means for the hold sound. A transition into `UNTOUCHED` is illegal
    /// and excluded by the precondition.
    pub fn go_to_state(&mut self, next_state: SliderState) -> (result: SliderStateChange)
        requires
            !(next_state matches SliderState::UNTOUCHED),
        ensures
            final(self).state == next_state,
            final(self).duration_in_us == old(self).duration_in_us,
            final(self).progress == old(self).progress,
            final(self).curve == old(self).curve,
            result == spec_go_to_state(old(self).state, next_state),
    {
        let result = match next_state {
            SliderState::UNTOUCHED => SliderStateChange::NoChange,
            SliderState::DRAGGING(_) => match self.state {
                SliderState::DRAGGING(_) => SliderStateChange::NoChange,
                _ => SliderStateChange::Start,
            },
            SliderState::FINISHED(_, _) => match self.state {
                SliderState::DRAGGING(_) => SliderStateChange::Stop,
                _ => SliderStateChange::NoChange,
            },
        };
        self.state = next_state;
        result
    }
}

/// The slider state transition table: grabbing from `UNTOUCHED` or
/// re-grabbing from `FINISHED` starts the hold; finishing a drag stops it;
/// a self-transition of `DRAGGING` or `FINISHED` changes nothing. (A
/// transition into `UNTOUCHED` is excluded by `go_to_state`'s precondition.)
pub proof fn lemma_slider_state_transitions(v: i64, v2: i64, pct: i64, at: i64, pct2: i64, at2: i64)
    ensures
        spec_go_to_state(SliderState::UNTOUCHED, SliderState::DRAGGING(v))
            == SliderStateChange::Start,
        spec_go_to_state(SliderState::DRAGGING(v), SliderState::FINISHED(pct, at))
            == SliderStateChange::Stop,
        spec_go_to_state(SliderState::FINISHED(pct, at), SliderState::DRAGGING(v))
            == SliderStateChange::Start,
        spec_go_to_state(SliderState::DRAGGING(v), SliderState::DRAGGING(v2))
            == SliderStateChange::NoChange,
        spec_go_to_state(SliderState::FINISHED(pct, at), SliderState::FINISHED(pct2, at2))
            == SliderStateChange::NoChange,
        spec_go_to_state(SliderState::UNTOUCHED, SliderState::FINISHED(pct, at))
            == SliderStateChange::NoChange,
{
}

} // verus!
