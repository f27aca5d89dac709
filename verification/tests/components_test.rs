use rusty_osu::components::{
    curve_point_at, hit_rating, CircleHitRating, Lifetime, Slider, SliderCurve,
    SliderCurveCubicBezier, SliderCurveLinear, SliderCurveQuadBezier, SliderState,
    SliderStateChange,
};

fn lifetime(remaining: i64) -> Lifetime {
    Lifetime { remaining }
}

#[test]
fn hit_zone_boundaries_test() {
    // a circle later than the hit window is never hittable
    assert!(!lifetime(200_001).is_in_hit_zone());
    assert!(!lifetime(1_000_000).is_in_hit_zone());
    // the window itself is closed
    assert!(lifetime(200_000).is_in_hit_zone());
    assert!(lifetime(0).is_in_hit_zone());
    assert!(lifetime(-200_000).is_in_hit_zone());
    assert!(!lifetime(-200_001).is_in_hit_zone());
}

#[test]
fn perfect_zone_boundaries_test() {
    // the perfect sub-window is open
    assert!(lifetime(66_699).is_in_perfect_hit_zone());
    assert!(lifetime(-66_699).is_in_perfect_hit_zone());
    assert!(!lifetime(66_700).is_in_perfect_hit_zone());
    assert!(!lifetime(-66_700).is_in_perfect_hit_zone());
    assert!(lifetime(0).is_in_perfect_hit_zone());
}

#[test]
fn hit_rating_windows_test() {
    // inside the open perfect sub-window a hit is GREAT
    assert_eq!(hit_rating(&lifetime(0)), CircleHitRating::GREAT);
    assert_eq!(hit_rating(&lifetime(66_699)), CircleHitRating::GREAT);
    assert_eq!(hit_rating(&lifetime(-66_699)), CircleHitRating::GREAT);
    // elsewhere in the hit window a hit is GOOD
    assert_eq!(hit_rating(&lifetime(66_700)), CircleHitRating::GOOD);
    assert_eq!(hit_rating(&lifetime(-66_700)), CircleHitRating::GOOD);
    assert_eq!(hit_rating(&lifetime(200_000)), CircleHitRating::GOOD);
    assert_eq!(hit_rating(&lifetime(-200_000)), CircleHitRating::GOOD);
}

#[test]
fn lifetime_alive_dead_test() {
    assert!(Lifetime::zero().is_dead());
    assert!(!Lifetime::zero().is_alive());
    assert!(lifetime(1).is_alive());
    assert!(lifetime(-1).is_dead());
}

#[test]
fn default_rating_is_miss_test() {
    assert_eq!(CircleHitRating::default(), CircleHitRating::MISS);
}

fn slider_with_state(state: SliderState) -> Slider {
    Slider {
        duration_in_us: 1_000_000,
        progress: 0,
        curve: SliderCurve::Linear(SliderCurveLinear { start: (0, 0), end: (100, 0) }),
        state,
    }
}

#[test]
fn slider_state_machine_test() {
    // UNTOUCHED -> DRAGGING starts the hold
    let mut s = slider_with_state(SliderState::UNTOUCHED);
    assert!(matches!(s.go_to_state(SliderState::DRAGGING(0)), SliderStateChange::Start));
    // DRAGGING -> DRAGGING changes nothing
    assert!(matches!(s.go_to_state(SliderState::DRAGGING(5)), SliderStateChange::NoChange));
    // DRAGGING -> FINISHED stops the hold
    assert!(matches!(
        s.go_to_state(SliderState::FINISHED(5000, 7)),
        SliderStateChange::Stop
    ));
    // FINISHED -> FINISHED changes nothing
    assert!(matches!(
        s.go_to_state(SliderState::FINISHED(5000, 8)),
        SliderStateChange::NoChange
    ));
    // FINISHED -> DRAGGING re-grabs and starts the hold again
    assert!(matches!(s.go_to_state(SliderState::DRAGGING(500_000)), SliderStateChange::Start));
    // UNTOUCHED -> FINISHED (abandoned before any grab) changes nothing
    let mut u = slider_with_state(SliderState::UNTOUCHED);
    assert!(matches!(
        u.go_to_state(SliderState::FINISHED(0, 9)),
        SliderStateChange::NoChange
    ));
}

#[test]
fn curve_endpoints_linear_test() {
    let c = SliderCurve::Linear(SliderCurveLinear { start: (12, 34), end: (56, 78) });
    assert_eq!(curve_point_at(&c, 0), (12, 34));
    assert_eq!(curve_point_at(&c, 10_000), (56, 78));
}

#[test]
fn curve_endpoints_quadratic_test() {
    let c = SliderCurve::QuadBezier(SliderCurveQuadBezier {
        start: (12, 34),
        control_point: (1, 2),
        end: (56, 78),
    });
    assert_eq!(curve_point_at(&c, 0), (12, 34));
    assert_eq!(curve_point_at(&c, 10_000), (56, 78));
}

#[test]
fn curve_endpoints_cubic_test() {
    let c = SliderCurve::CubicBezier(SliderCurveCubicBezier {
        start: (12, 34),
        control_point: (1, 2),
        control_point_2: (3, 4),
        end: (56, 78),
    });
    assert_eq!(curve_point_at(&c, 0), (12, 34));
    assert_eq!(curve_point_at(&c, 10_000), (56, 78));
}

#[test]
fn curve_midpoint_values_test() {
    // halfway along a straight segment
    let l = SliderCurve::Linear(SliderCurveLinear { start: (0, 0), end: (100, 100) });
    assert_eq!(curve_point_at(&l, 5000), (50, 50));
    // halfway along a quadratic: weights 1/4, 1/2, 1/4
    let q = SliderCurve::QuadBezier(SliderCurveQuadBezier {
        start: (0, 0),
        control_point: (100, 0),
        end: (100, 100),
    });
    assert_eq!(curve_point_at(&q, 5000), (75, 25));
    // halfway along a cubic: weights 1/8, 3/8, 3/8, 1/8
    let c = SliderCurve::CubicBezier(SliderCurveCubicBezier {
        start: (0, 0),
        control_point: (80, 0),
        control_point_2: (80, 80),
        end: (0, 80),
    });
    assert_eq!(curve_point_at(&c, 5000), (60, 40));
}
