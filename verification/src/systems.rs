//! The per-frame systems: input mapping, trail sampling, object spawning,
//! hit detection, slider motion, lifetime bookkeeping and scoring. Each
//! system is a function of the frame's resources and the entity store, with
//! a specification-level twin that states its exact effect.

use vstd::prelude::*;
use crate::beatmap::{
    spec_all_curve_counts_ok, spec_all_objects_ok, spec_all_timing_ok, spec_curve_count_ok,
    spec_hit_object_ok, spec_timing_point_ok, BeatmapError, OsuBeatMap, OsuBeatMapHitObject,
    OsuBeatMapHitObjectParams, TimingPoint,
};
use crate::components::{
    curve_point_at, spec_curve_x, spec_curve_y, spec_hit_rating, Circle, CircleHitRating,
    DespawnObject, DespawnObjectReason, GamePos, HitSound, Lifetime, Slider, SliderCurve,
    SliderCurveCubicBezier, SliderCurveLinear, SliderCurveQuadBezier, SliderState,
    SliderStateChange,
};
use crate::consts::{
    BASE_CIRCLE_RADIUS, BEAT_LENGTH_LIMIT, COMBO_LIMIT, COORD_LIMIT, HIT_WINDOW, HP_SCALE,
    LIFETIME, MAX_OBJECTS, PROGRESS_SCALE, SCALE_LIMIT, SCORE_LIMIT, SLIDER_LENGTH_LIMIT,
    SLIDER_MULTIPLIER_LIMIT, SLIDER_RADIUS_DEN, SLIDER_RADIUS_NUM, TIME_LIMIT,
};
use crate::game_thread::{spec_msgs_wf, EventLoopMsg};
use crate::resources::{
    spec_events_of_change, spec_key_for_binding, Combo, GameArea, GameCursor, GameEvent,
    GameEvents, GameInputKeyBinding, GameInputState, Hp, Score, Time, Trail, TrailTimer,
};
use crate::utils::{
    btree_gt, btree_less, circle_contains_point, spec_btree_gt, spec_btree_less,
    spec_circle_contains_point, spec_table_insert, OrderedTable,
};
use crate::world::{
    spec_object_hit_pre, spec_object_mid_wf, spec_objects_hit_pre, spec_objects_mid_wf,
    spec_objects_wf, GameObject, GameWorld,
};

verus! {

// ---------------------------------------------------------------- input --

/// Maps the frame's raw window messages onto the input state and cursor.
pub struct InputSystem;

/// Whether quitting is requested after all messages are applied.
pub open spec fn spec_quit_after(msgs: Seq<EventLoopMsg>, was: bool) -> bool
    decreases msgs.len(),
{
    if msgs.len() == 0 {
        was
    } else {
        spec_quit_after(msgs.drop_last(), was) || (msgs.last() matches EventLoopMsg::Quit)
    }
}

/// Where the cursor is after all messages are applied.
pub open spec fn spec_cursor_after(msgs: Seq<EventLoopMsg>, was: (i64, i64)) -> (i64, i64)
    decreases msgs.len(),
{
    if msgs.len() == 0 {
        was
    } else {
        match msgs.last() {
            EventLoopMsg::MouseMovedBy(x, y) => (x, y),
            _ => spec_cursor_after(msgs.drop_last(), was),
        }
    }
}

/// Whether key `k` went down somewhere in the messages (the active set is
/// cleared at the start of the frame, and key releases do not retract it).
pub open spec fn spec_active_after(msgs: Seq<EventLoopMsg>, k: u32) -> bool
    decreases msgs.len(),
{
    if msgs.len() == 0 {
        false
    } else {
        match msgs.last() {
            EventLoopMsg::KeyPressed(p) => p == k || spec_active_after(msgs.drop_last(), k),
            _ => spec_active_after(msgs.drop_last(), k),
        }
    }
}

/// Whether key `k` is held after all messages are applied, given whether it
/// was held before.
pub open spec fn spec_hold_after(msgs: Seq<EventLoopMsg>, was: bool, k: u32) -> bool
    decreases msgs.len(),
{
    if msgs.len() == 0 {
        was
    } else {
        match msgs.last() {
            EventLoopMsg::KeyPressed(p) => {
                if p == k {
                    true
                } else {
                    spec_hold_after(msgs.drop_last(), was, k)
                }
            },
            EventLoopMsg::KeyReleased(p) => {
                if p == k {
                    false
                } else {
                    spec_hold_after(msgs.drop_last(), was, k)
                }
            },
            _ => spec_hold_after(msgs.drop_last(), was, k),
        }
    }
}

/// The press records the messages contribute, all stamped with the frame's
/// timestamp.
pub open spec fn spec_presses(msgs: Seq<EventLoopMsg>, now_us: i64) -> Seq<(u32, i64)>
    decreases msgs.len(),
{
    if msgs.len() == 0 {
        Seq::empty()
    } else {
        spec_presses(msgs.drop_last(), now_us) + (match msgs.last() {
            EventLoopMsg::KeyPressed(p) => seq![(p, now_us)],
            _ => Seq::empty(),
        })
    }
}

impl InputSystem {
    /// Drains the frame's messages: clears the active set, then applies key
    /// presses and releases, pointer motion and the quit request, in order.
    pub fn run(
        event_loop_messages: &Vec<EventLoopMsg>,
        time: &Time,
        game_cursor: &mut GameCursor,
        game_input_state: &mut GameInputState,
    )
        requires
            old(game_input_state).wf(),
            old(game_cursor).wf(),
            spec_msgs_wf(event_loop_messages@),
        ensures
            final(game_input_state).wf(),
            final(game_cursor).wf(),
            final(game_input_state).quitting == spec_quit_after(
                event_loop_messages@,
                old(game_input_state).quitting,
            ),
            (final(game_cursor).window_x, final(game_cursor).window_y) == spec_cursor_after(
                event_loop_messages@,
                (old(game_cursor).window_x, old(game_cursor).window_y),
            ),
            forall|k: u32|
                final(game_input_state).active_set@.contains(k) == spec_active_after(
                    event_loop_messages@,
                    k,
                ),
            forall|k: u32|
                final(game_input_state).hold_set@.contains(k) == spec_hold_after(
                    event_loop_messages@,
                    old(game_input_state).hold_set@.contains(k),
                    k,
                ),
            final(game_input_state).last_active_keys_map@ == old(
                game_input_state,
            ).last_active_keys_map@ + spec_presses(event_loop_messages@, time.now_us),
    {
        game_input_state.clear_frame();
        let ghost msgs = event_loop_messages@;
        let ghost hold0 = game_input_state.hold_set@;
        let ghost last0 = game_input_state.last_active_keys_map@;
        let ghost quit0 = game_input_state.quitting;
        let ghost cur0 = (game_cursor.window_x, game_cursor.window_y);
        proof {
            assert(msgs.subrange(0, 0) =~= Seq::<EventLoopMsg>::empty());
            assert(last0 + Seq::<(u32, i64)>::empty() =~= last0);
        }
        let mut i: usize = 0;
        while i < event_loop_messages.len()
            invariant
                0 <= i <= msgs.len(),
                event_loop_messages@ == msgs,
                spec_msgs_wf(msgs),
                game_input_state.wf(),
                game_cursor.wf(),
                game_input_state.quitting == spec_quit_after(msgs.subrange(0, i as int), quit0),
                (game_cursor.window_x, game_cursor.window_y) == spec_cursor_after(
                    msgs.subrange(0, i as int),
                    cur0,
                ),
                forall|k: u32|
                    game_input_state.active_set@.contains(k) == spec_active_after(
                        msgs.subrange(0, i as int),
                        k,
                    ),
                forall|k: u32|
                    game_input_state.hold_set@.contains(k) == spec_hold_after(
                        msgs.subrange(0, i as int),
                        hold0.contains(k),
                        k,
                    ),
                game_input_state.last_active_keys_map@ == last0 + spec_presses(
                    msgs.subrange(0, i as int),
                    time.now_us,
                ),
            decreases msgs.len() - i,
        {
            proof {
                assert(msgs.subrange(0, i as int + 1).drop_last() =~= msgs.subrange(0, i as int));
                assert(msgs.subrange(0, i as int + 1).last() == msgs[i as int]);
            }
            let msg = event_loop_messages[i];
            match msg {
                EventLoopMsg::Quit => {
                    game_input_state.quitting = true;
                },
                EventLoopMsg::KeyPressed(key) => {
                    game_input_state.on_key_pressed(key, time.now_us);
                    proof {
                        assert(game_input_state.last_active_keys_map@ =~= last0 + spec_presses(
                            msgs.subrange(0, i as int + 1),
                            time.now_us,
                        ));
                    }
                },
                EventLoopMsg::Resized(_, _) => {},
                EventLoopMsg::MouseMovedBy(x, y) => {
                    game_cursor.window_x = x;
                    game_cursor.window_y = y;
                },
                EventLoopMsg::KeyReleased(key) => {
                    game_input_state.on_key_released(key);
                },
            }
            i = i + 1;
        }
        proof {
            assert(msgs.subrange(0, msgs.len() as int) =~= msgs);
        }
    }
}

// ---------------------------------------------------------------- trail --

/// Samples the cursor into the trail at a fixed interval.
pub struct TrailSystem;

impl TrailSystem {
    pub fn run(time: &Time, game_cursor: &GameCursor, trail: &mut Trail, timer: &mut TrailTimer)
        requires
            time.wf(),
            old(trail).wf(),
            old(timer).0.wf(),
            old(timer).0.spec_elapsed() <= old(timer).0.spec_duration(),
        ensures
            final(trail).wf(),
            final(timer).0.wf(),
            final(timer).0.spec_elapsed() <= final(timer).0.spec_duration(),
            final(timer).0.spec_duration() == old(timer).0.spec_duration(),
            if old(timer).0.spec_elapsed() + time.delta_us > old(timer).0.spec_duration() {
                &&& final(trail).storage@ == seq![
                    (game_cursor.window_x, game_cursor.window_y),
                ] + old(trail).storage@.drop_last()
                &&& final(timer).0.spec_elapsed() == 0
            } else {
                &&& final(trail).storage@ == old(trail).storage@
                &&& final(timer).0.spec_elapsed() == old(timer).0.spec_elapsed() + time.delta_us
            },
            final(trail).index == old(trail).index,
    {
        if timer.0.tick(time.delta_us) {
            trail.add((game_cursor.window_x, game_cursor.window_y));
            timer.0.reset();
        }
    }
}

// ------------------------------------------------------------- lifetime --

/// Ages every object by the frame delta, and queues every object carrying a
/// despawn marker for deletion at the maintain barrier.
pub struct LifetimeSystem;

/// An object with its remaining lifetime lowered by the frame delta.
pub open spec fn spec_decrement_lifetime(o: GameObject, delta_us: i64) -> GameObject {
    GameObject {
        lifetime: Lifetime { remaining: (o.lifetime.remaining - delta_us) as i64 },
        ..o
    }
}

/// The identifiers of the objects carrying a despawn marker, in order.
pub open spec fn spec_marked_ids(s: Seq<GameObject>) -> Seq<u64>
    decreases s.len(),
{
    if s.len() == 0 {
        Seq::empty()
    } else {
        spec_marked_ids(s.drop_last()) + (if s.last().has_marker() {
            seq![s.last().id]
        } else {
            Seq::empty()
        })
    }
}

impl LifetimeSystem {
    pub fn run(time: &Time, world: &mut GameWorld)
        requires
            time.wf(),
            spec_objects_mid_wf(
                old(world).objects@,
                time.elapsed_us - time.delta_us,
                time.elapsed_us as int,
            ),
        ensures
            final(world).objects@.len() == old(world).objects@.len(),
            forall|i: int|
                0 <= i < old(world).objects@.len() ==> #[trigger] final(world).objects@[i]
                    == spec_decrement_lifetime(old(world).objects@[i], time.delta_us),
            final(world).pending_delete@ == old(world).pending_delete@ + spec_marked_ids(
                old(world).objects@,
            ),
            final(world).pending_spawn == old(world).pending_spawn,
            final(world).next_id == old(world).next_id,
            spec_objects_wf(final(world).objects@, time.elapsed_us as int),
    {
        let ghost orig = world.objects@;
        let ghost dels0 = world.pending_delete@;
        proof {
            assert(orig.subrange(0, 0) =~= Seq::<GameObject>::empty());
            assert(dels0 + Seq::<u64>::empty() =~= dels0);
        }
        let n: usize = world.objects.len();
        let mut i: usize = 0;
        while i < n
            invariant
                0 <= i <= n,
                n == orig.len(),
                world.objects@.len() == orig.len(),
                time.wf(),
                spec_objects_mid_wf(orig, time.elapsed_us - time.delta_us, time.elapsed_us as int),
                forall|j: int|
                    0 <= j < i ==> #[trigger] world.objects@[j] == spec_decrement_lifetime(
                        orig[j],
                        time.delta_us,
                    ),
                forall|j: int| i <= j < orig.len() ==> #[trigger] world.objects@[j] == orig[j],
                world.pending_delete@ == dels0 + spec_marked_ids(orig.subrange(0, i as int)),
                world.pending_spawn == old(world).pending_spawn,
                world.next_id == old(world).next_id,
            decreases n - i,
        {
            proof {
                assert(orig.subrange(0, i as int + 1).drop_last() =~= orig.subrange(0, i as int));
                assert(orig.subrange(0, i as int + 1).last() == orig[i as int]);
                assert(spec_object_mid_wf(
                    orig[i as int],
                    time.elapsed_us - time.delta_us,
                    time.elapsed_us as int,
                ));
            }
            let mut o = world.objects[i];
            o.lifetime = Lifetime { remaining: o.lifetime.remaining - time.delta_us };
            world.objects.set(i, o);
            if o.despawn.is_some() {
                world.queue_remove(o.id);
            }
            proof {
                assert(world.pending_delete@ =~= dels0 + spec_marked_ids(
                    orig.subrange(0, i as int + 1),
                ));
            }
            i = i + 1;
        }
        proof {
            assert(orig.subrange(0, orig.len() as int) =~= orig);
            assert forall|j: int| 0 <= j < world.objects@.len() implies (#[trigger] world.objects@[j]).wf(
                time.elapsed_us as int,
            ) by {
                assert(spec_object_mid_wf(
                    orig[j],
                    time.elapsed_us - time.delta_us,
                    time.elapsed_us as int,
                ));
                assert(world.objects@[j] == spec_decrement_lifetime(orig[j], time.delta_us));
            }
        }
    }
}

// --------------------------------------------------- circle auto-miss --

/// Marks every unresolved circle that has outlived the hit window as a
/// miss.
pub struct CircleLifetimeSystem;

/// A circle whose remaining time has fallen to or below the far edge of the
/// hit window, and which carries no marker yet, is marked `MISS`; everything
/// else is untouched.
pub open spec fn spec_auto_miss(o: GameObject, now_us: i64) -> GameObject {
    if o.is_circle() && o.lifetime.remaining <= -HIT_WINDOW && !o.has_marker() {
        GameObject {
            despawn: Some(
                DespawnObject {
                    reason: DespawnObjectReason::CircleHit(CircleHitRating::MISS),
                    despawned_at: now_us,
                },
            ),
            ..o
        }
    } else {
        o
    }
}

/// A circle is auto-marked `MISS` at most once: a second pass over an
/// already-marked object changes nothing, whatever timestamp it carries.
pub proof fn lemma_auto_miss_once(o: GameObject, t1: i64, t2: i64)
    ensures
        spec_auto_miss(spec_auto_miss(o, t1), t2) == spec_auto_miss(o, t1),
{
}

impl CircleLifetimeSystem {
    pub fn run(time: &Time, world: &mut GameWorld)
        requires
            time.wf(),
            spec_objects_mid_wf(
                old(world).objects@,
                time.elapsed_us - time.delta_us,
                time.elapsed_us as int,
            ),
        ensures
            final(world).objects@.len() == old(world).objects@.len(),
            forall|i: int|
                0 <= i < old(world).objects@.len() ==> #[trigger] final(world).objects@[i]
                    == spec_auto_miss(old(world).objects@[i], time.now_us),
            final(world).pending_delete == old(world).pending_delete,
            final(world).pending_spawn == old(world).pending_spawn,
            final(world).next_id == old(world).next_id,
            spec_objects_mid_wf(
                final(world).objects@,
                time.elapsed_us - time.delta_us,
                time.elapsed_us as int,
            ),
    {
        let ghost orig = world.objects@;
        let n: usize = world.objects.len();
        let mut i: usize = 0;
        while i < n
            invariant
                0 <= i <= n,
                n == orig.len(),
                world.objects@.len() == orig.len(),
                time.wf(),
                spec_objects_mid_wf(orig, time.elapsed_us - time.delta_us, time.elapsed_us as int),
                forall|j: int|
                    0 <= j < i ==> #[trigger] world.objects@[j] == spec_auto_miss(
                        orig[j],
                        time.now_us,
                    ),
                forall|j: int| i <= j < orig.len() ==> #[trigger] world.objects@[j] == orig[j],
                world.pending_delete == old(world).pending_delete,
                world.pending_spawn == old(world).pending_spawn,
                world.next_id == old(world).next_id,
            decreases n - i,
        {
            proof {
                assert(spec_object_mid_wf(
                    orig[i as int],
                    time.elapsed_us - time.delta_us,
                    time.elapsed_us as int,
                ));
            }
            let o = world.objects[i];
            if o.circle.is_some() && o.lifetime.remaining <= -HIT_WINDOW && o.despawn.is_none() {
                let mut o2 = o;
                o2.despawn = Some(
                    DespawnObject {
                        reason: DespawnObjectReason::CircleHit(CircleHitRating::MISS),
                        despawned_at: time.now_us,
                    },
                );
                world.objects.set(i, o2);
            }
            i = i + 1;
        }
        proof {
            assert forall|j: int| 0 <= j < world.objects@.len() implies (#[trigger] world.objects@[j]).wf(
                time.elapsed_us as int,
            ) by {
                assert(orig[j].wf(time.elapsed_us as int));
                assert(world.objects@[j] == spec_auto_miss(orig[j], time.now_us));
            }
        }
    }
}

// -------------------------------------------------------- slider motion --

/// Advances every started slider along its curve, and resolves sliders that
/// have run out their duration.
pub struct SliderLifetimeSystem;

/// Flooring multiplication-then-division never exceeds the numerator
/// product: `(a / b) * b <= a`.
pub proof fn lemma_div_mul_le(a: int, b: int)
    requires
        0 <= a,
        1 <= b,
    ensures
        0 <= (a / b) * b <= a,
{
    vstd::arithmetic::div_mod::lemma_fundamental_div_mod(a, b);
    vstd::arithmetic::div_mod::lemma_div_pos_is_pos(a, b);
    assert((a / b) * b <= a) by (nonlinear_arith)
        requires
            a == b * (a / b) + a % b,
            0 <= a % b,
    ;
}

/// Progress through the slider, in ten-thousandths, clamped at completion.
pub open spec fn spec_progress_of(remaining: int, duration: int) -> int {
    let raw = (-remaining) * PROGRESS_SCALE / duration;
    if raw > PROGRESS_SCALE {
        PROGRESS_SCALE as int
    } else {
        raw
    }
}

/// The completed fraction of a drag, in ten-thousandths.
pub open spec fn spec_pct_of(v: int, duration: int) -> int {
    v * PROGRESS_SCALE / duration
}

/// One slider under the motion system: once its strike time has passed, its
/// progress and position follow the curve; once it has run out its whole
/// duration, a running drag is finished (stopping the hold sound) and a
/// despawn marker carrying the resulting state is attached, first writer
/// wins. Circles and unstarted sliders are untouched.
pub open spec fn spec_slider_motion_one(o: GameObject, time: Time) -> (GameObject, Seq<GameEvent>) {
    match o.slider {
        Some(sl) => {
            if o.lifetime.remaining <= 0 {
                let p = spec_progress_of(o.lifetime.remaining as int, sl.duration_in_us as int);
                let pos2 = GamePos {
                    x: spec_curve_x(sl.curve, p) as i64,
                    y: spec_curve_y(sl.curve, p) as i64,
                };
                if -o.lifetime.remaining >= sl.duration_in_us {
                    let st2 = match sl.state {
                        SliderState::DRAGGING(v) => SliderState::FINISHED(
                            spec_pct_of(v as int, sl.duration_in_us as int) as i64,
                            time.now_us,
                        ),
                        other => other,
                    };
                    let evs = match sl.state {
                        SliderState::DRAGGING(_) => seq![GameEvent::SliderStop],
                        _ => Seq::<GameEvent>::empty(),
                    };
                    let marker = match o.despawn {
                        Some(d) => Some(d),
                        None => Some(
                            DespawnObject {
                                reason: DespawnObjectReason::SliderEnd(st2),
                                despawned_at: time.now_us,
                            },
                        ),
                    };
                    (
                        GameObject {
                            pos: pos2,
                            slider: Some(Slider { progress: p as i64, state: st2, ..sl }),
                            despawn: marker,
                            ..o
                        },
                        evs,
                    )
                } else {
                    (
                        GameObject {
                            pos: pos2,
                            slider: Some(Slider { progress: p as i64, ..sl }),
                            ..o
                        },
                        Seq::<GameEvent>::empty(),
                    )
                }
            } else {
                (o, Seq::<GameEvent>::empty())
            }
        },
        None => (o, Seq::<GameEvent>::empty()),
    }
}

/// The hold-sound notifications the motion system emits, in object order.
pub open spec fn spec_slider_motion_events(s: Seq<GameObject>, time: Time) -> Seq<GameEvent>
    decreases s.len(),
{
    if s.len() == 0 {
        Seq::empty()
    } else {
        spec_slider_motion_events(s.drop_last(), time) + spec_slider_motion_one(
            s.last(),
            time,
        ).1
    }
}

impl SliderLifetimeSystem {
    pub fn run(time: &Time, world: &mut GameWorld, game_events: &mut GameEvents)
        requires
            time.wf(),
            spec_objects_mid_wf(
                old(world).objects@,
                time.elapsed_us - time.delta_us,
                time.elapsed_us as int,
            ),
            old(game_events).wf(),
        ensures
            final(world).objects@.len() == old(world).objects@.len(),
            forall|i: int|
                0 <= i < old(world).objects@.len() ==> #[trigger] final(world).objects@[i]
                    == spec_slider_motion_one(old(world).objects@[i], *time).0,
            final(game_events).wf(),
            final(game_events).storage@ == old(game_events).storage@ + spec_slider_motion_events(
                old(world).objects@,
                *time,
            ),
            final(world).pending_delete == old(world).pending_delete,
            final(world).pending_spawn == old(world).pending_spawn,
            final(world).next_id == old(world).next_id,
            spec_objects_mid_wf(
                final(world).objects@,
                time.elapsed_us - time.delta_us,
                time.elapsed_us as int,
            ),
    {
        let ghost orig = world.objects@;
        let ghost ev0 = game_events.storage@;
        proof {
            assert(orig.subrange(0, 0) =~= Seq::<GameObject>::empty());
            assert(ev0 + Seq::<GameEvent>::empty() =~= ev0);
        }
        let n: usize = world.objects.len();
        let mut i: usize = 0;
        while i < n
            invariant
                0 <= i <= n,
                n == orig.len(),
                world.objects@.len() == orig.len(),
                time.wf(),
                spec_objects_mid_wf(orig, time.elapsed_us - time.delta_us, time.elapsed_us as int),
                game_events.wf(),
                forall|j: int|
                    0 <= j < i ==> #[trigger] world.objects@[j] == spec_slider_motion_one(
                        orig[j],
                        *time,
                    ).0,
                forall|j: int| i <= j < orig.len() ==> #[trigger] world.objects@[j] == orig[j],
                forall|j: int|
                    0 <= j < i ==> spec_object_mid_wf(
                        #[trigger] world.objects@[j],
                        time.elapsed_us - time.delta_us,
                        time.elapsed_us as int,
                    ),
                game_events.storage@ == ev0 + spec_slider_motion_events(
                    orig.subrange(0, i as int),
                    *time,
                ),
                world.pending_delete == old(world).pending_delete,
                world.pending_spawn == old(world).pending_spawn,
                world.next_id == old(world).next_id,
            decreases n - i,
        {
            proof {
                assert(orig.subrange(0, i as int + 1).drop_last() =~= orig.subrange(0, i as int));
                assert(orig.subrange(0, i as int + 1).last() == orig[i as int]);
                assert(spec_object_mid_wf(
                    orig[i as int],
                    time.elapsed_us - time.delta_us,
                    time.elapsed_us as int,
                ));
            }
            let o = world.objects[i];
            if let Some(sl) = o.slider {
                if o.lifetime.remaining <= 0 {
                    let neg: i64 = -o.lifetime.remaining;
                    proof {
                        vstd::arithmetic::div_mod::lemma_div_pos_is_pos(
                            neg * PROGRESS_SCALE,
                            sl.duration_in_us as int,
                        );
                        vstd::arithmetic::div_mod::lemma_div_is_ordered_by_denominator(
                            neg * PROGRESS_SCALE,
                            1,
                            sl.duration_in_us as int,
                        );
                        vstd::arithmetic::div_mod::lemma_div_basics_1(neg * PROGRESS_SCALE);
                        assert(0 <= neg * PROGRESS_SCALE <= 0x10_0000_0000_0000_0000i128)
                            by (nonlinear_arith)
                            requires
                                0 <= neg <= 0x100_0000_0000i64,
                        ;
                    }
                    let raw: i64 = ((neg as u64) * (PROGRESS_SCALE as u64) / (sl.duration_in_us
                        as u64)) as i64;
                    let p: i64 = if raw > PROGRESS_SCALE {
                        PROGRESS_SCALE
                    } else {
                        raw
                    };
                    let xy = curve_point_at(&sl.curve, p);
                    let mut o2 = o;
                    o2.pos = GamePos { x: xy.0, y: xy.1 };
                    let mut sl2 = sl;
                    sl2.progress = p;
                    if neg >= sl.duration_in_us {
                        if let SliderState::DRAGGING(v) = sl2.state {
                            proof {
                                vstd::arithmetic::div_mod::lemma_div_pos_is_pos(
                                    v * PROGRESS_SCALE,
                                    sl.duration_in_us as int,
                                );
                                vstd::arithmetic::div_mod::lemma_div_is_ordered_by_denominator(
                                    v * PROGRESS_SCALE,
                                    1,
                                    sl.duration_in_us as int,
                                );
                                vstd::arithmetic::div_mod::lemma_div_basics_1(v * PROGRESS_SCALE);
                                assert(0 <= v * PROGRESS_SCALE <= 0x10_0000_0000_0000_0000i128)
                                    by (nonlinear_arith)
                                    requires
                                        0 <= v <= 0x100_0000_0000i64,
                                ;
                            }
                            let pct: i64 = ((v as u64) * (PROGRESS_SCALE as u64) / (
                            sl.duration_in_us as u64)) as i64;
                            let change = sl2.go_to_state(
                                SliderState::FINISHED(pct, time.now_us),
                            );
                            game_events.emit_on_slider_change(change);
                            proof {
                                lemma_div_mul_le(
                                    v as int * PROGRESS_SCALE,
                                    sl.duration_in_us as int,
                                );
                                assert((v as int * PROGRESS_SCALE / (sl.duration_in_us as int))
                                    * (sl.duration_in_us as int) <= v as int * PROGRESS_SCALE);
                                assert(v as int * PROGRESS_SCALE <= time.elapsed_us as int
                                    * PROGRESS_SCALE);
                            }
                        }
                        if o2.despawn.is_none() {
                            o2.despawn = Some(
                                DespawnObject {
                                    reason: DespawnObjectReason::SliderEnd(sl2.state),
                                    despawned_at: time.now_us,
                                },
                            );
                        }
                    }
                    o2.slider = Some(sl2);
                    world.objects.set(i, o2);
                }
            }
            proof {
                assert(game_events.storage@ =~= ev0 + spec_slider_motion_events(
                    orig.subrange(0, i as int + 1),
                    *time,
                ));
                assert(world.objects@[i as int] == spec_slider_motion_one(orig[i as int], *time).0);
                assert(spec_object_mid_wf(
                    world.objects@[i as int],
                    time.elapsed_us - time.delta_us,
                    time.elapsed_us as int,
                ));
            }
            i = i + 1;
        }
        proof {
            assert(orig.subrange(0, orig.len() as int) =~= orig);
        }
    }
}


// ---------------------------------------------------------------- hits --

/// Judges circle taps against the newly active keys and drives slider hold
/// state from the held keys and the cursor.
pub struct HitSystem;

/// The circle hit radius in screen space: the base radius under the
/// viewport scale.
pub open spec fn spec_scaled_circle_radius(area: GameArea) -> int {
    BASE_CIRCLE_RADIUS * area.scale_num / (area.scale_den as int)
}

/// The larger slider hold radius in screen space: the scaled circle radius
/// times 6/5.
pub open spec fn spec_scaled_slider_radius(area: GameArea) -> int {
    spec_scaled_circle_radius(area) * SLIDER_RADIUS_NUM / (SLIDER_RADIUS_DEN as int)
}

/// Whether a tap at the cursor hits this object: it is a circle, its timing
/// is inside the hit window, and the cursor lies strictly inside its
/// screen-space radius.
pub open spec fn spec_circle_hit_match(o: GameObject, cursor: GameCursor, area: GameArea) -> bool {
    &&& o.is_circle()
    &&& o.lifetime.spec_is_in_hit_zone()
    &&& spec_circle_contains_point(
        cursor.window_x as int,
        cursor.window_y as int,
        area.spec_to_screen_x(o.pos.x as int),
        area.spec_to_screen_y(o.pos.y as int),
        spec_scaled_circle_radius(area),
    )
}

/// The first object from index `i` on that a tap at the cursor would hit.
pub open spec fn spec_scan_circle(
    s: Seq<GameObject>,
    cursor: GameCursor,
    area: GameArea,
    i: int,
) -> Option<int>
    decreases s.len() - i,
{
    if i < 0 || i >= s.len() {
        None
    } else if spec_circle_hit_match(s[i], cursor, area) {
        Some(i)
    } else {
        spec_scan_circle(s, cursor, area, i + 1)
    }
}

/// A hit circle: rated by its timing and marked for despawn.
pub open spec fn spec_circle_mark(o: GameObject, now_us: i64) -> GameObject {
    GameObject {
        rating: spec_hit_rating(o.lifetime),
        despawn: Some(
            DespawnObject {
                reason: DespawnObjectReason::CircleHit(spec_hit_rating(o.lifetime)),
                despawned_at: now_us,
            },
        ),
        ..o
    }
}

/// One judging pass for one action key: if the key went down this frame,
/// the first matching circle in creation order is resolved, and at most
/// that one. A circle already carrying a marker still consumes the key but
/// is not overwritten (a marker, once attached, is final).
pub open spec fn spec_circle_pass(
    s: Seq<GameObject>,
    active: bool,
    cursor: GameCursor,
    area: GameArea,
    now_us: i64,
) -> Seq<GameObject> {
    if !active {
        s
    } else {
        match spec_scan_circle(s, cursor, area, 0) {
            Some(i) => if s[i].has_marker() {
                s
            } else {
                s.update(i, spec_circle_mark(s[i], now_us))
            },
            None => s,
        }
    }
}

/// One slider under the hold-judging pass. From its entry into the hit
/// window to the end of its drag phase: a hold over the slider grabs it
/// from `UNTOUCHED` (or re-grabs it from `FINISHED` while incomplete) and
/// accrues drag time; losing the hold or the spatial contact finishes the
/// drag at its completed fraction.
pub open spec fn spec_slider_judge_one(
    o: GameObject,
    is_holding: bool,
    cursor: GameCursor,
    area: GameArea,
    time: Time,
) -> (GameObject, SliderStateChange) {
    match o.slider {
        Some(sl) => {
            if o.lifetime.spec_is_in_hit_zone() || o.lifetime.remaining < 0 {
                let hit = spec_circle_contains_point(
                    cursor.window_x as int,
                    cursor.window_y as int,
                    area.spec_to_screen_x(o.pos.x as int),
                    area.spec_to_screen_y(o.pos.y as int),
                    spec_scaled_slider_radius(area),
                );
                match sl.state {
                    SliderState::UNTOUCHED => {
                        if is_holding && hit {
                            (
                                GameObject {
                                    slider: Some(
                                        Slider { state: SliderState::DRAGGING(0), ..sl },
                                    ),
                                    ..o
                                },
                                SliderStateChange::Start,
                            )
                        } else {
                            (o, SliderStateChange::NoChange)
                        }
                    },
                    SliderState::DRAGGING(v) => {
                        if is_holding && hit && sl.progress <= PROGRESS_SCALE {
                            (
                                GameObject {
                                    slider: Some(
                                        Slider {
                                            state: SliderState::DRAGGING(
                                                (v + time.delta_us) as i64,
                                            ),
                                            ..sl
                                        },
                                    ),
                                    ..o
                                },
                                SliderStateChange::NoChange,
                            )
                        } else {
                            (
                                GameObject {
                                    slider: Some(
                                        Slider {
                                            state: SliderState::FINISHED(
                                                spec_pct_of(
                                                    v as int,
                                                    sl.duration_in_us as int,
                                                ) as i64,
                                                time.now_us,
                                            ),
                                            ..sl
                                        },
                                    ),
                                    ..o
                                },
                                SliderStateChange::Stop,
                            )
                        }
                    },
                    SliderState::FINISHED(pct, _) => {
                        if sl.progress < PROGRESS_SCALE && is_holding && hit {
                            (
                                GameObject {
                                    slider: Some(
                                        Slider {
                                            state: SliderState::DRAGGING(
                                                (pct * sl.duration_in_us / (
                                                PROGRESS_SCALE as int)) as i64,
                                            ),
                                            ..sl
                                        },
                                    ),
                                    ..o
                                },
                                SliderStateChange::Start,
                            )
                        } else {
                            (o, SliderStateChange::NoChange)
                        }
                    },
                }
            } else {
                (o, SliderStateChange::NoChange)
            }
        },
        None => (o, SliderStateChange::NoChange),
    }
}

/// The hold-sound notifications of the slider judging pass, in object
/// order: one start or stop per actual transition edge, never repeated
/// while holding.
pub open spec fn spec_slider_judge_events(
    s: Seq<GameObject>,
    is_holding: bool,
    cursor: GameCursor,
    area: GameArea,
    time: Time,
) -> Seq<GameEvent>
    decreases s.len(),
{
    if s.len() == 0 {
        Seq::empty()
    } else {
        spec_slider_judge_events(s.drop_last(), is_holding, cursor, area, time)
            + spec_events_of_change(
            spec_slider_judge_one(s.last(), is_holding, cursor, area, time).1,
        )
    }
}

/// A successful scan yields an in-range index of a matching object, with
/// no match before it.
pub proof fn lemma_scan_some_props(
    s: Seq<GameObject>,
    cursor: GameCursor,
    area: GameArea,
    i0: int,
    i: int,
)
    requires
        spec_scan_circle(s, cursor, area, i0) == Some(i),
        0 <= i0,
    ensures
        i0 <= i < s.len(),
        spec_circle_hit_match(s[i], cursor, area),
        forall|j: int| i0 <= j < i ==> !spec_circle_hit_match(#[trigger] s[j], cursor, area),
    decreases s.len() - i0,
{
    if i0 >= s.len() {
    } else if spec_circle_hit_match(s[i0], cursor, area) {
    } else {
        lemma_scan_some_props(s, cursor, area, i0 + 1, i);
    }
}

/// The circle pass touches nothing but the rating and the marker of at
/// most one object.
pub proof fn lemma_circle_pass_frame(
    s: Seq<GameObject>,
    active: bool,
    cursor: GameCursor,
    area: GameArea,
    now_us: i64,
)
    ensures
        spec_circle_pass(s, active, cursor, area, now_us).len() == s.len(),
        forall|j: int|
            0 <= j < s.len() ==> {
                let o2 = #[trigger] spec_circle_pass(s, active, cursor, area, now_us)[j];
                &&& o2.id == s[j].id
                &&& o2.lifetime == s[j].lifetime
                &&& o2.pos == s[j].pos
                &&& o2.slider == s[j].slider
                &&& o2.hit_sound == s[j].hit_sound
                &&& o2.circle == s[j].circle
            },
{
    if active {
        match spec_scan_circle(s, cursor, area, 0) {
            Some(i) => {
                lemma_scan_some_props(s, cursor, area, 0, i);
            },
            None => {},
        }
    }
}

fn process_circle_hit(
    time: &Time,
    game_area: &GameArea,
    input_state: &GameInputState,
    cursor: &GameCursor,
    world: &mut GameWorld,
    binding: &GameInputKeyBinding,
    radius: i64,
)
    requires
        time.wf(),
        game_area.wf(),
        cursor.wf(),
        radius as int == spec_scaled_circle_radius(*game_area),
        0 <= radius <= BASE_CIRCLE_RADIUS * SCALE_LIMIT,
        spec_objects_hit_pre(
            old(world).objects@,
            time.elapsed_us - time.delta_us,
            time.elapsed_us as int,
        ),
    ensures
        spec_objects_hit_pre(
            final(world).objects@,
            time.elapsed_us - time.delta_us,
            time.elapsed_us as int,
        ),
        final(world).objects@ == spec_circle_pass(
            old(world).objects@,
            input_state.active_set@.contains(spec_key_for_binding(*binding)),
            *cursor,
            *game_area,
            time.now_us,
        ),
        final(world).pending_delete == old(world).pending_delete,
        final(world).pending_spawn == old(world).pending_spawn,
        final(world).next_id == old(world).next_id,
{
    let ghost s = world.objects@;
    let ghost e_prev = time.elapsed_us - time.delta_us;
    if !input_state.is_key_active(binding) {
        return;
    }
    let n: usize = world.objects.len();
    let mut i: usize = 0;
    while i < n
        invariant
            0 <= i <= n,
            n == s.len(),
            world.objects@ == s,
            s == old(world).objects@,
            input_state.active_set@.contains(spec_key_for_binding(*binding)),
            time.wf(),
            game_area.wf(),
            cursor.wf(),
            radius as int == spec_scaled_circle_radius(*game_area),
            0 <= radius <= BASE_CIRCLE_RADIUS * SCALE_LIMIT,
            spec_objects_hit_pre(s, e_prev, time.elapsed_us as int),
            e_prev == time.elapsed_us - time.delta_us,
            spec_scan_circle(s, *cursor, *game_area, 0) == spec_scan_circle(
                s,
                *cursor,
                *game_area,
                i as int,
            ),
            world.pending_delete == old(world).pending_delete,
            world.pending_spawn == old(world).pending_spawn,
            world.next_id == old(world).next_id,
        decreases n - i,
    {
        proof {
            assert(spec_object_hit_pre(s[i as int], e_prev, time.elapsed_us as int));
        }
        let o = world.objects[i];
        if o.circle.is_some() && o.lifetime.is_in_hit_zone() {
            let screen = game_area.game_cords_to_screen((o.pos.x, o.pos.y));
            if circle_contains_point(
                cursor.window_x,
                cursor.window_y,
                screen.0,
                screen.1,
                radius,
            ) {
                proof {
                    assert(spec_circle_hit_match(s[i as int], *cursor, *game_area));
                    assert(spec_scan_circle(s, *cursor, *game_area, i as int) == Some(i as int));
                }
                if o.despawn.is_none() {
                    let mut o2 = o;
                    let rating = crate::components::hit_rating(&o.lifetime);
                    o2.rating = rating;
                    o2.despawn = Some(
                        DespawnObject {
                            reason: DespawnObjectReason::CircleHit(rating),
                            despawned_at: time.now_us,
                        },
                    );
                    world.objects.set(i, o2);
                    proof {
                        assert(o2 == spec_circle_mark(s[i as int], time.now_us));
                        assert(world.objects@ =~= s.update(
                            i as int,
                            spec_circle_mark(s[i as int], time.now_us),
                        ));
                        assert forall|j: int| 0 <= j < world.objects@.len() implies
                            spec_object_hit_pre(
                            #[trigger] world.objects@[j],
                            e_prev,
                            time.elapsed_us as int,
                        ) by {
                            assert(spec_object_hit_pre(s[j], e_prev, time.elapsed_us as int));
                        }
                    }
                }
                return;
            }
        }
        proof {
            assert(!spec_circle_hit_match(s[i as int], *cursor, *game_area));
        }
        i = i + 1;
    }
}

impl HitSystem {
    /// The two judging passes of the frame: circle taps for each newly
    /// active action key in turn, then slider holds under the held keys.
    pub fn run(
        game_events: &mut GameEvents,
        time: &Time,
        game_area: &GameArea,
        input_state: &GameInputState,
        cursor: &GameCursor,
        world: &mut GameWorld,
    )
        requires
            time.wf(),
            game_area.wf(),
            cursor.wf(),
            old(game_events).wf(),
            spec_objects_hit_pre(
                old(world).objects@,
                time.elapsed_us - time.delta_us,
                time.elapsed_us as int,
            ),
        ensures
            ({
                let active1 = input_state.active_set@.contains(
                    spec_key_for_binding(GameInputKeyBinding::Hit1),
                );
                let active2 = input_state.active_set@.contains(
                    spec_key_for_binding(GameInputKeyBinding::Hit2),
                );
                let holding = input_state.hold_set@.contains(
                    spec_key_for_binding(GameInputKeyBinding::Hit1),
                ) || input_state.hold_set@.contains(
                    spec_key_for_binding(GameInputKeyBinding::Hit2),
                );
                let s1 = spec_circle_pass(
                    old(world).objects@,
                    active1,
                    *cursor,
                    *game_area,
                    time.now_us,
                );
                let s2 = spec_circle_pass(s1, active2, *cursor, *game_area, time.now_us);
                &&& final(world).objects@.len() == s2.len()
                &&& forall|i: int|
                    0 <= i < s2.len() ==> #[trigger] final(world).objects@[i]
                        == spec_slider_judge_one(s2[i], holding, *cursor, *game_area, *time).0
                &&& final(game_events).storage@ == old(game_events).storage@
                    + spec_slider_judge_events(s2, holding, *cursor, *game_area, *time)
            }),
            final(game_events).wf(),
            final(world).pending_delete == old(world).pending_delete,
            final(world).pending_spawn == old(world).pending_spawn,
            final(world).next_id == old(world).next_id,
            final(world).objects@.len() == old(world).objects@.len(),
            forall|i: int|
                0 <= i < old(world).objects@.len() ==> {
                    let o2 = #[trigger] final(world).objects@[i];
                    &&& o2.id == old(world).objects@[i].id
                    &&& o2.lifetime == old(world).objects@[i].lifetime
                },
            spec_objects_mid_wf(
                final(world).objects@,
                time.elapsed_us - time.delta_us,
                time.elapsed_us as int,
            ),
    {
        let ghost s0 = world.objects@;
        let ghost e_prev = time.elapsed_us - time.delta_us;
        let scaled_circle_radius: i64 = {
            proof {
                assert(0 <= BASE_CIRCLE_RADIUS * game_area.scale_num <= BASE_CIRCLE_RADIUS
                    * SCALE_LIMIT) by (nonlinear_arith)
                    requires
                        0 <= game_area.scale_num <= SCALE_LIMIT,
                ;
                vstd::arithmetic::div_mod::lemma_div_pos_is_pos(
                    BASE_CIRCLE_RADIUS * game_area.scale_num,
                    game_area.scale_den as int,
                );
                vstd::arithmetic::div_mod::lemma_div_is_ordered_by_denominator(
                    BASE_CIRCLE_RADIUS * game_area.scale_num,
                    1,
                    game_area.scale_den as int,
                );
                vstd::arithmetic::div_mod::lemma_div_basics_1(
                    BASE_CIRCLE_RADIUS * game_area.scale_num,
                );
            }
            (((BASE_CIRCLE_RADIUS as u64) * (game_area.scale_num as u64)) / (game_area.scale_den
                as u64)) as i64
        };
        let scaled_slider_circle_radius: i64 = {
            proof {
                assert(0 <= scaled_circle_radius * SLIDER_RADIUS_NUM <= BASE_CIRCLE_RADIUS
                    * SCALE_LIMIT * SLIDER_RADIUS_NUM) by (nonlinear_arith)
                    requires
                        0 <= scaled_circle_radius <= BASE_CIRCLE_RADIUS * SCALE_LIMIT,
                ;
                vstd::arithmetic::div_mod::lemma_div_pos_is_pos(
                    scaled_circle_radius * SLIDER_RADIUS_NUM,
                    SLIDER_RADIUS_DEN as int,
                );
                vstd::arithmetic::div_mod::lemma_div_is_ordered_by_denominator(
                    scaled_circle_radius * SLIDER_RADIUS_NUM,
                    1,
                    SLIDER_RADIUS_DEN as int,
                );
                vstd::arithmetic::div_mod::lemma_div_basics_1(
                    scaled_circle_radius * SLIDER_RADIUS_NUM,
                );
            }
            (((scaled_circle_radius as u64) * (SLIDER_RADIUS_NUM as u64)) / (SLIDER_RADIUS_DEN
                as u64)) as i64
        };
        process_circle_hit(
            time,
            game_area,
            input_state,
            cursor,
            world,
            &GameInputKeyBinding::Hit1,
            scaled_circle_radius,
        );
        proof {
            lemma_circle_pass_frame(
                s0,
                input_state.active_set@.contains(spec_key_for_binding(GameInputKeyBinding::Hit1)),
                *cursor,
                *game_area,
                time.now_us,
            );
        }
        let ghost s1 = world.objects@;
        process_circle_hit(
            time,
            game_area,
            input_state,
            cursor,
            world,
            &GameInputKeyBinding::Hit2,
            scaled_circle_radius,
        );
        proof {
            lemma_circle_pass_frame(
                s1,
                input_state.active_set@.contains(spec_key_for_binding(GameInputKeyBinding::Hit2)),
                *cursor,
                *game_area,
                time.now_us,
            );
        }
        let ghost s2 = world.objects@;
        let is_holding = input_state.is_key_hold(&GameInputKeyBinding::Hit1)
            || input_state.is_key_hold(&GameInputKeyBinding::Hit2);
        process_slider_hold(
            game_events,
            time,
            game_area,
            cursor,
            world,
            is_holding,
            scaled_slider_circle_radius,
        );
        proof {
            lemma_circle_pass_frame(
                s0,
                input_state.active_set@.contains(spec_key_for_binding(GameInputKeyBinding::Hit1)),
                *cursor,
                *game_area,
                time.now_us,
            );
            lemma_circle_pass_frame(
                s1,
                input_state.active_set@.contains(spec_key_for_binding(GameInputKeyBinding::Hit2)),
                *cursor,
                *game_area,
                time.now_us,
            );
        }
    }
}

fn process_slider_hold(
    game_events: &mut GameEvents,
    time: &Time,
    game_area: &GameArea,
    cursor: &GameCursor,
    world: &mut GameWorld,
    is_holding: bool,
    radius: i64,
)
    requires
        time.wf(),
        game_area.wf(),
        cursor.wf(),
        old(game_events).wf(),
        radius as int == spec_scaled_slider_radius(*game_area),
        0 <= radius <= BASE_CIRCLE_RADIUS * SCALE_LIMIT * SLIDER_RADIUS_NUM,
        spec_objects_hit_pre(
            old(world).objects@,
            time.elapsed_us - time.delta_us,
            time.elapsed_us as int,
        ),
    ensures
        final(world).objects@.len() == old(world).objects@.len(),
        forall|i: int|
            0 <= i < old(world).objects@.len() ==> #[trigger] final(world).objects@[i]
                == spec_slider_judge_one(
                old(world).objects@[i],
                is_holding,
                *cursor,
                *game_area,
                *time,
            ).0,
        final(game_events).wf(),
        final(game_events).storage@ == old(game_events).storage@ + spec_slider_judge_events(
            old(world).objects@,
            is_holding,
            *cursor,
            *game_area,
            *time,
        ),
        final(world).pending_delete == old(world).pending_delete,
        final(world).pending_spawn == old(world).pending_spawn,
        final(world).next_id == old(world).next_id,
        spec_objects_mid_wf(
            final(world).objects@,
            time.elapsed_us - time.delta_us,
            time.elapsed_us as int,
        ),
{
    let ghost s = world.objects@;
    let ghost ev0 = game_events.storage@;
    let ghost e_prev = time.elapsed_us - time.delta_us;
    proof {
        assert(s.subrange(0, 0) =~= Seq::<GameObject>::empty());
        assert(ev0 + Seq::<GameEvent>::empty() =~= ev0);
    }
    let n: usize = world.objects.len();
    let mut i: usize = 0;
    while i < n
        invariant
            0 <= i <= n,
            n == s.len(),
            world.objects@.len() == s.len(),
            time.wf(),
            game_area.wf(),
            cursor.wf(),
            game_events.wf(),
            radius as int == spec_scaled_slider_radius(*game_area),
            0 <= radius <= BASE_CIRCLE_RADIUS * SCALE_LIMIT * SLIDER_RADIUS_NUM,
            spec_objects_hit_pre(s, e_prev, time.elapsed_us as int),
            e_prev == time.elapsed_us - time.delta_us,
            forall|j: int|
                0 <= j < i ==> #[trigger] world.objects@[j] == spec_slider_judge_one(
                    s[j],
                    is_holding,
                    *cursor,
                    *game_area,
                    *time,
                ).0,
            forall|j: int| i <= j < s.len() ==> #[trigger] world.objects@[j] == s[j],
            forall|j: int|
                0 <= j < i ==> spec_object_mid_wf(
                    #[trigger] world.objects@[j],
                    e_prev,
                    time.elapsed_us as int,
                ),
            game_events.storage@ == ev0 + spec_slider_judge_events(
                s.subrange(0, i as int),
                is_holding,
                *cursor,
                *game_area,
                *time,
            ),
            world.pending_delete == old(world).pending_delete,
            world.pending_spawn == old(world).pending_spawn,
            world.next_id == old(world).next_id,
        decreases n - i,
    {
        proof {
            assert(s.subrange(0, i as int + 1).drop_last() =~= s.subrange(0, i as int));
            assert(s.subrange(0, i as int + 1).last() == s[i as int]);
            assert(spec_object_hit_pre(s[i as int], e_prev, time.elapsed_us as int));
        }
        let o = world.objects[i];
        let mut change = SliderStateChange::NoChange;
        if let Some(sl) = o.slider {
            if o.lifetime.is_in_hit_zone() || o.lifetime.remaining < 0 {
                let screen = game_area.game_cords_to_screen((o.pos.x, o.pos.y));
                let hit = circle_contains_point(
                    cursor.window_x,
                    cursor.window_y,
                    screen.0,
                    screen.1,
                    radius,
                );
                let mut sl2 = sl;
                match sl.state {
                    SliderState::UNTOUCHED => {
                        if is_holding && hit {
                            change = sl2.go_to_state(SliderState::DRAGGING(0));
                        }
                    },
                    SliderState::DRAGGING(v) => {
                        proof {
                            vstd::arithmetic::div_mod::lemma_div_pos_is_pos(
                                v * PROGRESS_SCALE,
                                sl.duration_in_us as int,
                            );
                            vstd::arithmetic::div_mod::lemma_div_is_ordered_by_denominator(
                                v * PROGRESS_SCALE,
                                1,
                                sl.duration_in_us as int,
                            );
                            vstd::arithmetic::div_mod::lemma_div_basics_1(v * PROGRESS_SCALE);
                            assert(0 <= v * PROGRESS_SCALE <= 0x10_0000_0000_0000_0000i128)
                                by (nonlinear_arith)
                                requires
                                    0 <= v <= 0x100_0000_0000i64,
                            ;
                            lemma_div_mul_le(v as int * PROGRESS_SCALE, sl.duration_in_us as int);
                            assert(v as int * PROGRESS_SCALE <= e_prev * PROGRESS_SCALE);
                            assert(e_prev * PROGRESS_SCALE <= time.elapsed_us as int
                                * PROGRESS_SCALE);
                        }
                        if is_holding && hit && sl.progress <= PROGRESS_SCALE {
                            change = sl2.go_to_state(
                                SliderState::DRAGGING(v + time.delta_us),
                            );
                        } else {
                            let pct: i64 = ((v as u64) * (PROGRESS_SCALE as u64) / (
                            sl.duration_in_us as u64)) as i64;
                            change = sl2.go_to_state(SliderState::FINISHED(pct, time.now_us));
                        }
                    },
                    SliderState::FINISHED(pct, _) => {
                        if sl.progress < PROGRESS_SCALE && is_holding && hit {
                            proof {
                                assert(pct * sl.duration_in_us <= e_prev * PROGRESS_SCALE);
                                vstd::arithmetic::div_mod::lemma_div_pos_is_pos(
                                    pct * sl.duration_in_us,
                                    PROGRESS_SCALE as int,
                                );
                                vstd::arithmetic::div_mod::lemma_div_is_ordered(
                                    pct * sl.duration_in_us,
                                    e_prev * PROGRESS_SCALE,
                                    PROGRESS_SCALE as int,
                                );
                                vstd::arithmetic::div_mod::lemma_div_multiples_vanish(
                                    e_prev,
                                    PROGRESS_SCALE as int,
                                );
                                assert(e_prev * PROGRESS_SCALE == PROGRESS_SCALE * e_prev)
                                    by (nonlinear_arith);
                                assert(0 <= pct * sl.duration_in_us
                                    <= 0x1_0000_0000_0000_0000_0000_0000i128) by (nonlinear_arith)
                                    requires
                                        0 <= pct,
                                        pct * sl.duration_in_us <= 0x100_0000_0000i64
                                            * PROGRESS_SCALE,
                                        1 <= sl.duration_in_us,
                                ;
                            }
                            let held: i64 = (((pct as u128) * (sl.duration_in_us as u128)) / (
                            PROGRESS_SCALE as u128)) as i64;
                            change = sl2.go_to_state(SliderState::DRAGGING(held));
                        }
                    },
                }
                let mut o2 = o;
                o2.slider = Some(sl2);
                world.objects.set(i, o2);
            }
        }
        game_events.emit_on_slider_change(change);
        proof {
            assert(world.objects@[i as int] == spec_slider_judge_one(
                s[i as int],
                is_holding,
                *cursor,
                *game_area,
                *time,
            ).0);
            assert(spec_object_mid_wf(world.objects@[i as int], e_prev, time.elapsed_us as int));
            assert(game_events.storage@ =~= ev0 + spec_slider_judge_events(
                s.subrange(0, i as int + 1),
                is_holding,
                *cursor,
                *game_area,
                *time,
            ));
        }
        i = i + 1;
    }
    proof {
        assert(s.subrange(0, s.len() as int) =~= s);
        assert forall|j: int| 0 <= j < world.objects@.len() implies spec_object_mid_wf(
            #[trigger] world.objects@[j],
            e_prev,
            time.elapsed_us as int,
        ) by {
            assert(spec_object_hit_pre(s[j], e_prev, time.elapsed_us as int));
            assert(world.objects@[j] == spec_slider_judge_one(
                s[j],
                is_holding,
                *cursor,
                *game_area,
                *time,
            ).0);
        }
    }
}


// -------------------------------------------------------------- spawner --

/// Creates gameplay objects from the beatmap feed when their spawn lead
/// arrives: at most one object per frame, in event order.
pub struct ObjectSpawnerSystem {
    pub beatmap: OsuBeatMap,
    pub current_hit_object_index: usize,
    pub timing_points_lookup: OrderedTable,
}

/// The timing lookup built by inserting every timing point in order (a
/// later point at an equal time supersedes an earlier one).
pub open spec fn spec_timing_table(pts: Seq<TimingPoint>) -> Seq<(i64, i64)>
    decreases pts.len(),
{
    if pts.len() == 0 {
        Seq::empty()
    } else {
        spec_table_insert(
            spec_timing_table(pts.drop_last()),
            pts.last().time_offset_in_us,
            pts.last().beat_length_us,
        )
    }
}

proof fn lemma_table_insert_entries(s: Seq<(i64, i64)>, key: i64, value: i64)
    ensures
        forall|e: (i64, i64)|
            spec_table_insert(s, key, value).contains(e) ==> s.contains(e) || e == (key, value),
    decreases s.len(),
{
    let t = spec_table_insert(s, key, value);
    if s.len() == 0 {
        assert forall|e: (i64, i64)| t.contains(e) implies s.contains(e) || e == (key, value) by {
            let j = choose|j: int| 0 <= j < t.len() && t[j] == e;
            assert(t[0] == (key, value));
        }
    } else if key < s[0].0 {
        assert forall|e: (i64, i64)| t.contains(e) implies s.contains(e) || e == (key, value) by {
            let j = choose|j: int| 0 <= j < t.len() && t[j] == e;
            if j == 0 {
            } else {
                assert(s[j - 1] == e);
            }
        }
    } else if key == s[0].0 {
        assert forall|e: (i64, i64)| t.contains(e) implies s.contains(e) || e == (key, value) by {
            let j = choose|j: int| 0 <= j < t.len() && t[j] == e;
            if j == 0 {
            } else {
                assert(s[j] == e);
            }
        }
    } else {
        lemma_table_insert_entries(s.drop_first(), key, value);
        assert forall|e: (i64, i64)| t.contains(e) implies s.contains(e) || e == (key, value) by {
            let j = choose|j: int| 0 <= j < t.len() && t[j] == e;
            if j == 0 {
                assert(s[0] == e);
            } else {
                let r = spec_table_insert(s.drop_first(), key, value);
                assert(r[j - 1] == e);
                assert(r.contains(e));
                if s.drop_first().contains(e) {
                    let k = choose|k: int|
                        0 <= k < s.drop_first().len() && s.drop_first()[k] == e;
                    assert(s[k + 1] == e);
                }
            }
        }
    }
}

proof fn lemma_timing_table_entries(pts: Seq<TimingPoint>)
    ensures
        forall|e: (i64, i64)|
            spec_timing_table(pts).contains(e) ==> exists|i: int|
                0 <= i < pts.len() && (#[trigger] pts[i]).time_offset_in_us == e.0
                    && pts[i].beat_length_us == e.1,
    decreases pts.len(),
{
    if pts.len() == 0 {
    } else {
        lemma_timing_table_entries(pts.drop_last());
        lemma_table_insert_entries(
            spec_timing_table(pts.drop_last()),
            pts.last().time_offset_in_us,
            pts.last().beat_length_us,
        );
        assert forall|e: (i64, i64)| spec_timing_table(pts).contains(e) implies exists|i: int|
            0 <= i < pts.len() && (#[trigger] pts[i]).time_offset_in_us == e.0
                && pts[i].beat_length_us == e.1 by {
            if spec_timing_table(pts.drop_last()).contains(e) {
                let i = choose|i: int|
                    0 <= i < pts.drop_last().len() && (#[trigger] pts.drop_last()[i]).time_offset_in_us
                        == e.0 && pts.drop_last()[i].beat_length_us == e.1;
                assert(pts[i].time_offset_in_us == e.0 && pts[i].beat_length_us == e.1);
            } else {
                let i = pts.len() - 1;
                assert(pts[i].time_offset_in_us == e.0 && pts[i].beat_length_us == e.1);
            }
        }
    }
}

proof fn lemma_btree_gt_in(s: Seq<(i64, i64)>, key: i64)
    ensures
        spec_btree_gt(s, key) matches Some(v) ==> exists|i: int|
            0 <= i < s.len() && (#[trigger] s[i]).1 == v,
    decreases s.len(),
{
    if s.len() == 0 {
    } else if s[0].0 >= key {
    } else {
        lemma_btree_gt_in(s.drop_first(), key);
        match spec_btree_gt(s, key) {
            Some(v) => {
                let i = choose|i: int|
                    0 <= i < s.drop_first().len() && (#[trigger] s.drop_first()[i]).1 == v;
                assert(s[i + 1].1 == v);
            },
            None => {},
        }
    }
}

proof fn lemma_btree_less_in(s: Seq<(i64, i64)>, key: i64)
    ensures
        spec_btree_less(s, key) matches Some(v) ==> exists|i: int|
            0 <= i < s.len() && (#[trigger] s[i]).1 == v,
    decreases s.len(),
{
    if s.len() == 0 {
    } else if s.last().0 < key {
        assert(s[s.len() - 1].1 == s.last().1);
    } else {
        lemma_btree_less_in(s.drop_last(), key);
        match spec_btree_less(s, key) {
            Some(v) => {
                let i = choose|i: int|
                    0 <= i < s.drop_last().len() && (#[trigger] s.drop_last()[i]).1 == v;
                assert(s[i].1 == v);
            },
            None => {},
        }
    }
}

/// All values of the timing lookup are valid beat lengths.
pub open spec fn spec_table_values_ok(table: Seq<(i64, i64)>) -> bool {
    forall|i: int| 0 <= i < table.len() ==> 1 <= (#[trigger] table[i]).1 <= BEAT_LENGTH_LIMIT
}

/// The beat length governing an object at time `t`: the nearest timing
/// point at or after it, or, failing that, the nearest one strictly before
/// it. (With a non-empty lookup one of the two always exists; the fallback
/// value is never reached.)
pub open spec fn spec_timing_for(table: Seq<(i64, i64)>, t: i64) -> int {
    match spec_btree_gt(table, t) {
        Some(b) => b as int,
        None => match spec_btree_less(table, t) {
            Some(b) => b as int,
            None => 1,
        },
    }
}

proof fn lemma_timing_for_bounds(table: Seq<(i64, i64)>, t: i64)
    requires
        spec_table_values_ok(table),
    ensures
        1 <= spec_timing_for(table, t) <= BEAT_LENGTH_LIMIT,
{
    lemma_btree_gt_in(table, t);
    lemma_btree_less_in(table, t);
}

/// Slider duration from the beatmap's slider rules: the path length divided
/// by a hundred times the velocity multiplier, scaled by the governing beat
/// length.
pub open spec fn spec_slider_duration(table: Seq<(i64, i64)>, mult: int, t: i64, length: int) -> int {
    length * spec_timing_for(table, t) / mult
}

/// Every slider of the event list gets a representable positive duration
/// under the given lookup and multiplier.
pub open spec fn spec_durations_ok_from(
    objs: Seq<OsuBeatMapHitObject>,
    table: Seq<(i64, i64)>,
    mult: int,
) -> bool {
    forall|i: int|
        0 <= i < objs.len() ==> match (#[trigger] objs[i]).object_params {
            Some(OsuBeatMapHitObjectParams::Slider(p)) => 1 <= spec_slider_duration(
                table,
                mult,
                objs[i].time_offset_in_us,
                p.length as int,
            ) <= TIME_LIMIT,
            _ => true,
        }
}

/// Every slider of the beatmap gets a representable positive duration.
pub open spec fn spec_all_durations_ok(bm: OsuBeatMap) -> bool {
    spec_durations_ok_from(
        bm.hit_objects@,
        spec_timing_table(bm.timing_points@),
        bm.slider_multiplier_hundredths as int,
    )
}

/// Why construction of the spawner rejects a beatmap, or `None` if it is
/// accepted; the checks are ordered, so each error names the first class of
/// fault present.
pub open spec fn spec_beatmap_error(bm: OsuBeatMap) -> Option<BeatmapError> {
    if !(1 <= bm.slider_multiplier_hundredths <= SLIDER_MULTIPLIER_LIMIT) {
        Some(BeatmapError::InvalidSliderMultiplier)
    } else if bm.timing_points@.len() == 0 {
        Some(BeatmapError::NoTimingPoints)
    } else if !spec_all_timing_ok(bm.timing_points@) {
        Some(BeatmapError::InvalidTimingPoint)
    } else if !spec_all_objects_ok(bm.hit_objects@) {
        Some(BeatmapError::InvalidHitObject)
    } else if !bm.spec_sorted() {
        Some(BeatmapError::UnsortedHitObjects)
    } else if !spec_all_curve_counts_ok(bm.hit_objects@) {
        Some(BeatmapError::UnsupportedCurvePointCount)
    } else if !spec_all_durations_ok(bm) {
        Some(BeatmapError::InvalidSliderDuration)
    } else {
        None
    }
}

/// A beatmap the spawner accepts whole.
pub open spec fn spec_beatmap_valid(bm: OsuBeatMap) -> bool {
    spec_beatmap_error(bm) matches None
}

/// The beat length governing time `t`, from the lookup.
fn timing_for(lookup: &OrderedTable, t: i64) -> (beat: i64)
    requires
        spec_table_values_ok(lookup.entries@),
    ensures
        beat as int == spec_timing_for(lookup.entries@, t),
        1 <= beat <= BEAT_LENGTH_LIMIT,
{
    proof {
        lemma_timing_for_bounds(lookup.entries@, t);
        lemma_btree_gt_in(lookup.entries@, t);
        lemma_btree_less_in(lookup.entries@, t);
    }
    match btree_gt(lookup, t) {
        Some(b) => b,
        None => match btree_less(lookup, t) {
            Some(b) => b,
            None => 1,
        },
    }
}

/// Computes a slider's duration from its path length, the velocity
/// multiplier and the governing beat length.
fn slider_duration(
    lookup: &OrderedTable,
    slider_multiplier_hundredths: i64,
    time_offset_in_us: i64,
    length: i64,
) -> (d: i64)
    requires
        spec_table_values_ok(lookup.entries@),
        1 <= slider_multiplier_hundredths <= SLIDER_MULTIPLIER_LIMIT,
        1 <= length <= SLIDER_LENGTH_LIMIT,
    ensures
        d as int == spec_slider_duration(
            lookup.entries@,
            slider_multiplier_hundredths as int,
            time_offset_in_us,
            length as int,
        ),
        0 <= d,
{
    let beat = timing_for(lookup, time_offset_in_us);
    proof {
        assert(0 <= length * beat <= SLIDER_LENGTH_LIMIT * BEAT_LENGTH_LIMIT) by (nonlinear_arith)
            requires
                1 <= length <= SLIDER_LENGTH_LIMIT,
                1 <= beat <= BEAT_LENGTH_LIMIT,
        ;
        vstd::arithmetic::div_mod::lemma_div_pos_is_pos(
            length * beat,
            slider_multiplier_hundredths as int,
        );
        vstd::arithmetic::div_mod::lemma_div_is_ordered_by_denominator(
            length * beat,
            1,
            slider_multiplier_hundredths as int,
        );
        vstd::arithmetic::div_mod::lemma_div_basics_1(length * beat);
    }
    ((length as u64) * (beat as u64) / (slider_multiplier_hundredths as u64)) as i64
}

fn hit_object_ok(o: &OsuBeatMapHitObject) -> (r: bool)
    ensures
        r == spec_hit_object_ok(*o),
{
    if !(0 <= o.x && o.x <= COORD_LIMIT && 0 <= o.y && o.y <= COORD_LIMIT) {
        return false;
    }
    if !(0 <= o.time_offset_in_us && o.time_offset_in_us <= TIME_LIMIT) {
        return false;
    }
    match &o.object_params {
        Some(OsuBeatMapHitObjectParams::Slider(p)) => {
            if !(1 <= p.length && p.length <= SLIDER_LENGTH_LIMIT) {
                return false;
            }
            let mut k: usize = 0;
            while k < p.curve_points.len()
                invariant
                    0 <= k <= p.curve_points@.len(),
                    o.object_params matches Some(OsuBeatMapHitObjectParams::Slider(pp)) && pp
                        == *p,
                    0 <= o.x <= COORD_LIMIT,
                    0 <= o.y <= COORD_LIMIT,
                    0 <= o.time_offset_in_us <= TIME_LIMIT,
                    1 <= p.length <= SLIDER_LENGTH_LIMIT,
                    forall|j: int|
                        0 <= j < k ==> crate::beatmap::spec_coord_ok(
                            (#[trigger] p.curve_points@[j]).0 as int,
                        ) && crate::beatmap::spec_coord_ok(p.curve_points@[j].1 as int),
                decreases p.curve_points@.len() - k,
            {
                let pt = p.curve_points[k];
                if !(0 <= pt.0 && pt.0 <= COORD_LIMIT && 0 <= pt.1 && pt.1 <= COORD_LIMIT) {
                    return false;
                }
                k = k + 1;
            }
            true
        },
        _ => true,
    }
}

proof fn lemma_sorted_from_adjacent(objs: Seq<OsuBeatMapHitObject>, i: int, j: int)
    requires
        forall|k: int|
            0 <= k < objs.len() - 1 ==> (#[trigger] objs[k]).time_offset_in_us <= objs[k
                + 1].time_offset_in_us,
        0 <= i <= j < objs.len(),
    ensures
        objs[i].time_offset_in_us <= objs[j].time_offset_in_us,
    decreases j - i,
{
    if i < j {
        lemma_sorted_from_adjacent(objs, i, j - 1);
        assert(objs[j - 1].time_offset_in_us <= objs[j].time_offset_in_us);
    }
}

/// The curve an event's control points describe: one extra point is a
/// straight segment, two a quadratic and three a cubic Bezier curve.
pub open spec fn spec_spawn_curve(x: i64, y: i64, pts: Seq<(i64, i64)>) -> SliderCurve {
    if pts.len() == 1 {
        SliderCurve::Linear(SliderCurveLinear { start: (x, y), end: pts[0] })
    } else if pts.len() == 2 {
        SliderCurve::QuadBezier(
            SliderCurveQuadBezier { start: (x, y), control_point: pts[0], end: pts[1] },
        )
    } else {
        SliderCurve::CubicBezier(
            SliderCurveCubicBezier {
                start: (x, y),
                control_point: pts[0],
                control_point_2: pts[1],
                end: pts[2],
            },
        )
    }
}

/// The object a hit event spawns: its lifetime counts down to the event's
/// strike time, its rating starts at the default, and its kind (circle or
/// slider) follows the event's parameters.
pub open spec fn spec_spawn_object(
    o: OsuBeatMapHitObject,
    elapsed_us: i64,
    id: u64,
    table: Seq<(i64, i64)>,
    mult: int,
) -> GameObject {
    GameObject {
        id,
        pos: GamePos { x: o.x, y: o.y },
        lifetime: Lifetime { remaining: (o.time_offset_in_us - elapsed_us) as i64 },
        rating: CircleHitRating::MISS,
        hit_sound: HitSound { value: o.hit_sound },
        circle: match o.object_params {
            Some(OsuBeatMapHitObjectParams::HitCircle) => Some(Circle),
            _ => None,
        },
        slider: match o.object_params {
            Some(OsuBeatMapHitObjectParams::Slider(p)) => Some(
                Slider {
                    duration_in_us: spec_slider_duration(
                        table,
                        mult,
                        o.time_offset_in_us,
                        p.length as int,
                    ) as i64,
                    progress: 0,
                    curve: spec_spawn_curve(o.x, o.y, p.curve_points@),
                    state: SliderState::UNTOUCHED,
                },
            ),
            _ => None,
        },
        despawn: None,
    }
}

/// Whether the next event's spawn lead has arrived this frame.
pub open spec fn spec_should_spawn(s: ObjectSpawnerSystem, time: Time) -> bool {
    &&& s.current_hit_object_index < s.beatmap.hit_objects@.len()
    &&& time.elapsed_us + LIFETIME >= s.beatmap.hit_objects@[
        s.current_hit_object_index as int
    ].time_offset_in_us
}


fn timing_points_all_ok(pts: &Vec<TimingPoint>) -> (r: bool)
    ensures
        r == spec_all_timing_ok(pts@),
{
    let mut i: usize = 0;
    while i < pts.len()
        invariant
            0 <= i <= pts@.len(),
            forall|j: int| 0 <= j < i ==> spec_timing_point_ok(#[trigger] pts@[j]),
        decreases pts@.len() - i,
    {
        let tp = pts[i];
        if !(0 <= tp.time_offset_in_us && tp.time_offset_in_us <= TIME_LIMIT
            && 1 <= tp.beat_length_us && tp.beat_length_us <= BEAT_LENGTH_LIMIT) {
            return false;
        }
        i = i + 1;
    }
    true
}

fn hit_objects_all_ok(objs: &Vec<OsuBeatMapHitObject>) -> (r: bool)
    ensures
        r == spec_all_objects_ok(objs@),
{
    let mut i: usize = 0;
    while i < objs.len()
        invariant
            0 <= i <= objs@.len(),
            forall|j: int| 0 <= j < i ==> spec_hit_object_ok(#[trigger] objs@[j]),
        decreases objs@.len() - i,
    {
        if !hit_object_ok(&objs[i]) {
            return false;
        }
        i = i + 1;
    }
    true
}

fn hit_objects_sorted(objs: &Vec<OsuBeatMapHitObject>) -> (r: bool)
    ensures
        r == forall|p: int, q: int|
            0 <= p < q < objs@.len() ==> #[trigger] objs@[p].time_offset_in_us
                <= #[trigger] objs@[q].time_offset_in_us,
{
    if objs.len() == 0 {
        return true;
    }
    let mut i: usize = 1;
    while i < objs.len()
        invariant
            1 <= i <= objs@.len(),
            objs@.len() > 0,
            forall|k: int|
                0 <= k < i - 1 ==> (#[trigger] objs@[k]).time_offset_in_us <= objs@[k
                    + 1].time_offset_in_us,
        decreases objs@.len() - i,
    {
        if objs[i - 1].time_offset_in_us > objs[i].time_offset_in_us {
            return false;
        }
        i = i + 1;
    }
    proof {
        assert forall|p: int, q: int| 0 <= p < q < objs@.len() implies #[trigger] objs@[
        p].time_offset_in_us <= #[trigger] objs@[q].time_offset_in_us by {
            lemma_sorted_from_adjacent(objs@, p, q);
        }
    }
    true
}

fn curve_counts_all_ok(objs: &Vec<OsuBeatMapHitObject>) -> (r: bool)
    ensures
        r == spec_all_curve_counts_ok(objs@),
{
    let mut i: usize = 0;
    while i < objs.len()
        invariant
            0 <= i <= objs@.len(),
            forall|j: int|
                0 <= j < i ==> match (#[trigger] objs@[j]).object_params {
                    Some(OsuBeatMapHitObjectParams::Slider(p)) => spec_curve_count_ok(p),
                    _ => true,
                },
        decreases objs@.len() - i,
    {
        match &objs[i].object_params {
            Some(OsuBeatMapHitObjectParams::Slider(p)) => {
                let count = p.curve_points.len();
                if !(1 <= count && count <= 3) {
                    return false;
                }
            },
            _ => {},
        }
        i = i + 1;
    }
    true
}

fn durations_all_ok(
    objs: &Vec<OsuBeatMapHitObject>,
    lookup: &OrderedTable,
    slider_multiplier_hundredths: i64,
) -> (r: bool)
    requires
        spec_table_values_ok(lookup.entries@),
        1 <= slider_multiplier_hundredths <= SLIDER_MULTIPLIER_LIMIT,
        spec_all_objects_ok(objs@),
    ensures
        r == spec_durations_ok_from(
            objs@,
            lookup.entries@,
            slider_multiplier_hundredths as int,
        ),
{
    let mut i: usize = 0;
    while i < objs.len()
        invariant
            0 <= i <= objs@.len(),
            spec_table_values_ok(lookup.entries@),
            1 <= slider_multiplier_hundredths <= SLIDER_MULTIPLIER_LIMIT,
            spec_all_objects_ok(objs@),
            forall|j: int|
                0 <= j < i ==> match (#[trigger] objs@[j]).object_params {
                    Some(OsuBeatMapHitObjectParams::Slider(p)) => 1 <= spec_slider_duration(
                        lookup.entries@,
                        slider_multiplier_hundredths as int,
                        objs@[j].time_offset_in_us,
                        p.length as int,
                    ) <= TIME_LIMIT,
                    _ => true,
                },
        decreases objs@.len() - i,
    {
        match &objs[i].object_params {
            Some(OsuBeatMapHitObjectParams::Slider(p)) => {
                proof {
                    assert(spec_hit_object_ok(objs@[i as int]));
                }
                let d = slider_duration(
                    lookup,
                    slider_multiplier_hundredths,
                    objs[i].time_offset_in_us,
                    p.length,
                );
                if !(1 <= d && d <= TIME_LIMIT) {
                    return false;
                }
            },
            _ => {},
        }
        i = i + 1;
    }
    true
}

fn build_timing_lookup(pts: &Vec<TimingPoint>) -> (lookup: OrderedTable)
    ensures
        lookup.wf(),
        lookup.entries@ == spec_timing_table(pts@),
{
    let mut timings_lookup = OrderedTable::new();
    let mut i: usize = 0;
    proof {
        assert(pts@.subrange(0, 0) =~= Seq::<TimingPoint>::empty());
    }
    while i < pts.len()
        invariant
            0 <= i <= pts@.len(),
            timings_lookup.wf(),
            timings_lookup.entries@ == spec_timing_table(pts@.subrange(0, i as int)),
        decreases pts@.len() - i,
    {
        proof {
            assert(pts@.subrange(0, i as int + 1).drop_last() =~= pts@.subrange(0, i as int));
            assert(pts@.subrange(0, i as int + 1).last() == pts@[i as int]);
        }
        let tp = pts[i];
        timings_lookup.insert(tp.time_offset_in_us, tp.beat_length_us);
        i = i + 1;
    }
    proof {
        assert(pts@.subrange(0, pts@.len() as int) =~= pts@);
    }
    timings_lookup
}

impl ObjectSpawnerSystem {
    pub open spec fn wf(self) -> bool {
        &&& spec_beatmap_valid(self.beatmap)
        &&& self.current_hit_object_index <= self.beatmap.hit_objects@.len()
        &&& self.timing_points_lookup.wf()
        &&& self.timing_points_lookup.entries@ == spec_timing_table(self.beatmap.timing_points@)
        &&& spec_table_values_ok(self.timing_points_lookup.entries@)
    }

    /// Validates the beatmap whole and builds the timing lookup; a beatmap
    /// with any malformed input is rejected and no spawner is constructed.
    pub fn new(beatmap: OsuBeatMap) -> (r: Result<ObjectSpawnerSystem, BeatmapError>)
        ensures
            r matches Ok(s) ==> {
                &&& s.wf()
                &&& s.beatmap == beatmap
                &&& s.current_hit_object_index == 0
            },
            (r matches Ok(_)) == spec_beatmap_valid(beatmap),
            r matches Err(e) ==> spec_beatmap_error(beatmap) == Some(e),
    {
        if !(1 <= beatmap.slider_multiplier_hundredths && beatmap.slider_multiplier_hundredths
            <= SLIDER_MULTIPLIER_LIMIT) {
            return Err(BeatmapError::InvalidSliderMultiplier);
        }
        if beatmap.timing_points.len() == 0 {
            return Err(BeatmapError::NoTimingPoints);
        }
        if !timing_points_all_ok(&beatmap.timing_points) {
            return Err(BeatmapError::InvalidTimingPoint);
        }
        if !hit_objects_all_ok(&beatmap.hit_objects) {
            return Err(BeatmapError::InvalidHitObject);
        }
        if !hit_objects_sorted(&beatmap.hit_objects) {
            return Err(BeatmapError::UnsortedHitObjects);
        }
        if !curve_counts_all_ok(&beatmap.hit_objects) {
            return Err(BeatmapError::UnsupportedCurvePointCount);
        }
        let timings_lookup = build_timing_lookup(&beatmap.timing_points);
        proof {
            lemma_timing_table_entries(beatmap.timing_points@);
            assert forall|j: int| 0 <= j < timings_lookup.entries@.len() implies 1 <= (
            #[trigger] timings_lookup.entries@[j]).1 <= BEAT_LENGTH_LIMIT by {
                assert(timings_lookup.entries@.contains(timings_lookup.entries@[j]));
            }
        }
        if !durations_all_ok(
            &beatmap.hit_objects,
            &timings_lookup,
            beatmap.slider_multiplier_hundredths,
        ) {
            return Err(BeatmapError::InvalidSliderDuration);
        }
        Ok(
            ObjectSpawnerSystem {
                beatmap,
                current_hit_object_index: 0,
                timing_points_lookup: timings_lookup,
            },
        )
    }

    /// On first activation: asks the audio collaborator to load the map's
    /// song.
    pub fn setup(&self, game_events: &mut GameEvents)
        requires
            old(game_events).wf(),
        ensures
            final(game_events).wf(),
            final(game_events).storage@ == old(game_events).storage@.push(
                GameEvent::SongLoad(self.beatmap.audio_file_name),
            ),
    {
        game_events.emit(GameEvent::SongLoad(self.beatmap.audio_file_name.clone()));
    }

    /// Spawns the next scheduled object once the current time is within the
    /// spawn lead of its strike time; one object per frame at most.
    pub fn run(&mut self, time: &Time, world: &mut GameWorld)
        requires
            old(self).wf(),
            time.wf(),
            old(world).wf_ids(),
            old(world).next_id < u64::MAX,
        ensures
            final(self).wf(),
            final(self).beatmap == old(self).beatmap,
            final(self).timing_points_lookup == old(self).timing_points_lookup,
            final(world).wf_ids(),
            final(world).objects == old(world).objects,
            final(world).pending_delete == old(world).pending_delete,
            if spec_should_spawn(*old(self), *time) {
                &&& final(self).current_hit_object_index == old(self).current_hit_object_index + 1
                &&& final(world).next_id == old(world).next_id + 1
                &&& final(world).pending_spawn@ == old(world).pending_spawn@.push(
                    spec_spawn_object(
                        old(self).beatmap.hit_objects@[
                            old(self).current_hit_object_index as int
                        ],
                        time.elapsed_us,
                        old(world).next_id,
                        old(self).timing_points_lookup.entries@,
                        old(self).beatmap.slider_multiplier_hundredths as int,
                    ),
                )
                &&& final(world).pending_spawn@.last().wf(time.elapsed_us as int)
            } else {
                &&& final(self).current_hit_object_index == old(self).current_hit_object_index
                &&& final(world).next_id == old(world).next_id
                &&& final(world).pending_spawn == old(world).pending_spawn
            },
    {
        if self.current_hit_object_index >= self.beatmap.hit_objects.len() {
            return;
        }
        let idx = self.current_hit_object_index;
        let t_evt = self.beatmap.hit_objects[idx].time_offset_in_us;
        proof {
            assert(spec_hit_object_ok(self.beatmap.hit_objects@[idx as int]));
        }
        if time.elapsed_us + LIFETIME >= t_evt {
            let obj = &self.beatmap.hit_objects[idx];
            let mut circle: Option<Circle> = None;
            let mut slider: Option<Slider> = None;
            match &obj.object_params {
                Some(OsuBeatMapHitObjectParams::HitCircle) => {
                    circle = Some(Circle);
                },
                Some(OsuBeatMapHitObjectParams::Slider(slider_data)) => {
                    proof {
                        assert(spec_curve_count_ok(
                            match self.beatmap.hit_objects@[idx as int].object_params {
                                Some(OsuBeatMapHitObjectParams::Slider(p)) => p,
                                _ => arbitrary(),
                            },
                        ));
                    }
                    let slider_curve: SliderCurve = if slider_data.curve_points.len() == 1 {
                        let end = slider_data.curve_points[0];
                        SliderCurve::Linear(SliderCurveLinear { start: (obj.x, obj.y), end })
                    } else if slider_data.curve_points.len() == 2 {
                        let p1 = slider_data.curve_points[0];
                        let p2 = slider_data.curve_points[1];
                        SliderCurve::QuadBezier(
                            SliderCurveQuadBezier {
                                start: (obj.x, obj.y),
                                control_point: p1,
                                end: p2,
                            },
                        )
                    } else {
                        let p1 = slider_data.curve_points[0];
                        let p2 = slider_data.curve_points[1];
                        let p3 = slider_data.curve_points[2];
                        SliderCurve::CubicBezier(
                            SliderCurveCubicBezier {
                                start: (obj.x, obj.y),
                                control_point: p1,
                                control_point_2: p2,
                                end: p3,
                            },
                        )
                    };
                    let duration = slider_duration(
                        &self.timing_points_lookup,
                        self.beatmap.slider_multiplier_hundredths,
                        obj.time_offset_in_us,
                        slider_data.length,
                    );
                    proof {
                        assert(spec_all_durations_ok(self.beatmap));
                        assert(1 <= duration <= TIME_LIMIT);
                    }
                    slider = Some(
                        Slider {
                            duration_in_us: duration,
                            progress: 0,
                            curve: slider_curve,
                            state: SliderState::UNTOUCHED,
                        },
                    );
                },
                None => {},
            }
            let gobj = GameObject {
                id: 0,
                pos: GamePos { x: obj.x, y: obj.y },
                lifetime: Lifetime { remaining: t_evt - time.elapsed_us },
                rating: CircleHitRating::MISS,
                hit_sound: HitSound { value: obj.hit_sound },
                circle,
                slider,
                despawn: None,
            };
            world.queue_spawn(gobj);
            self.current_hit_object_index = idx + 1;
            proof {
                let se = spec_spawn_object(
                    old(self).beatmap.hit_objects@[idx as int],
                    time.elapsed_us,
                    old(world).next_id,
                    old(self).timing_points_lookup.entries@,
                    old(self).beatmap.slider_multiplier_hundredths as int,
                );
                assert(world.pending_spawn@.last() == se);
                assert(se.wf(time.elapsed_us as int));
            }
        }
    }
}

// -------------------------------------------------------------- scoring --

/// Folds the frame's despawn markers into score, combo and health.
pub struct ScoringSystem;

/// Health after one drain, on the integer model.
pub open spec fn spec_hp_drain(hp: int, drain: int) -> int {
    if hp >= drain {
        hp - drain
    } else {
        0
    }
}

/// Health after one fill, on the integer model.
pub open spec fn spec_hp_fill(hp: int, drain: int) -> int {
    if hp + drain <= HP_SCALE {
        hp + drain
    } else {
        HP_SCALE as int
    }
}

/// The effect of one despawn marker on `(health, combo, score)`. A marker
/// of a still-dragging slider is an internal-consistency violation that the
/// pipeline proves impossible; the step leaves the state unchanged on it.
pub open spec fn spec_score_step(
    hp: int,
    drain: int,
    combo: int,
    score: int,
    reason: DespawnObjectReason,
) -> (int, int, int) {
    match reason {
        DespawnObjectReason::CircleHit(CircleHitRating::MISS) => (
            spec_hp_drain(hp, drain),
            0,
            score,
        ),
        DespawnObjectReason::CircleHit(CircleHitRating::GOOD) => (
            spec_hp_fill(hp, drain),
            combo + 1,
            score + (combo + 1) * 100,
        ),
        DespawnObjectReason::CircleHit(CircleHitRating::GREAT) => (
            spec_hp_fill(spec_hp_fill(hp, drain), drain),
            combo + 1,
            score + (combo + 1) * 300,
        ),
        DespawnObjectReason::SliderEnd(crate::components::SliderState::UNTOUCHED) => (
            spec_hp_drain(hp, drain),
            0,
            score,
        ),
        DespawnObjectReason::SliderEnd(crate::components::SliderState::DRAGGING(_)) => (
            hp,
            combo,
            score,
        ),
        DespawnObjectReason::SliderEnd(crate::components::SliderState::FINISHED(pct, _)) => {
            if pct > 6000 {
                (spec_hp_fill(hp, drain), combo + 1, score + (combo + 1) * 300)
            } else if pct > 2000 {
                (spec_hp_fill(hp, drain), combo + 1, score + (combo + 1) * 100)
            } else {
                (hp, combo, score)
            }
        },
    }
}

/// The despawn marker reasons the objects carry, in object order.
pub open spec fn spec_markers_of(s: Seq<GameObject>) -> Seq<DespawnObjectReason>
    decreases s.len(),
{
    if s.len() == 0 {
        Seq::empty()
    } else {
        spec_markers_of(s.drop_last()) + (match s.last().despawn {
            Some(d) => seq![d.reason],
            None => Seq::empty(),
        })
    }
}

/// The fold of a whole marker sequence over `(health, combo, score)`.
pub open spec fn spec_score_fold(
    hp: int,
    drain: int,
    combo: int,
    score: int,
    ms: Seq<DespawnObjectReason>,
) -> (int, int, int)
    decreases ms.len(),
{
    if ms.len() == 0 {
        (hp, combo, score)
    } else {
        let prev = spec_score_fold(hp, drain, combo, score, ms.drop_last());
        spec_score_step(prev.0, drain, prev.1, prev.2, ms.last())
    }
}

/// Scoring is a pure deterministic fold: replaying the same marker sequence
/// from the same initial state yields identical results.
pub proof fn lemma_scoring_deterministic(
    hp1: int,
    drain1: int,
    combo1: int,
    score1: int,
    ms1: Seq<DespawnObjectReason>,
    hp2: int,
    drain2: int,
    combo2: int,
    score2: int,
    ms2: Seq<DespawnObjectReason>,
)
    requires
        hp1 == hp2,
        drain1 == drain2,
        combo1 == combo2,
        score1 == score2,
        ms1 == ms2,
    ensures
        spec_score_fold(hp1, drain1, combo1, score1, ms1) == spec_score_fold(
            hp2,
            drain2,
            combo2,
            score2,
            ms2,
        ),
{
}

/// No object carries a marker of a still-dragging slider.
pub open spec fn spec_no_dragging_markers(s: Seq<GameObject>) -> bool {
    forall|i: int|
        0 <= i < s.len() ==> !((#[trigger] s[i]).despawn matches Some(d) && d.reason
            matches DespawnObjectReason::SliderEnd(crate::components::SliderState::DRAGGING(_)))
}

impl ScoringSystem {
    /// Reads the markers of the frame (the objects are deleted only at the
    /// maintain barrier afterwards) and applies each once.
    pub fn run(world: &GameWorld, hp: &mut Hp, combo: &mut Combo, score: &mut Score)
        requires
            old(hp).wf(),
            old(combo).value <= COMBO_LIMIT,
            old(score).value <= SCORE_LIMIT,
            world.objects@.len() <= MAX_OBJECTS,
        ensures
            final(hp).wf(),
            final(hp).drain == old(hp).drain,
            (final(hp).value as int, final(combo).value as int, final(score).value as int)
                == spec_score_fold(
                old(hp).value as int,
                old(hp).drain as int,
                old(combo).value as int,
                old(score).value as int,
                spec_markers_of(world.objects@),
            ),
            final(combo).value <= old(combo).value + world.objects@.len(),
    {
        let ghost objs = world.objects@;
        let ghost hp0 = old(hp).value as int;
        let ghost drain0 = old(hp).drain as int;
        let ghost combo0 = old(combo).value as int;
        let ghost score0 = old(score).value as int;
        proof {
            assert(objs.subrange(0, 0) =~= Seq::<GameObject>::empty());
        }
        let n: usize = world.objects.len();
        let mut i: usize = 0;
        while i < n
            invariant
                0 <= i <= n,
                n == objs.len(),
                world.objects@ == objs,
                n <= MAX_OBJECTS,
                hp.wf(),
                hp.drain as int == drain0,
                combo0 <= COMBO_LIMIT,
                score0 <= SCORE_LIMIT,
                (hp.value as int, combo.value as int, score.value as int) == spec_score_fold(
                    hp0,
                    drain0,
                    combo0,
                    score0,
                    spec_markers_of(objs.subrange(0, i as int)),
                ),
                combo.value <= combo0 + i,
                score.value <= score0 + i * 644_559_667_200,
            decreases n - i,
        {
            proof {
                assert(objs.subrange(0, i as int + 1).drop_last() =~= objs.subrange(0, i as int));
                assert(objs.subrange(0, i as int + 1).last() == objs[i as int]);
            }
            let o = &world.objects[i];
            if let Some(d) = o.despawn {
                proof {
                    let m2 = spec_markers_of(objs.subrange(0, i as int + 1));
                    assert(m2 =~= spec_markers_of(objs.subrange(0, i as int)).push(d.reason));
                    assert(m2.drop_last() =~= spec_markers_of(objs.subrange(0, i as int)));
                    assert(m2.last() == d.reason);
                    assert(combo0 + i + 1 <= COMBO_LIMIT as int + MAX_OBJECTS as int);
                }
                match d.reason {
                    DespawnObjectReason::CircleHit(rating) => match rating {
                        CircleHitRating::MISS => {
                            hp.drain();
                            combo.reset();
                        },
                        CircleHitRating::GOOD => {
                            combo.maintain();
                            hp.fill();
                            score.on_good(&combo);
                        },
                        CircleHitRating::GREAT => {
                            combo.maintain();
                            hp.fill();
                            hp.fill();
                            score.on_great(&combo);
                        },
                    },
                    DespawnObjectReason::SliderEnd(slider_score) => match slider_score {
                        crate::components::SliderState::UNTOUCHED => {
                            hp.drain();
                            combo.reset();
                        },
                        crate::components::SliderState::DRAGGING(_) => {
                            // A slider must never despawn while dragging;
                            // the pipeline's invariants rule this marker
                            // out, and the fold leaves the state unchanged.
                        },
                        crate::components::SliderState::FINISHED(percent_completed, _) => {
                            if percent_completed > 6000 {
                                hp.fill();
                                combo.maintain();
                                score.on_great(&combo);
                            } else if percent_completed > 2000 {
                                hp.fill();
                                combo.maintain();
                                score.on_good(&combo);
                            }
                        },
                    },
                }
            } else {
                proof {
                    assert(spec_markers_of(objs.subrange(0, i as int + 1)) =~= spec_markers_of(
                        objs.subrange(0, i as int),
                    ));
                }
            }
            i = i + 1;
        }
        proof {
            assert(objs.subrange(0, objs.len() as int) =~= objs);
        }
    }
}

} // verus!
