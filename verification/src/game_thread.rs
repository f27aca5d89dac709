//! Messages crossing the boundary between the window event loop and the
//! simulation thread. The whole gameplay state and the per-frame tick live
//! here as well, mirroring the frame loop's responsibilities.

use vstd::prelude::*;
use crate::beatmap::{BeatmapError, OsuBeatMap};
use crate::consts::{
    COMBO_LIMIT, HP_SCALE, MAX_OBJECTS, SCORE_LIMIT, SCREEN_LIMIT, TIME_LIMIT, TRAIL_SAMPLE_EACH,
};
use crate::resources::{
    Combo, GameArea, GameCursor, GameEvent, GameEvents, GameInputState, Hp, Score, Time, Trail,
    TrailTimer, KEY_CODE_HIT_1, KEY_CODE_HIT_2,
};
use crate::systems::{
    spec_active_after, spec_auto_miss, spec_beatmap_error, spec_beatmap_valid, spec_circle_pass,
    spec_cursor_after, spec_decrement_lifetime, spec_hold_after, spec_marked_ids, spec_markers_of,
    spec_quit_after, spec_score_fold, spec_should_spawn, spec_slider_judge_events,
    spec_slider_judge_one, spec_slider_motion_events, spec_slider_motion_one, spec_spawn_object,
    CircleLifetimeSystem, HitSystem, InputSystem, LifetimeSystem, ObjectSpawnerSystem,
    ScoringSystem, SliderLifetimeSystem, TrailSystem,
};
use crate::world::{
    lemma_retain_contains, lemma_retain_sorted, spec_ids_increasing, spec_object_hit_pre,
    spec_retain, GameObject, GameWorld,
};

verus! {

/// A message from the window event loop to the simulation: raw input,
/// resize, or the quit request. Pointer coordinates are absolute window
/// coordinates.
#[derive(Copy, Clone, Debug, PartialEq, Eq, Structural)]
pub enum EventLoopMsg {
    Quit,
    KeyPressed(u32),
    KeyReleased(u32),
    Resized(u32, u32),
    MouseMovedBy(i64, i64),
}

/// Pointer coordinates delivered by the event loop stay within the screen
/// bound admitted by the model.
pub open spec fn spec_msg_wf(m: EventLoopMsg) -> bool {
    match m {
        EventLoopMsg::MouseMovedBy(x, y) => {
            &&& -SCREEN_LIMIT <= x <= SCREEN_LIMIT
            &&& -SCREEN_LIMIT <= y <= SCREEN_LIMIT
        },
        _ => true,
    }
}

pub open spec fn spec_msgs_wf(s: Seq<EventLoopMsg>) -> bool {
    forall|i: int| 0 <= i < s.len() ==> spec_msg_wf(#[trigger] s[i])
}

/// A message from the simulation thread back to the process: it has shut
/// down.
#[derive(Copy, Clone, Debug, PartialEq, Eq, Structural)]
pub enum GameThreadMsg {
    Quit,
}

/// The resize notifications the frame's messages contribute to the log.
pub open spec fn spec_resize_events(msgs: Seq<EventLoopMsg>) -> Seq<GameEvent>
    decreases msgs.len(),
{
    if msgs.len() == 0 {
        Seq::empty()
    } else {
        spec_resize_events(msgs.drop_last()) + (match msgs.last() {
            EventLoopMsg::Resized(w, h) => seq![GameEvent::WindowResized((w, h))],
            _ => Seq::<GameEvent>::empty(),
        })
    }
}

/// Advances the frame clock: records the delta and accumulates the total
/// elapsed time and the current timestamp.
pub fn update_time(time: &mut Time, delta_us: i64)
    requires
        old(time).wf(),
        0 <= delta_us,
        old(time).elapsed_us + delta_us <= TIME_LIMIT,
    ensures
        final(time).wf(),
        final(time).delta_us == delta_us,
        final(time).elapsed_us == old(time).elapsed_us + delta_us,
        final(time).now_us == old(time).now_us + delta_us,
{
    time.delta_us = delta_us;
    time.elapsed_us = time.elapsed_us + delta_us;
    time.now_us = time.now_us + delta_us;
}

/// The whole gameplay state: the entity store, the frame resources and the
/// spawner.
pub struct Game {
    pub world: GameWorld,
    pub time: Time,
    pub game_cursor: GameCursor,
    pub input_state: GameInputState,
    pub game_area: GameArea,
    pub hp: Hp,
    pub combo: Combo,
    pub score: Score,
    pub game_events: GameEvents,
    pub trail: Trail,
    pub trail_timer: TrailTimer,
    pub spawner: ObjectSpawnerSystem,
}

impl Game {
    /// The steady state between frames: everything valid at the current
    /// elapsed time, and no structural mutation pending.
    pub open spec fn wf(self) -> bool {
        &&& self.time.wf()
        &&& self.world.wf(self.time.elapsed_us as int)
        &&& self.world.pending_spawn@.len() == 0
        &&& self.world.pending_delete@.len() == 0
        &&& self.game_cursor.wf()
        &&& self.input_state.wf()
        &&& self.game_area.wf()
        &&& self.hp.wf()
        &&& self.game_events.wf()
        &&& self.trail.wf()
        &&& self.trail_timer.0.wf()
        &&& self.trail_timer.0.spec_elapsed() <= self.trail_timer.0.spec_duration()
        &&& self.trail_timer.0.spec_duration() == TRAIL_SAMPLE_EACH
        &&& self.spawner.wf()
    }

    /// Builds the gameplay world for a beatmap: empty entity store, default
    /// resources, a validated spawner, and the song-load notification of
    /// its first activation. A malformed beatmap is rejected whole.
    pub fn new(beatmap: OsuBeatMap) -> (r: Result<Game, BeatmapError>)
        ensures
            (r matches Ok(_)) == spec_beatmap_valid(beatmap),
            r matches Err(e) ==> spec_beatmap_error(beatmap) == Some(e),
            r matches Ok(g) ==> {
                &&& g.wf()
                &&& g.time.elapsed_us == 0
                &&& g.time.delta_us == 0
                &&& g.combo.value == 0
                &&& g.score.value == 0
                &&& g.hp.value == HP_SCALE
                &&& g.hp.drain == HP_SCALE / 10
                &&& g.world.objects@.len() == 0
                &&& g.world.next_id == 0
                &&& g.spawner.beatmap == beatmap
                &&& g.spawner.current_hit_object_index == 0
                &&& g.game_events.storage@ == seq![
                    GameEvent::SongLoad(beatmap.audio_file_name),
                ]
                &&& !g.input_state.quitting
            },
    {
        let spawner = match ObjectSpawnerSystem::new(beatmap) {
            Ok(s) => s,
            Err(e) => {
                return Err(e);
            },
        };
        let mut game_events = GameEvents::default();
        spawner.setup(&mut game_events);
        proof {
            assert(game_events.storage@ =~= seq![
                GameEvent::SongLoad(spawner.beatmap.audio_file_name),
            ]);
        }
        Ok(
            Game {
                world: GameWorld::new(),
                time: Time::default(),
                game_cursor: GameCursor::default(),
                input_state: GameInputState::default(),
                game_area: GameArea::default(),
                hp: Hp::default(),
                combo: Combo::default(),
                score: Score::default(),
                game_events,
                trail: Trail::default(),
                trail_timer: TrailTimer::default(),
                spawner,
            },
        )
    }
}

/// One frame of the simulation: the clock advances by `delta_us`, the
/// frame's window messages are applied, and the system pipeline runs in
/// order (input, trail sampling, spawning, hit detection, circle auto-miss,
/// slider motion, lifetime bookkeeping, scoring), with all structural
/// mutation applied at the closing maintain barrier. The notification log
/// holds exactly this frame's events afterwards.
pub fn tick(game: &mut Game, delta_us: i64, event_loop_messages: &Vec<EventLoopMsg>)
    requires
        old(game).wf(),
        0 <= delta_us,
        old(game).time.elapsed_us + delta_us <= TIME_LIMIT,
        spec_msgs_wf(event_loop_messages@),
        old(game).combo.value <= COMBO_LIMIT,
        old(game).score.value <= SCORE_LIMIT,
        old(game).world.objects@.len() <= MAX_OBJECTS,
        old(game).world.next_id < u64::MAX,
    ensures
        final(game).wf(),
        final(game).time == (Time {
            delta_us,
            elapsed_us: (old(game).time.elapsed_us + delta_us) as i64,
            now_us: (old(game).time.now_us + delta_us) as i64,
        }),
        final(game).game_area == old(game).game_area,
        final(game).hp.drain == old(game).hp.drain,
        final(game).spawner.beatmap == old(game).spawner.beatmap,
        final(game).input_state.quitting == spec_quit_after(
            event_loop_messages@,
            old(game).input_state.quitting,
        ),
        (final(game).game_cursor.window_x, final(game).game_cursor.window_y) == spec_cursor_after(
            event_loop_messages@,
            (old(game).game_cursor.window_x, old(game).game_cursor.window_y),
        ),
        forall|k: u32|
            final(game).input_state.active_set@.contains(k) == spec_active_after(
                event_loop_messages@,
                k,
            ),
        forall|k: u32|
            final(game).input_state.hold_set@.contains(k) == spec_hold_after(
                event_loop_messages@,
                old(game).input_state.hold_set@.contains(k),
                k,
            ),
        ({
            let msgs = event_loop_messages@;
            let time1 = Time {
                delta_us,
                elapsed_us: (old(game).time.elapsed_us + delta_us) as i64,
                now_us: (old(game).time.now_us + delta_us) as i64,
            };
            let cursor1 = GameCursor {
                window_x: spec_cursor_after(
                    msgs,
                    (old(game).game_cursor.window_x, old(game).game_cursor.window_y),
                ).0,
                window_y: spec_cursor_after(
                    msgs,
                    (old(game).game_cursor.window_x, old(game).game_cursor.window_y),
                ).1,
            };
            let active1 = spec_active_after(msgs, KEY_CODE_HIT_1);
            let active2 = spec_active_after(msgs, KEY_CODE_HIT_2);
            let holding = spec_hold_after(
                msgs,
                old(game).input_state.hold_set@.contains(KEY_CODE_HIT_1),
                KEY_CODE_HIT_1,
            ) || spec_hold_after(
                msgs,
                old(game).input_state.hold_set@.contains(KEY_CODE_HIT_2),
                KEY_CODE_HIT_2,
            );
            let area = old(game).game_area;
            let s0 = old(game).world.objects@;
            let sa = spec_circle_pass(s0, active1, cursor1, area, time1.now_us);
            let sb = spec_circle_pass(sa, active2, cursor1, area, time1.now_us);
            let sc = Seq::new(
                sb.len(),
                |i: int| spec_slider_judge_one(sb[i], holding, cursor1, area, time1).0,
            );
            let sd = Seq::new(sc.len(), |i: int| spec_auto_miss(sc[i], time1.now_us));
            let se = Seq::new(sd.len(), |i: int| spec_slider_motion_one(sd[i], time1).0);
            let sf = Seq::new(se.len(), |i: int| spec_decrement_lifetime(se[i], delta_us));
            let spawned = spec_should_spawn(old(game).spawner, time1);
            let pending1: Seq<GameObject> = if spawned {
                seq![
                    spec_spawn_object(
                        old(game).spawner.beatmap.hit_objects@[
                            old(game).spawner.current_hit_object_index as int
                        ],
                        time1.elapsed_us,
                        old(game).world.next_id,
                        old(game).spawner.timing_points_lookup.entries@,
                        old(game).spawner.beatmap.slider_multiplier_hundredths as int,
                    ),
                ]
            } else {
                Seq::empty()
            };
            &&& final(game).world.objects@ == spec_retain(sf, spec_marked_ids(se)) + pending1
            &&& final(game).spawner.current_hit_object_index == old(
                game,
            ).spawner.current_hit_object_index + (if spawned {
                1int
            } else {
                0int
            })
            &&& (
                final(game).hp.value as int,
                final(game).combo.value as int,
                final(game).score.value as int,
            ) == spec_score_fold(
                old(game).hp.value as int,
                old(game).hp.drain as int,
                old(game).combo.value as int,
                old(game).score.value as int,
                spec_markers_of(sf),
            )
            &&& final(game).game_events.storage@ == spec_resize_events(msgs)
                + spec_slider_judge_events(sb, holding, cursor1, area, time1)
                + spec_slider_motion_events(sd, time1)
        }),
{
    game.game_events.clear();
    update_time(&mut game.time, delta_us);
    let ghost msgs = event_loop_messages@;
    let ghost time1 = game.time;
    let ghost e_prev = game.time.elapsed_us - game.time.delta_us;
    // resize notifications of this frame's messages
    proof {
        assert(msgs.subrange(0, 0) =~= Seq::<EventLoopMsg>::empty());
        assert(game.game_events.storage@ =~= Seq::<GameEvent>::empty() + spec_resize_events(
            msgs.subrange(0, 0),
        ));
    }
    let mut mi: usize = 0;
    while mi < event_loop_messages.len()
        invariant
            0 <= mi <= msgs.len(),
            event_loop_messages@ == msgs,
            game.game_events.wf(),
            game.game_events.storage@ == Seq::<GameEvent>::empty() + spec_resize_events(
                msgs.subrange(0, mi as int),
            ),
            game.time == time1,
            game.world == old(game).world,
            game.game_cursor == old(game).game_cursor,
            game.input_state == old(game).input_state,
            game.game_area == old(game).game_area,
            game.hp == old(game).hp,
            game.combo == old(game).combo,
            game.score == old(game).score,
            game.trail == old(game).trail,
            game.trail_timer == old(game).trail_timer,
            game.spawner == old(game).spawner,
        decreases msgs.len() - mi,
    {
        proof {
            assert(msgs.subrange(0, mi as int + 1).drop_last() =~= msgs.subrange(0, mi as int));
            assert(msgs.subrange(0, mi as int + 1).last() == msgs[mi as int]);
        }
        match event_loop_messages[mi] {
            EventLoopMsg::Resized(w, h) => {
                game.game_events.emit(GameEvent::WindowResized((w, h)));
                proof {
                    assert(game.game_events.storage@ =~= Seq::<GameEvent>::empty()
                        + spec_resize_events(msgs.subrange(0, mi as int + 1)));
                }
            },
            _ => {},
        }
        mi = mi + 1;
    }
    proof {
        assert(msgs.subrange(0, msgs.len() as int) =~= msgs);
    }
    let ghost ev_resize = game.game_events.storage@;
    InputSystem::run(
        event_loop_messages,
        &game.time,
        &mut game.game_cursor,
        &mut game.input_state,
    );
    TrailSystem::run(&game.time, &game.game_cursor, &mut game.trail, &mut game.trail_timer);
    game.spawner.run(&game.time, &mut game.world);
    let ghost s0 = old(game).world.objects@;
    let ghost pending1 = game.world.pending_spawn@;
    proof {
        assert(game.world.objects@ == s0);
        assert forall|j: int| 0 <= j < s0.len() implies spec_object_hit_pre(
            #[trigger] s0[j],
            e_prev as int,
            game.time.elapsed_us as int,
        ) by {
            assert(s0[j].wf(e_prev as int));
            crate::world::lemma_wf_to_hit_pre(s0[j], e_prev as int, game.time.elapsed_us as int);
        }
    }
    HitSystem::run(
        &mut game.game_events,
        &game.time,
        &game.game_area,
        &game.input_state,
        &game.game_cursor,
        &mut game.world,
    );
    let ghost sc_exec = game.world.objects@;
    CircleLifetimeSystem::run(&game.time, &mut game.world);
    let ghost sd_exec = game.world.objects@;
    SliderLifetimeSystem::run(&game.time, &mut game.world, &mut game.game_events);
    let ghost se_exec = game.world.objects@;
    LifetimeSystem::run(&game.time, &mut game.world);
    let ghost sf_exec = game.world.objects@;
    ScoringSystem::run(&game.world, &mut game.hp, &mut game.combo, &mut game.score);
    game.world.maintain();
    proof {
        let e_now = game.time.elapsed_us as int;
        let cursor1 = GameCursor {
            window_x: spec_cursor_after(
                msgs,
                (old(game).game_cursor.window_x, old(game).game_cursor.window_y),
            ).0,
            window_y: spec_cursor_after(
                msgs,
                (old(game).game_cursor.window_x, old(game).game_cursor.window_y),
            ).1,
        };
        assert(game.game_cursor == cursor1);
        let area = old(game).game_area;
        let holding = spec_hold_after(
            msgs,
            old(game).input_state.hold_set@.contains(KEY_CODE_HIT_1),
            KEY_CODE_HIT_1,
        ) || spec_hold_after(
            msgs,
            old(game).input_state.hold_set@.contains(KEY_CODE_HIT_2),
            KEY_CODE_HIT_2,
        );
        let sa = spec_circle_pass(
            s0,
            spec_active_after(msgs, KEY_CODE_HIT_1),
            cursor1,
            area,
            time1.now_us,
        );
        let sb = spec_circle_pass(
            sa,
            spec_active_after(msgs, KEY_CODE_HIT_2),
            cursor1,
            area,
            time1.now_us,
        );
        let sc = Seq::new(
            sb.len(),
            |i: int| spec_slider_judge_one(sb[i], holding, cursor1, area, time1).0,
        );
        let sd = Seq::new(sc.len(), |i: int| spec_auto_miss(sc[i], time1.now_us));
        let se = Seq::new(sd.len(), |i: int| spec_slider_motion_one(sd[i], time1).0);
        let sf = Seq::new(se.len(), |i: int| spec_decrement_lifetime(se[i], delta_us));
        assert(sc_exec =~= sc);
        assert(sd_exec =~= sd);
        assert(se_exec =~= se);
        assert(sf_exec =~= sf);
        // the marker queue the frame accumulated
        assert(game.world.objects@ =~= spec_retain(sf, spec_marked_ids(se)) + pending1);
        // the notification log of the frame
        assert(game.game_events.storage@ =~= spec_resize_events(msgs) + spec_slider_judge_events(
            sb,
            holding,
            cursor1,
            area,
            time1,
        ) + spec_slider_motion_events(sd, time1));
        // identifiers are untouched by the frame's judging and bookkeeping
        assert forall|j: int| 0 <= j < sf.len() implies (#[trigger] sf[j]).id == s0[j].id by {
            assert(sc_exec[j].id == s0[j].id);
            assert(sc[j] == sc_exec[j]);
            assert(sd[j] == spec_auto_miss(sc[j], time1.now_us));
            assert(se[j] == spec_slider_motion_one(sd[j], time1).0);
            assert(sf[j] == spec_decrement_lifetime(se[j], delta_us));
        }
        // everything alive after the maintain barrier is valid now
        assert forall|j: int| 0 <= j < sf.len() implies (#[trigger] sf[j]).wf(e_now) by {
            assert(sf_exec[j].wf(e_now));
        }
        let all0 = s0 + pending1;
        assert(spec_ids_increasing(all0) && crate::world::spec_ids_below(
            all0,
            game.world.next_id as int,
        ));
        let kept = spec_retain(sf, spec_marked_ids(se));
        assert forall|p: int, q: int| 0 <= p < q < sf.len() implies sf[p].id < sf[q].id by {
            assert(all0[p].id < all0[q].id);
        }
        lemma_retain_sorted(sf, spec_marked_ids(se));
        let fin = game.world.objects@;
        assert(fin == kept + pending1);
        assert forall|p: int, q: int| 0 <= p < q < fin.len() implies fin[p].id < fin[q].id by {
            if q < kept.len() {
            } else if p < kept.len() {
                assert(kept.contains(kept[p]));
                lemma_retain_contains(sf, spec_marked_ids(se), kept[p]);
                let k = choose|k: int| 0 <= k < sf.len() && sf[k] == kept[p];
                assert(all0[k].id == fin[p].id);
                assert(all0[s0.len() + (q - kept.len())] == fin[q]);
                assert(all0[k].id < all0[s0.len() + (q - kept.len())].id);
            } else {
                assert(all0[s0.len() + (p - kept.len())] == fin[p]);
                assert(all0[s0.len() + (q - kept.len())] == fin[q]);
                assert(all0[s0.len() + (p - kept.len())].id < all0[s0.len() + (q
                    - kept.len())].id);
            }
        }
        assert forall|j: int| 0 <= j < fin.len() implies (#[trigger] fin[j]).id
            < game.world.next_id as int by {
            if j < kept.len() {
                assert(kept.contains(kept[j]));
                lemma_retain_contains(sf, spec_marked_ids(se), kept[j]);
                let k = choose|k: int| 0 <= k < sf.len() && sf[k] == kept[j];
                assert(all0[k].id == fin[j].id);
            } else {
                assert(all0[s0.len() + (j - kept.len())] == fin[j]);
            }
        }
        assert forall|j: int| 0 <= j < fin.len() implies (#[trigger] fin[j]).wf(e_now) by {
            if j < kept.len() {
                assert(kept.contains(kept[j]));
                lemma_retain_contains(sf, spec_marked_ids(se), kept[j]);
                let k = choose|k: int| 0 <= k < sf.len() && sf[k] == kept[j];
                assert(sf[k].wf(e_now));
            } else {
                assert(pending1.len() <= 1);
                assert(fin[j] == pending1[j - kept.len()]);
            }
        }
        assert(game.world.all_objects() =~= fin);
    }
}

} // verus!
