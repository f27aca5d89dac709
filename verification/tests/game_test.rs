use rusty_osu::beatmap::{
    BeatmapError, OsuBeatMap, OsuBeatMapHitObject, OsuBeatMapHitObjectParams,
    OsuBeatMapHitObjectSliderParams, OsuBeatSliderCurveType, OsuHitObjectHitSound, TimingPoint,
};
use rusty_osu::components::{SliderState, Lifetime, GamePos, CircleHitRating, HitSound, Circle};
use rusty_osu::game_thread::{tick, EventLoopMsg, Game};
use rusty_osu::resources::{GameEvent, Time, KEY_CODE_HIT_1, KEY_CODE_HIT_2};
use rusty_osu::systems::{CircleLifetimeSystem, ObjectSpawnerSystem};
use rusty_osu::world::{GameObject, GameWorld};

fn circle_event(x: i64, y: i64, t_us: i64) -> OsuBeatMapHitObject {
    OsuBeatMapHitObject {
        x,
        y,
        time_offset_in_us: t_us,
        hit_sound: OsuHitObjectHitSound::Normal,
        object_params: Some(OsuBeatMapHitObjectParams::HitCircle),
    }
}

fn slider_event(x: i64, y: i64, t_us: i64, points: Vec<(i64, i64)>, length: i64) -> OsuBeatMapHitObject {
    OsuBeatMapHitObject {
        x,
        y,
        time_offset_in_us: t_us,
        hit_sound: OsuHitObjectHitSound::Normal,
        object_params: Some(OsuBeatMapHitObjectParams::Slider(OsuBeatMapHitObjectSliderParams {
            curve_type: OsuBeatSliderCurveType::Bezier,
            curve_points: points,
            slides: 1,
            length,
        })),
    }
}

fn basic_map(objects: Vec<OsuBeatMapHitObject>) -> OsuBeatMap {
    OsuBeatMap {
        audio_file_name: String::from("song.mp3"),
        audio_lead_in_us: 0,
        slider_multiplier_hundredths: 100,
        timing_points: vec![TimingPoint {
            time_offset_in_us: 0,
            beat_length_us: 1_000_000,
            inherited: false,
        }],
        hit_objects: objects,
    }
}

#[test]
fn song_load_on_setup_test() {
    let game = Game::new(basic_map(vec![])).unwrap();
    assert_eq!(game.game_events.storage.len(), 1);
    assert_eq!(
        game.game_events.storage[0],
        GameEvent::SongLoad(String::from("song.mp3"))
    );
}

#[test]
fn beatmap_error_variants_test() {
    let mut bm = basic_map(vec![]);
    bm.timing_points.clear();
    assert_eq!(Game::new(bm).err(), Some(BeatmapError::NoTimingPoints));

    let mut bm = basic_map(vec![]);
    bm.slider_multiplier_hundredths = 0;
    assert_eq!(Game::new(bm).err(), Some(BeatmapError::InvalidSliderMultiplier));

    let mut bm = basic_map(vec![]);
    bm.timing_points[0].beat_length_us = 0;
    assert_eq!(Game::new(bm).err(), Some(BeatmapError::InvalidTimingPoint));

    let bm = basic_map(vec![circle_event(-1, 0, 0)]);
    assert_eq!(Game::new(bm).err(), Some(BeatmapError::InvalidHitObject));

    let bm = basic_map(vec![circle_event(0, 0, 2_000_000), circle_event(0, 0, 1_000_000)]);
    assert_eq!(Game::new(bm).err(), Some(BeatmapError::UnsortedHitObjects));

    let bm = basic_map(vec![slider_event(0, 0, 0, vec![], 100)]);
    assert_eq!(Game::new(bm).err(), Some(BeatmapError::UnsupportedCurvePointCount));

    let bm = basic_map(vec![slider_event(
        0,
        0,
        0,
        vec![(1, 1), (2, 2), (3, 3), (4, 4)],
        100,
    )]);
    assert_eq!(Game::new(bm).err(), Some(BeatmapError::UnsupportedCurvePointCount));

    // length 1 at a one-microsecond beat under the largest multiplier
    // truncates to a zero-length duration
    let mut bm = basic_map(vec![slider_event(0, 0, 0, vec![(10, 10)], 1)]);
    bm.timing_points[0].beat_length_us = 1;
    bm.slider_multiplier_hundredths = 100_000;
    assert_eq!(Game::new(bm).err(), Some(BeatmapError::InvalidSliderDuration));

    assert!(Game::new(basic_map(vec![circle_event(0, 0, 0)])).is_ok());
}

#[test]
fn spawn_lead_test() {
    // an object spawns once the elapsed time is within the lead of its
    // strike time, and only one object is admitted per frame
    let bm = basic_map(vec![circle_event(10, 10, 800_000), circle_event(20, 20, 800_000)]);
    let mut game = Game::new(bm).unwrap();
    tick(&mut game, 99_999, &vec![]);
    assert_eq!(game.world.objects.len(), 0);
    tick(&mut game, 1, &vec![]);
    assert_eq!(game.world.objects.len(), 1);
    assert_eq!(game.world.objects[0].lifetime.remaining, 700_000);
    assert!(game.world.objects[0].circle.is_some());
    tick(&mut game, 1, &vec![]);
    assert_eq!(game.world.objects.len(), 2);
}

#[test]
fn quit_and_resize_test() {
    let mut game = Game::new(basic_map(vec![])).unwrap();
    tick(&mut game, 1000, &vec![EventLoopMsg::Resized(800, 600)]);
    assert!(!game.input_state.quitting);
    assert_eq!(game.game_events.storage[0], GameEvent::WindowResized((800, 600)));
    tick(&mut game, 1000, &vec![EventLoopMsg::Quit]);
    assert!(game.input_state.quitting);
}

#[test]
fn hit_circle_great_end_to_end_test() {
    // spawn a circle striking at one second; hit it dead on the cursor at
    // 1.050 seconds: GREAT, combo 1, score 300, health up by twice the drain
    let bm = basic_map(vec![circle_event(100, 200, 1_000_000)]);
    let mut game = Game::new(bm).unwrap();
    game.game_area.set_game_area_matrix(1, 1, 0, 0);
    game.hp.value = 500;
    tick(&mut game, 900_000, &vec![EventLoopMsg::MouseMovedBy(100, 200)]);
    assert_eq!(game.world.objects.len(), 1);
    tick(&mut game, 100_000, &vec![]);
    tick(&mut game, 50_000, &vec![EventLoopMsg::KeyPressed(KEY_CODE_HIT_1)]);
    assert_eq!(game.time.elapsed_us, 1_050_000);
    assert_eq!(game.score.value, 300);
    assert_eq!(game.combo.value, 1);
    assert_eq!(game.hp.value, 700);
    assert_eq!(game.world.objects.len(), 0);
}

#[test]
fn missed_circle_end_to_end_test() {
    // spawn a circle striking at one second and never hit it; past 1.201
    // seconds it is auto-marked MISS exactly once: combo resets, health
    // drops by the drain
    let bm = basic_map(vec![circle_event(100, 200, 1_000_000)]);
    let mut game = Game::new(bm).unwrap();
    game.hp.value = 500;
    game.combo.value = 5;
    tick(&mut game, 900_000, &vec![]);
    tick(&mut game, 301_000, &vec![]);
    // remaining was still ahead of the far edge when judged this frame
    assert_eq!(game.world.objects.len(), 1);
    tick(&mut game, 1_000, &vec![]);
    assert!(game.time.elapsed_us > 1_201_000);
    assert_eq!(game.hp.value, 400);
    assert_eq!(game.combo.value, 0);
    assert_eq!(game.score.value, 0);
    assert_eq!(game.world.objects.len(), 0);
}

#[test]
fn slider_full_hold_end_to_end_test() {
    // a quadratic slider of exactly one second starting at two seconds,
    // held and tracked for its whole duration: it finishes complete and
    // scores the high branch
    let bm = basic_map(vec![slider_event(
        100,
        100,
        2_000_000,
        vec![(200, 100), (300, 100)],
        100,
    )]);
    let mut game = Game::new(bm).unwrap();
    game.game_area.set_game_area_matrix(1, 1, 0, 0);
    game.hp.value = 500;
    let mut saw_start = false;
    let mut saw_stop = false;
    for k in 1..=31 {
        let mut msgs: Vec<EventLoopMsg> = Vec::new();
        // the cursor follows the slider position of the previous frame
        let pos = if game.world.objects.len() == 1 {
            (game.world.objects[0].pos.x, game.world.objects[0].pos.y)
        } else {
            (100, 100)
        };
        msgs.push(EventLoopMsg::MouseMovedBy(pos.0, pos.1));
        if k == 21 {
            // grab exactly at the slider's strike time
            msgs.push(EventLoopMsg::KeyPressed(KEY_CODE_HIT_1));
        }
        tick(&mut game, 100_000, &msgs);
        if game.game_events.storage.contains(&GameEvent::SliderStart) {
            saw_start = true;
        }
        if game.game_events.storage.contains(&GameEvent::SliderStop) {
            saw_stop = true;
        }
        if k == 25 {
            // mid-drag: four tenths through, the position follows the curve
            assert_eq!(game.world.objects.len(), 1);
            let o = &game.world.objects[0];
            assert_eq!((o.pos.x, o.pos.y), (180, 100));
            match o.slider.as_ref().unwrap().state {
                SliderState::DRAGGING(v) => assert_eq!(v, 400_000),
                ref other => panic!("expected a drag, found {:?}", other),
            }
        }
    }
    assert_eq!(game.time.elapsed_us, 3_100_000);
    assert_eq!(game.world.objects.len(), 0);
    // completed in full: the high branch scores like a GREAT
    assert_eq!(game.score.value, 300);
    assert_eq!(game.combo.value, 1);
    assert_eq!(game.hp.value, 600);
    assert!(saw_start);
    assert!(saw_stop);
}

#[test]
fn auto_miss_marks_once_test() {
    // a dead unresolved circle is marked MISS by the lifetime pass; a second
    // pass leaves the marker untouched
    let mut world = GameWorld::new();
    world.objects.push(GameObject {
        id: 0,
        pos: GamePos { x: 10, y: 10 },
        lifetime: Lifetime { remaining: -250_000 },
        rating: CircleHitRating::MISS,
        hit_sound: HitSound { value: OsuHitObjectHitSound::Normal },
        circle: Some(Circle),
        slider: None,
        despawn: None,
    });
    let time = Time { delta_us: 0, elapsed_us: 300_000, now_us: 300_000 };
    CircleLifetimeSystem::run(&time, &mut world);
    let first = world.objects[0].despawn;
    assert!(first.is_some());
    let later = Time { delta_us: 0, elapsed_us: 300_000, now_us: 300_000 };
    CircleLifetimeSystem::run(&later, &mut world);
    assert_eq!(world.objects[0].despawn, first);
}

#[test]
fn spawner_slider_duration_test() {
    // length 100 at a one-second beat under multiplier 1.00 runs one second
    let bm = basic_map(vec![slider_event(0, 0, 0, vec![(50, 50)], 100)]);
    let spawner = ObjectSpawnerSystem::new(bm).unwrap();
    let mut game_world = GameWorld::new();
    let time = Time { delta_us: 0, elapsed_us: 0, now_us: 0 };
    let mut spawner = spawner;
    spawner.run(&time, &mut game_world);
    game_world.maintain();
    assert_eq!(game_world.objects.len(), 1);
    let slider = game_world.objects[0].slider.as_ref().unwrap();
    assert_eq!(slider.duration_in_us, 1_000_000);
    assert!(matches!(slider.state, SliderState::UNTOUCHED));
    assert_eq!(slider.progress, 0);
}

#[test]
fn marker_single_writer_test() {
    // two overlapping circles, both action keys in one frame: each key scans
    // to the same first circle; the second key neither overwrites its marker
    // nor falls through to the second circle
    let bm = basic_map(vec![circle_event(100, 100, 1_000_000), circle_event(100, 100, 1_000_000)]);
    let mut game = Game::new(bm).unwrap();
    game.game_area.set_game_area_matrix(1, 1, 0, 0);
    tick(&mut game, 900_000, &vec![EventLoopMsg::MouseMovedBy(100, 100)]);
    tick(&mut game, 1_000, &vec![]);
    assert_eq!(game.world.objects.len(), 2);
    tick(
        &mut game,
        99_000,
        &vec![
            EventLoopMsg::KeyPressed(KEY_CODE_HIT_1),
            EventLoopMsg::KeyPressed(KEY_CODE_HIT_2),
        ],
    );
    // one GOOD hit scored (remaining was 99000, outside the perfect window)
    assert_eq!(game.score.value, 100);
    assert_eq!(game.combo.value, 1);
    assert_eq!(game.world.objects.len(), 1);
    assert!(game.world.objects[0].despawn.is_none());
}

#[test]
fn slider_released_early_test() {
    // grab the slider at its strike time but let go at four tenths: the drag
    // finishes at its completed fraction and scores the middle branch
    let bm = basic_map(vec![slider_event(
        100,
        100,
        2_000_000,
        vec![(200, 100), (300, 100)],
        100,
    )]);
    let mut game = Game::new(bm).unwrap();
    game.game_area.set_game_area_matrix(1, 1, 0, 0);
    game.hp.value = 500;
    for k in 1..=31 {
        let mut msgs: Vec<EventLoopMsg> = Vec::new();
        let pos = if game.world.objects.len() == 1 {
            (game.world.objects[0].pos.x, game.world.objects[0].pos.y)
        } else {
            (100, 100)
        };
        msgs.push(EventLoopMsg::MouseMovedBy(pos.0, pos.1));
        if k == 21 {
            msgs.push(EventLoopMsg::KeyPressed(KEY_CODE_HIT_1));
        }
        if k == 26 {
            msgs.push(EventLoopMsg::KeyReleased(KEY_CODE_HIT_1));
        }
        tick(&mut game, 100_000, &msgs);
        if k == 26 {
            assert!(game.game_events.storage.contains(&GameEvent::SliderStop));
            let o = &game.world.objects[0];
            match o.slider.as_ref().unwrap().state {
                SliderState::FINISHED(pct, _) => assert_eq!(pct, 4000),
                ref other => panic!("expected a finished drag, found {:?}", other),
            }
        }
    }
    assert_eq!(game.world.objects.len(), 0);
    assert_eq!(game.score.value, 100);
    assert_eq!(game.combo.value, 1);
    assert_eq!(game.hp.value, 600);
}

#[test]
fn slider_regrab_test() {
    // let go mid-drag and grab again: the drag resumes from the completed
    // fraction and, held to the end, scores the high branch
    let bm = basic_map(vec![slider_event(
        100,
        100,
        2_000_000,
        vec![(200, 100), (300, 100)],
        100,
    )]);
    let mut game = Game::new(bm).unwrap();
    game.game_area.set_game_area_matrix(1, 1, 0, 0);
    game.hp.value = 500;
    for k in 1..=31 {
        let mut msgs: Vec<EventLoopMsg> = Vec::new();
        let pos = if game.world.objects.len() == 1 {
            (game.world.objects[0].pos.x, game.world.objects[0].pos.y)
        } else {
            (100, 100)
        };
        msgs.push(EventLoopMsg::MouseMovedBy(pos.0, pos.1));
        if k == 21 || k == 28 {
            msgs.push(EventLoopMsg::KeyPressed(KEY_CODE_HIT_1));
        }
        if k == 26 {
            msgs.push(EventLoopMsg::KeyReleased(KEY_CODE_HIT_1));
        }
        tick(&mut game, 100_000, &msgs);
        if k == 28 {
            let o = &game.world.objects[0];
            match o.slider.as_ref().unwrap().state {
                SliderState::DRAGGING(v) => assert_eq!(v, 400_000),
                ref other => panic!("expected a resumed drag, found {:?}", other),
            }
        }
    }
    assert_eq!(game.world.objects.len(), 0);
    // 0.4s held before the release plus 0.3s after the re-grab: seven tenths
    assert_eq!(game.score.value, 300);
    assert_eq!(game.combo.value, 1);
    assert_eq!(game.hp.value, 600);
}
