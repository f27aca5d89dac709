use rusty_osu::components::SliderStateChange;
use rusty_osu::resources::{
    Combo, GameArea, GameCursor, GameEvent, GameEvents, GameInputKeyBinding, GameInputState, Hp,
    Score, Trail, KEY_CODE_HIT_1, KEY_CODE_HIT_2,
};

#[test]
fn hp_drain_fill_test() {
    let mut hp = Hp::default();
    assert_eq!(hp.value, 1000);
    assert_eq!(hp.drain, 100);
    hp.fill();
    assert_eq!(hp.value, 1000); // full bar stays capped
    hp.drain();
    assert_eq!(hp.value, 900);
    hp.fill();
    assert_eq!(hp.value, 1000);
    let mut low = Hp { value: 40, drain: 100 };
    low.drain();
    assert_eq!(low.value, 0); // floored at zero
}

#[test]
fn combo_score_test() {
    let mut combo = Combo::default();
    let mut score = Score::default();
    combo.maintain();
    combo.maintain();
    score.on_good(&combo);
    assert_eq!(score.value, 200);
    score.on_great(&combo);
    assert_eq!(score.value, 200 + 600);
    combo.reset();
    assert_eq!(combo.value, 0);
}

#[test]
fn game_events_emit_clear_test() {
    let mut ev = GameEvents::default();
    ev.emit(GameEvent::SliderStart);
    ev.emit_on_slider_change(SliderStateChange::NoChange);
    ev.emit_on_slider_change(SliderStateChange::Stop);
    assert_eq!(ev.storage.len(), 2);
    assert_eq!(ev.storage[0], GameEvent::SliderStart);
    assert_eq!(ev.storage[1], GameEvent::SliderStop);
    ev.clear();
    assert_eq!(ev.storage.len(), 0);
}

#[test]
fn game_events_callbacks_test() {
    let mut ev = GameEvents::default();
    ev.emit(GameEvent::SongLoad(String::from("song.mp3")));
    ev.emit(GameEvent::WindowResized((640, 480)));
    ev.emit(GameEvent::SliderStart);
    ev.emit(GameEvent::SliderStop);

    let mut song = String::new();
    ev.on_song_load(|s: &String| song = s.clone());
    assert_eq!(song, "song.mp3");

    let mut size = (0u32, 0u32);
    ev.on_resized(|s: &(u32, u32)| size = *s);
    assert_eq!(size, (640, 480));

    let mut started = false;
    ev.on_slider_start(|| started = true);
    assert!(started);

    let mut stopped = false;
    ev.on_slider_end(|| stopped = true);
    assert!(stopped);

    // nothing fires on an empty log
    let empty = GameEvents::default();
    let mut fired = false;
    empty.on_slider_start(|| fired = true);
    assert!(!fired);
}

#[test]
fn game_area_transform_test() {
    let mut area = GameArea::default();
    // the default degenerate transform collapses everything onto the origin
    assert_eq!(area.game_cords_to_screen((320, 240)), (0, 0));
    // scale 3/2, translate (10, 20)
    area.set_game_area_matrix(3, 2, 10, 20);
    assert_eq!(area.scale(), (3, 2));
    assert_eq!(area.game_cords_to_screen((100, 40)), (160, 80));
}

#[test]
fn input_state_test() {
    let mut st = GameInputState::default();
    assert!(!st.is_key_active(&GameInputKeyBinding::Hit1));
    st.on_key_pressed(KEY_CODE_HIT_1, 500);
    assert!(st.is_key_active(&GameInputKeyBinding::Hit1));
    assert!(st.is_key_hold(&GameInputKeyBinding::Hit1));
    assert!(!st.is_key_active(&GameInputKeyBinding::Hit2));
    assert_eq!(st.last_pressed_at(&GameInputKeyBinding::Hit1), Some(500));
    assert_eq!(st.last_pressed_at(&GameInputKeyBinding::Hit2), None);

    st.clear_frame();
    assert!(!st.is_key_active(&GameInputKeyBinding::Hit1));
    assert!(st.is_key_hold(&GameInputKeyBinding::Hit1)); // holds persist

    st.on_key_pressed(KEY_CODE_HIT_1, 900);
    assert_eq!(st.last_pressed_at(&GameInputKeyBinding::Hit1), Some(900));

    st.on_key_released(KEY_CODE_HIT_1);
    assert!(!st.is_key_hold(&GameInputKeyBinding::Hit1));
    assert!(st.is_key_active(&GameInputKeyBinding::Hit1)); // active until frame end

    st.on_key_pressed(KEY_CODE_HIT_2, 1000);
    assert!(st.is_key_hold(&GameInputKeyBinding::Hit2));
}

#[test]
fn trail_test() {
    let mut trail = Trail::default();
    assert_eq!(trail.get(0), Some((-1, -1)));
    assert_eq!(trail.get(31), Some((-1, -1)));
    assert_eq!(trail.get(32), None);
    trail.add((5, 6));
    assert_eq!(trail.get(0), Some((5, 6)));
    assert_eq!(trail.get(1), Some((-1, -1)));
    trail.add((7, 8));
    assert_eq!(trail.get(0), Some((7, 8)));
    assert_eq!(trail.get(1), Some((5, 6)));
    assert_eq!(trail.storage.len(), 32);
}

#[test]
fn cursor_default_test() {
    let c = GameCursor::default();
    assert_eq!((c.window_x, c.window_y), (0, 0));
}
