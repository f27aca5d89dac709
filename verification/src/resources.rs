//! Frame-wide resources: cursor, health, trail, clock, viewport transform,
//! input state, combo, score and the per-frame notification log.

use vstd::prelude::*;
use crate::components::SliderStateChange;
use crate::consts::{
    COORD_LIMIT, HP_SCALE, SCALE_LIMIT, SCREEN_LIMIT, TIME_LIMIT, TRAIL_SAMPLE_EACH, TRIAL_POINTS,
};
use crate::utils::Timer;

verus! {

/// The cursor position in screen coordinates.
#[derive(Debug, PartialEq, Eq, Structural, Copy, Clone)]
pub struct GameCursor {
    pub window_x: i64,
    pub window_y: i64,
}

impl GameCursor {
    pub open spec fn wf(self) -> bool {
        &&& -SCREEN_LIMIT <= self.window_x <= SCREEN_LIMIT
        &&& -SCREEN_LIMIT <= self.window_y <= SCREEN_LIMIT
    }
}

impl Default for GameCursor {
    fn default() -> (r: Self)
        ensures
            r.window_x == 0,
            r.window_y == 0,
    {
        GameCursor { window_x: 0, window_y: 0 }
    }
}

/// Player health in thousandths of a full bar, and the amount one miss
/// drains (and one success restores).
#[derive(Debug, PartialEq, Eq, Structural, Copy, Clone)]
pub struct Hp {
    pub value: i64,
    pub drain: i64,
}

impl Hp {
    pub open spec fn wf(self) -> bool {
        &&& 0 <= self.value <= HP_SCALE
        &&& 0 <= self.drain <= HP_SCALE
    }

    /// Lowers health by the drain amount, with a floor of zero.
    pub fn drain(&mut self)
        requires
            old(self).wf(),
        ensures
            final(self).wf(),
            final(self).value == if old(self).value >= old(self).drain {
                old(self).value - old(self).drain
            } else {
                0
            },
            final(self).drain == old(self).drain,
    {
        if self.value >= self.drain {
            self.value = self.value - self.drain;
        } else {
            self.value = 0;
        }
    }

    /// Raises health by the drain amount, with a ceiling of a full bar.
    pub fn fill(&mut self)
        requires
            old(self).wf(),
        ensures
            final(self).wf(),
            final(self).value == if old(self).value + old(self).drain <= HP_SCALE {
                old(self).value + old(self).drain
            } else {
                HP_SCALE as int
            },
            final(self).drain == old(self).drain,
    {
        if self.value + self.drain <= HP_SCALE {
            self.value = self.value + self.drain;
        } else {
            self.value = HP_SCALE;
        }
    }
}

impl Default for Hp {
    /// A full bar, draining a tenth per miss.
    fn default() -> (r: Self)
        ensures
            r.value == HP_SCALE,
            r.drain == HP_SCALE / 10,
            r.wf(),
    {
        Hp { value: HP_SCALE, drain: HP_SCALE / 10 }
    }
}

/// Recent cursor positions, newest first, always exactly `TRIAL_POINTS`
/// entries; read by rendering.
#[derive(Debug)]
pub struct Trail {
    pub storage: Vec<(i64, i64)>,
    pub index: usize,
}

impl Trail {
    pub open spec fn wf(self) -> bool {
        self.storage@.len() == TRIAL_POINTS
    }

    /// Pushes the newest sample to the front, dropping the oldest.
    pub fn add(&mut self, cords: (i64, i64))
        requires
            old(self).wf(),
        ensures
            final(self).wf(),
            final(self).storage@ == seq![cords] + old(self).storage@.drop_last(),
            final(self).index == old(self).index,
    {
        self.storage.insert(0, cords);
        self.storage.pop();
        proof {
            assert(final(self).storage@ =~= seq![cords] + old(self).storage@.drop_last());
        }
    }

    pub fn get(&self, index: usize) -> (r: Option<(i64, i64)>)
        ensures
            r == if index < self.storage@.len() {
                Some(self.storage@[index as int])
            } else {
                None::<(i64, i64)>
            },
    {
        if index < self.storage.len() {
            Some(self.storage[index])
        } else {
            None
        }
    }
}

impl Default for Trail {
    /// All samples start off-screen at (-1, -1).
    fn default() -> (r: Self)
        ensures
            r.wf(),
            r.storage@.len() == TRIAL_POINTS,
            forall|i: int| 0 <= i < TRIAL_POINTS ==> r.storage@[i] == (-1i64, -1i64),
            r.index == 0,
    {
        let mut storage: Vec<(i64, i64)> = Vec::new();
        let mut i: usize = 0;
        while i < TRIAL_POINTS
            invariant
                0 <= i <= TRIAL_POINTS,
                storage@.len() == i,
                forall|j: int| 0 <= j < i ==> storage@[j] == (-1i64, -1i64),
            decreases TRIAL_POINTS - i,
        {
            storage.push((-1, -1));
            i = i + 1;
        }
        Trail { storage, index: 0 }
    }
}

/// The timer that paces trail sampling.
pub struct TrailTimer(pub Timer);

impl Default for TrailTimer {
    fn default() -> (r: Self)
        ensures
            r.0.wf(),
            r.0.spec_elapsed() == 0,
            r.0.spec_duration() == TRAIL_SAMPLE_EACH,
    {
        TrailTimer(Timer::new(TRAIL_SAMPLE_EACH))
    }
}

/// Placeholder resource of the spawner.
#[derive(Debug, Default)]
pub struct CircleSpawnerData {}

/// The frame clock: the delta of the current frame, the total elapsed
/// simulation time, and the current timestamp, all in microseconds. `now_us`
/// counts from simulation start, so it always equals `elapsed_us`; it is
/// kept as its own field because consumers treat it as a wall-clock reading.
#[derive(Debug, PartialEq, Eq, Structural, Copy, Clone)]
pub struct Time {
    pub delta_us: i64,
    pub elapsed_us: i64,
    pub now_us: i64,
}

impl Time {
    pub open spec fn wf(self) -> bool {
        &&& 0 <= self.delta_us <= self.elapsed_us
        &&& 0 <= self.elapsed_us <= TIME_LIMIT
        &&& self.now_us == self.elapsed_us
    }
}

impl Default for Time {
    fn default() -> (r: Self)
        ensures
            r.delta_us == 0,
            r.elapsed_us == 0,
            r.now_us == 0,
            r.wf(),
    {
        Time { delta_us: 0, elapsed_us: 0, now_us: 0 }
    }
}

/// The viewport transform published once per frame by the rendering
/// collaborator: a uniform scale (`scale_num / scale_den`, the same on both
/// axes by construction) followed by a translation, mapping playfield
/// coordinates to screen coordinates. The default is a degenerate zero
/// scale, under which nothing is hittable until a transform is published.
#[derive(Debug, PartialEq, Eq, Structural, Copy, Clone)]
pub struct GameArea {
    pub scale_num: i64,
    pub scale_den: i64,
    pub translate_x: i64,
    pub translate_y: i64,
}

impl GameArea {
    pub open spec fn wf(self) -> bool {
        &&& 0 <= self.scale_num <= SCALE_LIMIT
        &&& 1 <= self.scale_den <= SCALE_LIMIT
        &&& -SCREEN_LIMIT <= self.translate_x <= SCREEN_LIMIT
        &&& -SCREEN_LIMIT <= self.translate_y <= SCREEN_LIMIT
    }

    /// Screen x of a playfield x: scale, then translate.
    pub open spec fn spec_to_screen_x(self, x: int) -> int {
        x * self.scale_num / (self.scale_den as int) + self.translate_x
    }

    /// Screen y of a playfield y: scale, then translate.
    pub open spec fn spec_to_screen_y(self, y: int) -> int {
        y * self.scale_num / (self.scale_den as int) + self.translate_y
    }

    /// Maps a playfield position into screen coordinates through the
    /// current transform.
    pub fn game_cords_to_screen(&self, xy: (i64, i64)) -> (r: (i64, i64))
        requires
            self.wf(),
            0 <= xy.0 <= COORD_LIMIT,
            0 <= xy.1 <= COORD_LIMIT,
        ensures
            r.0 == self.spec_to_screen_x(xy.0 as int),
            r.1 == self.spec_to_screen_y(xy.1 as int),
            -2 * SCREEN_LIMIT <= r.0 <= 2 * SCREEN_LIMIT,
            -2 * SCREEN_LIMIT <= r.1 <= 2 * SCREEN_LIMIT,
    {
        proof {
            lemma_scale_bounds(xy.0 as int, self.scale_num as int, self.scale_den as int);
            lemma_scale_bounds(xy.1 as int, self.scale_num as int, self.scale_den as int);
        }
        let sx: i64 = ((xy.0 as u64 * self.scale_num as u64) / self.scale_den as u64) as i64;
        let sy: i64 = ((xy.1 as u64 * self.scale_num as u64) / self.scale_den as u64) as i64;
        (sx + self.translate_x, sy + self.translate_y)
    }

    /// Publishes a new transform. A single numerator and denominator serve
    /// both axes, so the equal-scale contract holds by construction.
    pub fn set_game_area_matrix(
        &mut self,
        scale_num: i64,
        scale_den: i64,
        translate_x: i64,
        translate_y: i64,
    )
        requires
            0 <= scale_num <= SCALE_LIMIT,
            1 <= scale_den <= SCALE_LIMIT,
            -SCREEN_LIMIT <= translate_x <= SCREEN_LIMIT,
            -SCREEN_LIMIT <= translate_y <= SCREEN_LIMIT,
        ensures
            final(self).wf(),
            final(self).scale_num == scale_num,
            final(self).scale_den == scale_den,
            final(self).translate_x == translate_x,
            final(self).translate_y == translate_y,
    {
        self.scale_num = scale_num;
        self.scale_den = scale_den;
        self.translate_x = translate_x;
        self.translate_y = translate_y;
    }

    /// The current uniform scale as a fraction.
    pub fn scale(&self) -> (r: (i64, i64))
        ensures
            r.0 == self.scale_num,
            r.1 == self.scale_den,
    {
        (self.scale_num, self.scale_den)
    }
}

impl Default for GameArea {
    fn default() -> (r: Self)
        ensures
            r.scale_num == 0,
            r.scale_den == 1,
            r.translate_x == 0,
            r.translate_y == 0,
            r.wf(),
    {
        GameArea { scale_num: 0, scale_den: 1, translate_x: 0, translate_y: 0 }
    }
}

proof fn lemma_scale_bounds(x: int, num: int, den: int)
    requires
        0 <= x <= COORD_LIMIT,
        0 <= num <= SCALE_LIMIT,
        1 <= den <= SCALE_LIMIT,
    ensures
        0 <= x * num <= COORD_LIMIT * SCALE_LIMIT,
        0 <= x * num / den <= COORD_LIMIT * SCALE_LIMIT,
{
    assert(0 <= x * num <= COORD_LIMIT * SCALE_LIMIT) by (nonlinear_arith)
        requires
            0 <= x <= COORD_LIMIT,
            0 <= num <= SCALE_LIMIT,
    ;
    vstd::arithmetic::div_mod::lemma_div_pos_is_pos(x * num, den);
    vstd::arithmetic::div_mod::lemma_div_is_ordered_by_denominator(x * num, 1, den);
    vstd::arithmetic::div_mod::lemma_div_basics_1(x * num);
}

/// The two bound action keys.
#[derive(Debug, PartialEq, Eq, Structural, Copy, Clone)]
pub enum GameInputKeyBinding {
    Hit1,
    Hit2,
}

/// Key code of the first action key.
pub const KEY_CODE_HIT_1: u32 = 71;

/// Key code of the second action key.
pub const KEY_CODE_HIT_2: u32 = 72;

/// The key code an action binding listens on.
pub open spec fn spec_key_for_binding(kb: GameInputKeyBinding) -> u32 {
    match kb {
        GameInputKeyBinding::Hit1 => KEY_CODE_HIT_1,
        GameInputKeyBinding::Hit2 => KEY_CODE_HIT_2,
    }
}

pub(crate) fn key_vk_for_key_binding(kb: &GameInputKeyBinding) -> (r: u32)
    ensures
        r == spec_key_for_binding(*kb),
{
    match kb {
        GameInputKeyBinding::Hit1 => KEY_CODE_HIT_1,
        GameInputKeyBinding::Hit2 => KEY_CODE_HIT_2,
    }
}

/// No key occurs twice.
pub open spec fn spec_keys_nodup(s: Seq<u32>) -> bool {
    forall|i: int, j: int| 0 <= i < j < s.len() ==> s[i] != s[j]
}

fn vec_contains_key(v: &Vec<u32>, key: u32) -> (r: bool)
    ensures
        r == v@.contains(key),
{
    let mut i: usize = 0;
    while i < v.len()
        invariant
            0 <= i <= v@.len(),
            forall|j: int| 0 <= j < i ==> v@[j] != key,
        decreases v@.len() - i,
    {
        if v[i] == key {
            return true;
        }
        i = i + 1;
    }
    false
}

fn insert_key(v: &mut Vec<u32>, key: u32)
    requires
        spec_keys_nodup(old(v)@),
    ensures
        spec_keys_nodup(final(v)@),
        forall|k: u32| final(v)@.contains(k) == (old(v)@.contains(k) || k == key),
{
    if !vec_contains_key(v, key) {
        v.push(key);
        proof {
            let s = old(v)@;
            let t = v@;
            assert forall|k: u32| t.contains(k) == (s.contains(k) || k == key) by {
                if s.contains(k) {
                    let i = choose|i: int| 0 <= i < s.len() && s[i] == k;
                    assert(t[i] == k);
                    assert(t.contains(k));
                }
                if k == key {
                    assert(t[t.len() - 1] == key);
                    assert(t.contains(k));
                }
                if t.contains(k) {
                    let i = choose|i: int| 0 <= i < t.len() && t[i] == k;
                    if i < s.len() {
                        assert(s[i] == k);
                        assert(s.contains(k));
                    }
                }
            }
        }
    }
}

fn remove_key(v: &mut Vec<u32>, key: u32)
    requires
        spec_keys_nodup(old(v)@),
    ensures
        spec_keys_nodup(final(v)@),
        forall|k: u32| final(v)@.contains(k) == (old(v)@.contains(k) && k != key),
{
    let ghost s = old(v)@;
    let mut i: usize = 0;
    while i < v.len()
        invariant
            0 <= i <= v@.len(),
            v@ == s,
            s == old(v)@,
            spec_keys_nodup(s),
            forall|j: int| 0 <= j < i ==> s[j] != key,
        decreases v@.len() - i,
    {
        if v[i] == key {
            let ghost idx = i as int;
            v.remove(i);
            proof {
                let t = v@;
                s.remove_ensures(idx);
                assert(t == s.remove(idx));
                assert forall|k: u32| t.contains(k) == (s.contains(k) && k != key) by {
                    if t.contains(k) {
                        let j = choose|j: int| 0 <= j < t.len() && t[j] == k;
                        if j < idx {
                            assert(s[j] == k);
                            assert(s.contains(k));
                            assert(s[j] != s[idx]);
                        } else {
                            assert(s[j + 1] == k);
                            assert(s.contains(k));
                            assert(s[j + 1] != s[idx]);
                        }
                    }
                    if s.contains(k) && k != key {
                        let j = choose|j: int| 0 <= j < s.len() && s[j] == k;
                        if j < idx {
                            assert(t[j] == k);
                            assert(t.contains(k));
                        } else {
                            assert(j != idx);
                            assert(t[j - 1] == k);
                            assert(t.contains(k));
                        }
                    }
                }
                assert forall|p: int, q: int| 0 <= p < q < t.len() implies t[p] != t[q] by {
                    if q < idx {
                        assert(s[p] != s[q]);
                    } else if p < idx {
                        assert(s[p] != s[q + 1]);
                    } else {
                        assert(s[p + 1] != s[q + 1]);
                    }
                }
            }
            return;
        }
        i = i + 1;
    }
    proof {
        assert(!s.contains(key));
    }
}

/// The last recorded press time of each key, newest record last; a later
/// record for the same key supersedes earlier ones.
pub open spec fn spec_last_pressed(s: Seq<(u32, i64)>, key: u32) -> Option<i64>
    decreases s.len(),
{
    if s.len() == 0 {
        None
    } else if s.last().0 == key {
        Some(s.last().1)
    } else {
        spec_last_pressed(s.drop_last(), key)
    }
}

/// Input state of the running frame: which keys went down this frame, which
/// are held, when each key was last pressed, and whether quitting was
/// requested.
#[derive(Debug)]
pub struct GameInputState {
    pub quitting: bool,
    pub active_set: Vec<u32>,
    pub last_active_keys_map: Vec<(u32, i64)>,
    pub hold_set: Vec<u32>,
}

impl Default for GameInputState {
    fn default() -> (r: Self)
        ensures
            r.wf(),
            !r.quitting,
            r.active_set@.len() == 0,
            r.hold_set@.len() == 0,
            r.last_active_keys_map@.len() == 0,
    {
        GameInputState {
            quitting: false,
            active_set: Vec::new(),
            last_active_keys_map: Vec::new(),
            hold_set: Vec::new(),
        }
    }
}

impl GameInputState {
    pub open spec fn wf(self) -> bool {
        &&& spec_keys_nodup(self.active_set@)
        &&& spec_keys_nodup(self.hold_set@)
    }

    /// Clears the keys that went down this frame; held keys persist.
    pub fn clear_frame(&mut self)
        requires
            old(self).wf(),
        ensures
            final(self).active_set@.len() == 0,
            final(self).hold_set == old(self).hold_set,
            final(self).last_active_keys_map == old(self).last_active_keys_map,
            final(self).quitting == old(self).quitting,
            final(self).wf(),
    {
        self.active_set.clear();
    }

    /// Whether the bound key went down this frame.
    pub fn is_key_active(&self, bind: &GameInputKeyBinding) -> (r: bool)
        ensures
            r == self.active_set@.contains(spec_key_for_binding(*bind)),
    {
        let key = key_vk_for_key_binding(bind);
        vec_contains_key(&self.active_set, key)
    }

    /// Whether the bound key is currently held.
    pub fn is_key_hold(&self, bind: &GameInputKeyBinding) -> (r: bool)
        ensures
            r == self.hold_set@.contains(spec_key_for_binding(*bind)),
    {
        let key = key_vk_for_key_binding(bind);
        vec_contains_key(&self.hold_set, key)
    }

    /// When the bound key last went down, if it ever did.
    pub fn last_pressed_at(&self, bind: &GameInputKeyBinding) -> (r: Option<i64>)
        ensures
            r == spec_last_pressed(self.last_active_keys_map@, spec_key_for_binding(*bind)),
    {
        let key = key_vk_for_key_binding(bind);
        let ghost s = self.last_active_keys_map@;
        proof {
            assert(s.subrange(0, s.len() as int) =~= s);
        }
        let mut i: usize = self.last_active_keys_map.len();
        while i > 0
            invariant
                0 <= i <= s.len(),
                self.last_active_keys_map@ == s,
                key == spec_key_for_binding(*bind),
                spec_last_pressed(s, key) == spec_last_pressed(s.subrange(0, i as int), key),
            decreases i,
        {
            i = i - 1;
            if self.last_active_keys_map[i].0 == key {
                proof {
                    assert(s.subrange(0, i as int + 1).last() == s[i as int]);
                }
                return Some(self.last_active_keys_map[i].1);
            }
            proof {
                assert(s.subrange(0, i as int + 1).drop_last() =~= s.subrange(0, i as int));
            }
        }
        None
    }

    /// Records a key going down: it becomes active this frame, held, and
    /// its press time is remembered.
    pub fn on_key_pressed(&mut self, key: u32, now_us: i64)
        requires
            old(self).wf(),
        ensures
            final(self).wf(),
            forall|k: u32|
                final(self).active_set@.contains(k) == (old(self).active_set@.contains(k) || k
                    == key),
            forall|k: u32|
                final(self).hold_set@.contains(k) == (old(self).hold_set@.contains(k) || k == key),
            final(self).last_active_keys_map@ == old(self).last_active_keys_map@.push(
                (key, now_us),
            ),
            final(self).quitting == old(self).quitting,
    {
        insert_key(&mut self.active_set, key);
        self.last_active_keys_map.push((key, now_us));
        insert_key(&mut self.hold_set, key);
    }

    /// Records a key going up: it is no longer held.
    pub fn on_key_released(&mut self, key: u32)
        requires
            old(self).wf(),
        ensures
            final(self).wf(),
            final(self).active_set == old(self).active_set,
            forall|k: u32|
                final(self).hold_set@.contains(k) == (old(self).hold_set@.contains(k) && k != key),
            final(self).last_active_keys_map == old(self).last_active_keys_map,
            final(self).quitting == old(self).quitting,
    {
        remove_key(&mut self.hold_set, key);
    }
}

/// The consecutive-success counter; resets to zero on any miss.
#[derive(Debug, PartialEq, Eq, Structural, Copy, Clone)]
pub struct Combo {
    pub value: u64,
}

impl Default for Combo {
    fn default() -> (r: Self)
        ensures
            r.value == 0,
    {
        Combo { value: 0 }
    }
}

impl Combo {
    /// One more consecutive success.
    pub fn maintain(&mut self)
        requires
            old(self).value < u64::MAX,
        ensures
            final(self).value == old(self).value + 1,
    {
        self.value = self.value + 1;
    }

    /// A miss breaks the chain.
    pub fn reset(&mut self)
        ensures
            final(self).value == 0,
    {
        self.value = 0;
    }
}

/// The accumulated score.
#[derive(Debug, PartialEq, Eq, Structural, Copy, Clone)]
pub struct Score {
    pub value: u64,
}

impl Default for Score {
    fn default() -> (r: Self)
        ensures
            r.value == 0,
    {
        Score { value: 0 }
    }
}

impl Score {
    /// A good outcome is worth 100 times the current combo.
    pub fn on_good(&mut self, c: &Combo)
        requires
            old(self).value + c.value * 100 <= u64::MAX,
        ensures
            final(self).value == old(self).value + c.value * 100,
    {
        self.value = self.value + c.value * 100;
    }

    /// A great outcome is worth 300 times the current combo.
    pub fn on_great(&mut self, c: &Combo)
        requires
            old(self).value + c.value * 300 <= u64::MAX,
        ensures
            final(self).value == old(self).value + c.value * 300,
    {
        self.value = self.value + c.value * 300;
    }
}

/// A notification for the audio and rendering collaborators, emitted during
/// a frame and cleared before the next one.
#[derive(Debug, PartialEq)]
pub enum GameEvent {
    SongLoad(String),
    WindowResized((u32, u32)),
    SliderStart,
    SliderStop,
}

/// The events a slider state change contributes to the log.
pub open spec fn spec_events_of_change(change: SliderStateChange) -> Seq<GameEvent> {
    match change {
        SliderStateChange::NoChange => Seq::empty(),
        SliderStateChange::Start => seq![GameEvent::SliderStart],
        SliderStateChange::Stop => seq![GameEvent::SliderStop],
    }
}

/// The per-frame notification log.
#[derive(Debug)]
pub struct GameEvents {
    pub storage: Vec<GameEvent>,
    pub has_events: bool,
}

impl Default for GameEvents {
    fn default() -> (r: Self)
        ensures
            r.wf(),
            r.storage@.len() == 0,
    {
        GameEvents { storage: Vec::new(), has_events: false }
    }
}

impl GameEvents {
    pub open spec fn wf(self) -> bool {
        self.has_events == (self.storage@.len() > 0)
    }

    /// Drops all notifications of the finished frame.
    pub fn clear(&mut self)
        ensures
            final(self).storage@.len() == 0,
            final(self).wf(),
    {
        self.storage.clear();
        self.has_events = false;
    }

    /// Appends one notification.
    pub fn emit(&mut self, ev: GameEvent)
        requires
            old(self).wf(),
        ensures
            final(self).wf(),
            final(self).storage@ == old(self).storage@.push(ev),
    {
        self.storage.push(ev);
        self.has_events = true;
    }

    /// Appends the notification a slider state change calls for, if any:
    /// a hold start, a hold stop, or nothing.
    pub fn emit_on_slider_change(&mut self, slider_change: SliderStateChange)
        requires
            old(self).wf(),
        ensures
            final(self).wf(),
            final(self).storage@ == old(self).storage@ + spec_events_of_change(slider_change),
    {
        match slider_change {
            SliderStateChange::NoChange => {
                proof {
                    assert(self.storage@ =~= self.storage@ + Seq::<GameEvent>::empty());
                }
            },
            SliderStateChange::Start => {
                self.emit(GameEvent::SliderStart);
                proof {
                    assert(final(self).storage@ =~= old(self).storage@ + seq![
                        GameEvent::SliderStart,
                    ]);
                }
            },
            SliderStateChange::Stop => {
                self.emit(GameEvent::SliderStop);
                proof {
                    assert(final(self).storage@ =~= old(self).storage@ + seq![
                        GameEvent::SliderStop,
                    ]);
                }
            },
        }
    }

    /// Calls `cb` with the first song-load notification, if one was emitted
    /// this frame.
    pub fn on_song_load<CB: FnOnce(&String)>(&self, cb: CB)
        requires
            forall|s: &String| #[trigger] call_requires(cb, (s,)),
    {
        if !self.has_events {
            return;
        }
        let mut i: usize = 0;
        while i < self.storage.len()
            invariant
                forall|s: &String| #[trigger] call_requires(cb, (s,)),
            decreases self.storage@.len() - i,
        {
            if let GameEvent::SongLoad(song) = &self.storage[i] {
                cb(song);
                return;
            }
            i = i + 1;
        }
    }

    /// Calls `cb` with the first resize notification, if one was emitted
    /// this frame.
    pub fn on_resized<CB: FnOnce(&(u32, u32))>(&self, cb: CB)
        requires
            forall|s: &(u32, u32)| #[trigger] call_requires(cb, (s,)),
    {
        if !self.has_events {
            return;
        }
        let mut i: usize = 0;
        while i < self.storage.len()
            invariant
                forall|s: &(u32, u32)| #[trigger] call_requires(cb, (s,)),
            decreases self.storage@.len() - i,
        {
            if let GameEvent::WindowResized(cords) = &self.storage[i] {
                cb(cords);
                return;
            }
            i = i + 1;
        }
    }

    /// Calls `cb` if a slider hold started this frame.
    pub fn on_slider_start<CB: FnOnce()>(&self, cb: CB)
        requires
            call_requires(cb, ()),
    {
        if !self.has_events {
            return;
        }
        let mut i: usize = 0;
        while i < self.storage.len()
            invariant
                call_requires(cb, ()),
            decreases self.storage@.len() - i,
        {
            if let GameEvent::SliderStart = &self.storage[i] {
                cb();
                return;
            }
            i = i + 1;
        }
    }

    /// Calls `cb` if a slider hold stopped this frame.
    pub fn on_slider_end<CB: FnOnce()>(&self, cb: CB)
        requires
            call_requires(cb, ()),
    {
        if !self.has_events {
            return;
        }
        let mut i: usize = 0;
        while i < self.storage.len()
            invariant
                call_requires(cb, ()),
            decreases self.storage@.len() - i,
        {
            if let GameEvent::SliderStop = &self.storage[i] {
                cb();
                return;
            }
            i = i + 1;
        }
    }
}

} // verus!
