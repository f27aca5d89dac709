use rusty_osu::components::{
    CircleHitRating, DespawnObject, DespawnObjectReason, GamePos, HitSound, Lifetime, SliderState,
};
use rusty_osu::beatmap::OsuHitObjectHitSound;
use rusty_osu::resources::{Combo, Hp, Score};
use rusty_osu::systems::ScoringSystem;
use rusty_osu::world::{GameObject, GameWorld};

fn marked_object(id: u64, reason: DespawnObjectReason) -> GameObject {
    GameObject {
        id,
        pos: GamePos { x: 0, y: 0 },
        lifetime: Lifetime { remaining: 0 },
        rating: CircleHitRating::MISS,
        hit_sound: HitSound { value: OsuHitObjectHitSound::Normal },
        circle: None,
        slider: None,
        despawn: Some(DespawnObject { reason, despawned_at: 0 }),
    }
}

fn world_with(reasons: Vec<DespawnObjectReason>) -> GameWorld {
    let mut w = GameWorld::new();
    for (i, r) in reasons.into_iter().enumerate() {
        w.objects.push(marked_object(i as u64, r));
    }
    w
}

fn run_scoring(reasons: Vec<DespawnObjectReason>, hp0: i64, combo0: u64) -> (i64, u64, u64) {
    let w = world_with(reasons);
    let mut hp = Hp { value: hp0, drain: 100 };
    let mut combo = Combo { value: combo0 };
    let mut score = Score { value: 0 };
    ScoringSystem::run(&w, &mut hp, &mut combo, &mut score);
    (hp.value, combo.value, score.value)
}

#[test]
fn scoring_miss_test() {
    let (hp, combo, score) =
        run_scoring(vec![DespawnObjectReason::CircleHit(CircleHitRating::MISS)], 500, 4);
    assert_eq!((hp, combo, score), (400, 0, 0));
}

#[test]
fn scoring_good_test() {
    let (hp, combo, score) =
        run_scoring(vec![DespawnObjectReason::CircleHit(CircleHitRating::GOOD)], 500, 4);
    assert_eq!((hp, combo, score), (600, 5, 500));
}

#[test]
fn scoring_great_test() {
    let (hp, combo, score) =
        run_scoring(vec![DespawnObjectReason::CircleHit(CircleHitRating::GREAT)], 500, 4);
    assert_eq!((hp, combo, score), (700, 5, 1500));
}

#[test]
fn scoring_slider_untouched_test() {
    let (hp, combo, score) =
        run_scoring(vec![DespawnObjectReason::SliderEnd(SliderState::UNTOUCHED)], 500, 4);
    assert_eq!((hp, combo, score), (400, 0, 0));
}

#[test]
fn scoring_slider_finished_branches_test() {
    // above six tenths completed: worth a GREAT
    let (hp, combo, score) =
        run_scoring(vec![DespawnObjectReason::SliderEnd(SliderState::FINISHED(6001, 0))], 500, 0);
    assert_eq!((hp, combo, score), (600, 1, 300));
    // above two tenths: worth a GOOD
    let (hp, combo, score) =
        run_scoring(vec![DespawnObjectReason::SliderEnd(SliderState::FINISHED(6000, 0))], 500, 0);
    assert_eq!((hp, combo, score), (600, 1, 100));
    let (hp, combo, score) =
        run_scoring(vec![DespawnObjectReason::SliderEnd(SliderState::FINISHED(2001, 0))], 500, 0);
    assert_eq!((hp, combo, score), (600, 1, 100));
    // at or below two tenths: no change at all
    let (hp, combo, score) =
        run_scoring(vec![DespawnObjectReason::SliderEnd(SliderState::FINISHED(2000, 0))], 500, 3);
    assert_eq!((hp, combo, score), (500, 3, 0));
}

#[test]
fn scoring_fold_order_test() {
    // GOOD then MISS: the combo earned by the first marker is wiped by the second
    let (hp, combo, score) = run_scoring(
        vec![
            DespawnObjectReason::CircleHit(CircleHitRating::GOOD),
            DespawnObjectReason::CircleHit(CircleHitRating::MISS),
        ],
        500,
        0,
    );
    assert_eq!((hp, combo, score), (500, 0, 100));
}

#[test]
fn scoring_deterministic_replay_test() {
    // replaying the same marker sequence from the same state gives the same result
    let reasons = vec![
        DespawnObjectReason::CircleHit(CircleHitRating::GOOD),
        DespawnObjectReason::SliderEnd(SliderState::FINISHED(9000, 5)),
        DespawnObjectReason::CircleHit(CircleHitRating::MISS),
        DespawnObjectReason::CircleHit(CircleHitRating::GREAT),
    ];
    let first = run_scoring(reasons.clone(), 700, 2);
    let second = run_scoring(reasons, 700, 2);
    assert_eq!(first, second);
    // GOOD: combo 3, hp 800, +300; FINISHED(0.9): combo 4, hp 900, +1200;
    // MISS: combo 0, hp 800; GREAT: combo 1, hp 1000, +300
    assert_eq!(first, (1000, 1, 1800));
}

#[test]
fn scoring_hp_caps_test() {
    // health never rises above the full bar nor falls below empty
    let (hp, _, _) =
        run_scoring(vec![DespawnObjectReason::CircleHit(CircleHitRating::GREAT)], 950, 0);
    assert_eq!(hp, 1000);
    let (hp, _, _) =
        run_scoring(vec![DespawnObjectReason::CircleHit(CircleHitRating::MISS)], 50, 0);
    assert_eq!(hp, 0);
}
