use fruitstar_core::level::{load_level, Level};
use fruitstar_core::wave::{GameTimer, PlayState, ReleasePolicy, WaveScheduler};

fn corridor_level() -> Level {
    // A 4x3 map whose top row is one straight corridor.
    let mut luma = vec![0u8; 12];
    for x in 0..4u32 {
        luma[x as usize] = 255;
    }
    load_level(&luma, 4, 3, 16, (0, 0)).expect("corridor level")
}

fn seeded(units: Vec<u64>, policy: ReleasePolicy) -> WaveScheduler {
    let mut s = WaveScheduler::new(units, 3000, 1000, 20000, policy);
    s.level_loaded();
    s
}

/// Every unit the scheduler tracks, wherever it currently sits.
fn tracked_units(s: &WaveScheduler) -> Vec<u64> {
    let mut all: Vec<u64> = Vec::new();
    all.extend_from_slice(&s.next_wave.0);
    all.extend_from_slice(&s.current_wave.unit_queue);
    all.extend(s.followers.iter().map(|f| f.unit));
    all
}

#[test]
fn timer_clamps_at_duration_and_resets() {
    let mut t = GameTimer::new(3000);
    t.tick(2000);
    assert_eq!(t.elapsed_ms, 2000);
    assert!(!t.finished());
    assert_eq!(t.remaining_ms(), 1000);
    t.tick(5000);
    assert_eq!(t.elapsed_ms, 3000);
    assert!(t.finished());
    assert_eq!(t.remaining_ms(), 0);
    t.reset();
    assert_eq!(t.elapsed_ms, 0);
    assert_eq!(t.duration_ms, 3000);
}

#[test]
fn intermission_fires_exactly_once_after_three_seconds() {
    let level = corridor_level();
    // A slow unit keeps the wave busy through the fourth tick.
    let mut s = WaveScheduler::new(vec![7], 3000, 1000, 1000, ReleasePolicy::Lifo);
    s.level_loaded();
    s.tick(&level, 1000);
    assert_eq!(s.play_state, PlayState::Intermission);
    s.tick(&level, 1000);
    assert_eq!(s.play_state, PlayState::Intermission);
    s.tick(&level, 1000);
    assert_eq!(s.play_state, PlayState::Wave);
    // A fourth identical tick happens inside the wave: the intermission
    // countdown is not touched again and the phase does not re-trigger.
    let elapsed_before = s.intermission_timer.0.elapsed_ms;
    s.tick(&level, 1000);
    assert_eq!(s.play_state, PlayState::Wave);
    assert_eq!(s.intermission_timer.0.elapsed_ms, elapsed_before);
}

#[test]
fn lifo_release_order_reverses_the_pending_queue() {
    let a = 10u64;
    let b = 20u64;
    let c = 30u64;
    let mut s = seeded(vec![a, b, c], ReleasePolicy::Lifo);
    s.sys_intermission_timer(3000);
    assert_eq!(s.play_state, PlayState::Wave);
    assert!(s.next_wave.0.is_empty());
    // One unit per one-second tick, last queued first.
    assert_eq!(s.sys_wave_place_entities(1000), Some(c));
    assert_eq!(s.sys_wave_place_entities(1000), Some(b));
    assert_eq!(s.sys_wave_place_entities(1000), Some(a));
    assert_eq!(s.sys_wave_place_entities(1000), None);
}

#[test]
fn fifo_release_order_keeps_the_pending_queue_order() {
    let mut s = seeded(vec![10, 20, 30], ReleasePolicy::Fifo);
    s.sys_intermission_timer(3000);
    assert_eq!(s.sys_wave_place_entities(1000), Some(10));
    assert_eq!(s.sys_wave_place_entities(1000), Some(20));
    assert_eq!(s.sys_wave_place_entities(1000), Some(30));
}

#[test]
fn release_needs_the_full_spacing_interval() {
    let mut s = seeded(vec![1, 2], ReleasePolicy::Lifo);
    s.sys_intermission_timer(3000);
    assert_eq!(s.sys_wave_place_entities(400), None);
    assert_eq!(s.sys_wave_place_entities(400), None);
    assert_eq!(s.sys_wave_place_entities(400), Some(2));
    // The spacing countdown was reset on release.
    assert_eq!(s.sys_wave_place_entities(999), None);
    assert_eq!(s.sys_wave_place_entities(1), Some(1));
}

#[test]
fn released_unit_gets_a_fresh_follower() {
    let mut s = seeded(vec![42], ReleasePolicy::Lifo);
    s.sys_intermission_timer(3000);
    s.sys_wave_place_entities(1000);
    assert_eq!(s.followers.len(), 1);
    let f = &s.followers[0];
    assert_eq!(f.unit, 42);
    assert_eq!(f.follower.current_dist, 0);
    assert_eq!(f.follower.speed, 20000);
    assert!(!f.completed);
    assert!(f.position.is_none());
}

#[test]
fn unit_pool_is_preserved_across_a_full_wave_cycle() {
    let level = corridor_level();
    let mut s = seeded(vec![1, 2, 3, 4], ReleasePolicy::Lifo);
    let mut pool = tracked_units(&s);
    pool.sort_unstable();
    for _ in 0..40 {
        s.tick(&level, 500);
        let mut now = tracked_units(&s);
        now.sort_unstable();
        assert_eq!(now, pool, "every unit stays in exactly one collection");
    }
}

#[test]
fn drained_wave_flows_back_into_intermission() {
    let level = corridor_level();
    // One unit, fast enough to cross the three-segment corridor in well
    // under the release interval.
    let mut s = WaveScheduler::new(vec![5], 1000, 1000, 20000, ReleasePolicy::Lifo);
    s.level_loaded();
    s.tick(&level, 1000);
    assert_eq!(s.play_state, PlayState::Wave);
    // Release tick: the unit steps onto the path and walks 10 segments'
    // worth of distance, finishing immediately; the same tick detaches it
    // and ends the wave.
    s.tick(&level, 1000);
    assert_eq!(s.play_state, PlayState::Intermission);
    assert_eq!(s.intermission_timer.0.elapsed_ms, 0);
    assert_eq!(s.next_wave.0, vec![5]);
    assert!(s.followers.is_empty());
}

#[test]
fn paused_scheduler_changes_nothing() {
    let level = corridor_level();
    let mut s = seeded(vec![1], ReleasePolicy::Lifo);
    s.tick(&level, 1000);
    s.pause();
    let elapsed = s.intermission_timer.0.elapsed_ms;
    s.tick(&level, 5000);
    assert_eq!(s.play_state, PlayState::Paused);
    assert_eq!(s.intermission_timer.0.elapsed_ms, elapsed);
    s.resume(PlayState::Intermission);
    assert_eq!(s.play_state, PlayState::Intermission);
}

#[test]
fn finished_units_requeue_at_the_back_of_pending() {
    let level = corridor_level();
    let mut s = WaveScheduler::new(vec![1, 2], 1000, 100, 20000, ReleasePolicy::Lifo);
    s.level_loaded();
    s.tick(&level, 1000);
    assert_eq!(s.play_state, PlayState::Wave);
    // Unit 2 releases first and crosses the three-segment corridor in two
    // ticks; unit 1 follows one tick behind. They come back to pending in
    // completion order.
    s.tick(&level, 100);
    s.tick(&level, 100);
    s.tick(&level, 100);
    assert_eq!(s.next_wave.0, vec![2, 1]);
}

#[test]
fn phase_names_match_their_variants() {
    assert_eq!(PlayState::Setup.name(), "Setup");
    assert_eq!(PlayState::Intermission.name(), "Intermission");
    assert_eq!(PlayState::Wave.name(), "Wave");
    assert_eq!(PlayState::Paused.name(), "Paused");
}
