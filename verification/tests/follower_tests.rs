use fruitstar_core::follower::{follow_path_step, ActiveFollower, PathFollower};
use fruitstar_core::level::{load_level, Level};
use fruitstar_core::wave::{PlayState, ReleasePolicy, WaveScheduler};

fn corridor_level_with_origin(origin: (i64, i64)) -> Level {
    let mut luma = vec![0u8; 12];
    for x in 0..4u32 {
        luma[x as usize] = 255;
    }
    load_level(&luma, 4, 3, 16, origin).expect("corridor level")
}

fn fresh_follower(unit: u64, speed: u32) -> ActiveFollower {
    ActiveFollower {
        unit,
        follower: PathFollower { current_dist: 0, speed },
        completed: false,
        position: None,
    }
}

#[test]
fn single_cell_path_completes_on_the_first_tick() {
    // A 1x2 map whose only walkable cell sits on both the start and the
    // goal edge: the path has length one.
    let luma = vec![255u8, 0u8];
    let level = load_level(&luma, 1, 2, 16, (0, 0)).expect("single-cell level");
    assert_eq!(level.tile_path.path.len(), 1);

    let mut f = fresh_follower(1, 20000);
    follow_path_step(&level, &mut f, 0);
    assert!(f.completed, "completion must not depend on elapsed time");
    // Snapped to the map-local center of the only cell.
    assert_eq!(f.position, Some((8000, 8000)));

    let mut g = fresh_follower(2, 20000);
    follow_path_step(&level, &mut g, 500);
    assert!(g.completed);
    assert_eq!(g.position, f.position);
}

#[test]
fn interpolated_position_is_halfway_between_cell_centers() {
    let level = corridor_level_with_origin((0, 0));
    // Path [(3,0), (2,0), (1,0), (0,0)], cell size 16: centers at
    // x = 56000, 40000, 24000, 8000 milli-units, y = 8000.
    let mut f = fresh_follower(1, 500);
    follow_path_step(&level, &mut f, 1000);
    assert_eq!(f.follower.current_dist, 500);
    assert!(!f.completed);
    assert_eq!(f.position, Some((48000, 8000)));
}

#[test]
fn interpolated_position_carries_the_placement_origin() {
    let level = corridor_level_with_origin((100000, -2500));
    let mut f = fresh_follower(1, 500);
    follow_path_step(&level, &mut f, 1000);
    assert_eq!(f.position, Some((148000, 5500)));
}

#[test]
fn completed_snap_is_the_last_cell_center() {
    let level = corridor_level_with_origin((0, 0));
    let mut f = fresh_follower(1, 20000);
    follow_path_step(&level, &mut f, 1000);
    assert!(f.completed);
    // Last cell (0, 0): center (8000, 8000).
    assert_eq!(f.position, Some((8000, 8000)));
}

#[test]
fn distance_never_decreases_across_ticks() {
    let level = corridor_level_with_origin((0, 0));
    let mut f = fresh_follower(1, 700);
    let mut last = 0u64;
    for _ in 0..5 {
        follow_path_step(&level, &mut f, 300);
        assert!(f.follower.current_dist >= last);
        last = f.follower.current_dist;
        if f.completed {
            break;
        }
    }
}

#[test]
fn zero_speed_or_zero_elapsed_stands_still() {
    let level = corridor_level_with_origin((0, 0));
    let mut f = fresh_follower(1, 0);
    follow_path_step(&level, &mut f, 1000);
    assert_eq!(f.follower.current_dist, 0);
    let mut g = fresh_follower(2, 20000);
    follow_path_step(&level, &mut g, 0);
    assert_eq!(g.follower.current_dist, 0);
}

#[test]
fn completed_follower_is_left_untouched_by_the_motion_tick() {
    let level = corridor_level_with_origin((0, 0));
    let mut s = WaveScheduler::new(vec![9], 1000, 1000, 20000, ReleasePolicy::Lifo);
    s.level_loaded();
    s.sys_intermission_timer(1000);
    assert_eq!(s.play_state, PlayState::Wave);
    s.sys_wave_place_entities(1000);
    s.sys_follow_tile_path(&level, 1000);
    assert!(s.followers[0].completed);
    let frozen = s.followers[0];
    s.sys_follow_tile_path(&level, 1000);
    assert_eq!(s.followers[0], frozen, "a finished follower keeps its position");
}

#[test]
fn scheduler_motion_tick_advances_every_unfinished_follower() {
    let level = corridor_level_with_origin((0, 0));
    let mut s = WaveScheduler::new(vec![1, 2], 1000, 100, 1000, ReleasePolicy::Lifo);
    s.level_loaded();
    s.sys_intermission_timer(1000);
    s.sys_wave_place_entities(100);
    s.sys_follow_tile_path(&level, 500);
    s.sys_wave_place_entities(100);
    s.sys_follow_tile_path(&level, 500);
    assert_eq!(s.followers.len(), 2);
    assert_eq!(s.followers[0].follower.current_dist, 1000);
    assert_eq!(s.followers[1].follower.current_dist, 500);
}
