//! Per-unit motion along the level's path.
//!
//! A follower accumulates distance in milli-segments (one thousandth of a
//! path segment) and reports either the interpolated position between two
//! cell centers or, once the path is exhausted, completion with its position
//! snapped to the last cell's center.

use vstd::prelude::*;

use crate::level::{cell_center_milli, Level, MAX_ORIGIN_MILLI, MAX_TILE_SIZE};

verus! {

/// One unit's motion state: how far along the path it has travelled
/// (milli-segments) and how fast it moves (milli-segments per second).
#[derive(Clone, Copy, Debug, PartialEq, Eq, Structural)]
pub struct PathFollower {
    pub current_dist: u64,
    pub speed: u32,
}

/// A unit currently walking the path: its handle, its motion state, whether
/// it has finished, and the last position reported for it (map-local for a
/// finished unit, world-space otherwise). A unit is visible exactly while it
/// has one of these.
#[derive(Clone, Copy, Debug, PartialEq, Eq)]
pub struct ActiveFollower {
    pub unit: u64,
    pub follower: PathFollower,
    pub completed: bool,
    pub position: Option<(i64, i64)>,
}

/// The distance after one tick: the old distance plus `speed x elapsed`,
/// held at `u64::MAX` where the sum would not fit.
pub open spec fn advanced_dist(dist: int, speed: int, elapsed_ms: int) -> int {
    if dist + (speed * elapsed_ms) / 1000 <= u64::MAX {
        dist + (speed * elapsed_ms) / 1000
    } else {
        u64::MAX as int
    }
}

/// Linear interpolation between milli-unit coordinates `a` and `b`, with
/// `frac` thousandths of the way across.
pub open spec fn lerp_milli(a: int, b: int, frac: int) -> int {
    if b >= a {
        a + ((b - a) * frac) / 1000
    } else {
        a - ((a - b) * frac) / 1000
    }
}

/// Where a follower at the given distance stands. At or past the final
/// segment the position is the last cell's map-local center (the placement
/// offset applies only to interpolated positions, as the motion integrator
/// reports it); otherwise it is the interpolation between the surrounding
/// cell centers, offset by the level's placement origin.
pub open spec fn follow_position_spec(level: Level, dist: int) -> (int, int) {
    let seg = dist / 1000;
    if seg >= level.path_len() - 1 {
        level.center_spec(level.path_point(level.path_len() - 1))
    } else {
        let frac = dist % 1000;
        let a = level.center_spec(level.path_point(seg));
        let b = level.center_spec(level.path_point(seg + 1));
        (level.origin.0 + lerp_milli(a.0, b.0, frac), level.origin.1 + lerp_milli(a.1, b.1, frac))
    }
}

/// A follower after one tick of `elapsed_ms` milliseconds: distance
/// advanced, completion judged against the path's last segment, and the
/// position `follow_position_spec` prescribes.
pub open spec fn stepped_follower(level: Level, f: ActiveFollower, elapsed_ms: int) -> ActiveFollower {
    let nd = advanced_dist(f.follower.current_dist as int, f.follower.speed as int, elapsed_ms);
    ActiveFollower {
        unit: f.unit,
        follower: PathFollower { current_dist: nd as u64, speed: f.follower.speed },
        completed: nd / 1000 >= level.path_len() - 1,
        position: Some(
            (follow_position_spec(level, nd).0 as i64, follow_position_spec(level, nd).1 as i64),
        ),
    }
}

/// The distance never decreases across a tick, whatever the speed and
/// elapsed time.
pub proof fn lemma_follower_distance_monotonic(dist: int, speed: int, elapsed_ms: int)
    requires
        0 <= dist <= u64::MAX,
        speed >= 0,
        elapsed_ms >= 0,
    ensures
        advanced_dist(dist, speed, elapsed_ms) >= dist,
{
    assert(speed * elapsed_ms >= 0) by (nonlinear_arith)
        requires
            speed >= 0,
            elapsed_ms >= 0,
    ;
    assert((speed * elapsed_ms) / 1000 >= 0);
}

/// Interpolation between two bounded coordinates stays within their range
/// when they are at most one cell apart.
proof fn lemma_lerp_bounds(a: int, b: int, frac: int, step: int)
    by (nonlinear_arith)
    requires
        0 <= a < MAX_ORIGIN_MILLI,
        0 <= b < MAX_ORIGIN_MILLI,
        0 <= frac < 1000,
        0 <= step <= MAX_TILE_SIZE as int * 1000,
        b - a <= step,
        a - b <= step,
    ensures
        0 <= lerp_milli(a, b, frac) < MAX_ORIGIN_MILLI,
{
}

/// Adjacent path cells have centers one tile apart on one axis and equal on
/// the other.
proof fn lemma_adjacent_center_step(ts: int, a: (int, int), b: (int, int))
    by (nonlinear_arith)
    requires
        1 <= ts <= MAX_TILE_SIZE,
        crate::path::adjacent(a, b),
    ensures
        cell_center_milli(ts, b.0) - cell_center_milli(ts, a.0) <= ts * 1000,
        cell_center_milli(ts, a.0) - cell_center_milli(ts, b.0) <= ts * 1000,
        cell_center_milli(ts, b.1) - cell_center_milli(ts, a.1) <= ts * 1000,
        cell_center_milli(ts, a.1) - cell_center_milli(ts, b.1) <= ts * 1000,
{
}

/// Advances one unfinished follower by `elapsed_ms` milliseconds: the
/// distance grows by `speed x elapsed`, the unit completes exactly when the
/// travelled segment reaches the end of the path, and the reported position
/// is the snap or interpolation that `follow_position_spec` prescribes.
pub fn follow_path_step(level: &Level, f: &mut ActiveFollower, elapsed_ms: u32)
    requires
        level.wf(),
        !old(f).completed,
    ensures
        *final(f) == stepped_follower(*level, *old(f), elapsed_ms as int),
        final(f).unit == old(f).unit,
        final(f).follower.current_dist >= old(f).follower.current_dist,
{
    proof {
        assert((f.follower.speed as int) * (elapsed_ms as int) <= u64::MAX) by (nonlinear_arith)
            requires
                0 <= f.follower.speed <= u32::MAX,
                0 <= elapsed_ms <= u32::MAX,
        ;
        lemma_follower_distance_monotonic(
            f.follower.current_dist as int,
            f.follower.speed as int,
            elapsed_ms as int,
        );
    }
    let delta = (f.follower.speed as u64) * (elapsed_ms as u64) / 1000;
    let nd = if f.follower.current_dist > u64::MAX - delta {
        u64::MAX
    } else {
        f.follower.current_dist + delta
    };
    f.follower.current_dist = nd;
    let seg = nd / 1000;
    let len = level.tile_path.path.len();
    if seg >= (len - 1) as u64 {
        f.completed = true;
        let last = level.tile_path.path[len - 1];
        f.position = Some(level.center_in_world(last));
    } else {
        f.completed = false;
        let seg_idx = seg as usize;
        let frac = (nd % 1000) as i64;
        let a_pos = level.tile_path.path[seg_idx];
        let b_pos = level.tile_path.path[seg_idx + 1];
        let a = level.center_in_world(a_pos);
        let b = level.center_in_world(b_pos);
        proof {
            crate::level::lemma_center_in_range(a_pos.x as int, level.tile_size as int);
            crate::level::lemma_center_in_range(a_pos.y as int, level.tile_size as int);
            crate::level::lemma_center_in_range(b_pos.x as int, level.tile_size as int);
            crate::level::lemma_center_in_range(b_pos.y as int, level.tile_size as int);
            assert(crate::path::adjacent(
                level.path_point(seg as int),
                level.path_point(seg as int + 1),
            ));
            lemma_adjacent_center_step(
                level.tile_size as int,
                level.path_point(seg as int),
                level.path_point(seg as int + 1),
            );
            lemma_lerp_bounds(
                a.0 as int,
                b.0 as int,
                frac as int,
                level.tile_size as int * 1000,
            );
            lemma_lerp_bounds(
                a.1 as int,
                b.1 as int,
                frac as int,
                level.tile_size as int * 1000,
            );
        }
        let lx = lerp_axis(a.0, b.0, frac);
        let ly = lerp_axis(a.1, b.1, frac);
        f.position = Some((level.origin.0 + lx, level.origin.1 + ly));
    }
}

/// One axis of the interpolation, on executable integers.
fn lerp_axis(a: i64, b: i64, frac: i64) -> (r: i64)
    requires
        0 <= a < MAX_ORIGIN_MILLI,
        0 <= b < MAX_ORIGIN_MILLI,
        0 <= frac < 1000,
        b - a <= MAX_TILE_SIZE as int * 1000,
        a - b <= MAX_TILE_SIZE as int * 1000,
    ensures
        r as int == lerp_milli(a as int, b as int, frac as int),
        0 <= r < MAX_ORIGIN_MILLI,
{
    proof {
        lemma_lerp_bounds(a as int, b as int, frac as int, MAX_TILE_SIZE as int * 1000);
        assert((b - a) * frac <= MAX_TILE_SIZE as int * 1000 * 1000 && (a - b) * frac
            <= MAX_TILE_SIZE as int * 1000 * 1000) by (nonlinear_arith)
            requires
                0 <= frac < 1000,
                b - a <= MAX_TILE_SIZE as int * 1000,
                a - b <= MAX_TILE_SIZE as int * 1000,
        ;
        assert((b - a) * frac >= 0 ==> ((b - a) * frac) / 1000 >= 0) by (nonlinear_arith);
        assert((a - b) * frac >= 0 ==> ((a - b) * frac) / 1000 >= 0) by (nonlinear_arith);
    }
    if b >= a {
        a + ((b - a) * frac) / 1000
    } else {
        a - ((a - b) * frac) / 1000
    }
}

} // verus!
