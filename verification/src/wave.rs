//! Wave scheduling: the pending queue, the active wave, both timers and the
//! phase state machine.
//!
//! Every quantity of time is an integer count of milliseconds. Unit handles
//! are plain integers; the outer layer maps them to its own entities. A unit
//! is always in exactly one place: the pending queue, the active wave's
//! release order, or the set of units currently following the path.

use vstd::prelude::*;

use vstd::seq_lib::lemma_multiset_commutative;

use crate::follower::{follow_path_step, stepped_follower, ActiveFollower, PathFollower};
use crate::level::Level;

verus! {

/// The game's phase. `Paused` suspends updates without resetting timers and
/// is entered and left only from outside the scheduler.
#[derive(Clone, Copy, Debug, PartialEq, Eq, Structural)]
pub enum PlayState {
    Setup,
    Intermission,
    Wave,
    Paused,
}

impl PlayState {
    /// The phase's display name.
    pub fn name(&self) -> (r: &'static str)
        ensures
            *self is Setup ==> r@ =~= "Setup"@,
            *self is Intermission ==> r@ =~= "Intermission"@,
            *self is Wave ==> r@ =~= "Wave"@,
            *self is Paused ==> r@ =~= "Paused"@,
    {
        match self {
            PlayState::Setup => "Setup",
            PlayState::Intermission => "Intermission",
            PlayState::Wave => "Wave",
            PlayState::Paused => "Paused",
        }
    }
}

/// Whether the intermission hands the pending queue to the wave last-queued
/// first (the queue treated as a stack) or first-queued first.
#[derive(Clone, Copy, Debug, PartialEq, Eq, Structural)]
pub enum ReleasePolicy {
    Lifo,
    Fifo,
}

/// A run-once countdown: elapsed time accumulates up to the duration and
/// stays there until reset.
#[derive(Clone, Copy, Debug, PartialEq, Eq, Structural)]
pub struct GameTimer {
    pub elapsed_ms: u32,
    pub duration_ms: u32,
}

impl GameTimer {
    /// Finished means the elapsed time has reached the duration.
    pub open spec fn finished_spec(self) -> bool {
        self.elapsed_ms >= self.duration_ms
    }

    /// The elapsed time after ticking by `delta_ms`, clamped at the duration.
    pub open spec fn ticked_elapsed(self, delta_ms: int) -> int {
        if self.elapsed_ms + delta_ms >= self.duration_ms {
            self.duration_ms as int
        } else {
            self.elapsed_ms + delta_ms
        }
    }

    /// A fresh timer with nothing elapsed.
    pub fn new(duration_ms: u32) -> (t: Self)
        ensures
            t.elapsed_ms == 0,
            t.duration_ms == duration_ms,
    {
        GameTimer { elapsed_ms: 0, duration_ms }
    }

    /// Advances the timer, clamping at its duration.
    pub fn tick(&mut self, delta_ms: u32)
        ensures
            final(self).duration_ms == old(self).duration_ms,
            final(self).elapsed_ms as int == old(self).ticked_elapsed(delta_ms as int),
    {
        let sum = self.elapsed_ms as u64 + delta_ms as u64;
        if sum >= self.duration_ms as u64 {
            self.elapsed_ms = self.duration_ms;
        } else {
            self.elapsed_ms = sum as u32;
        }
    }

    /// Whether the countdown has run out.
    pub fn finished(&self) -> (r: bool)
        ensures
            r == self.finished_spec(),
    {
        self.elapsed_ms >= self.duration_ms
    }

    /// Starts the countdown over, keeping the duration.
    pub fn reset(&mut self)
        ensures
            final(self).duration_ms == old(self).duration_ms,
            final(self).elapsed_ms == 0,
    {
        self.elapsed_ms = 0;
    }

    /// Time left before the countdown runs out.
    pub fn remaining_ms(&self) -> (r: u32)
        ensures
            r as int == if self.elapsed_ms <= self.duration_ms {
                self.duration_ms - self.elapsed_ms
            } else {
                0int
            },
    {
        if self.elapsed_ms <= self.duration_ms {
            self.duration_ms - self.elapsed_ms
        } else {
            0
        }
    }
}

/// Units waiting for the next wave, in the order they were queued.
pub struct NextWaveQueue(pub Vec<u64>);

/// The countdown between waves.
pub struct IntermissionTimer(pub GameTimer);

/// The wave in progress: units not yet released (the next release is taken
/// from the back) and the spacing countdown between releases.
pub struct CurrentWave {
    pub unit_queue: Vec<u64>,
    pub next_unit_timer: GameTimer,
}

impl CurrentWave {
    /// An empty wave whose releases will be `unit_spacing_ms` apart.
    pub fn new(unit_spacing_ms: u32) -> (w: Self)
        ensures
            w.unit_queue@ == Seq::<u64>::empty(),
            w.next_unit_timer.elapsed_ms == 0,
            w.next_unit_timer.duration_ms == unit_spacing_ms,
    {
        CurrentWave { unit_queue: Vec::new(), next_unit_timer: GameTimer::new(unit_spacing_ms) }
    }
}

/// The unit handles of a run of active followers, in order.
pub open spec fn follower_units(fs: Seq<ActiveFollower>) -> Seq<u64> {
    fs.map_values(|f: ActiveFollower| f.unit)
}

/// The whole progression state: phase, both queues, both timers, the units
/// on the path, and the release policy and speed given to released units.
pub struct WaveScheduler {
    pub play_state: PlayState,
    pub next_wave: NextWaveQueue,
    pub current_wave: CurrentWave,
    pub intermission_timer: IntermissionTimer,
    pub followers: Vec<ActiveFollower>,
    pub release_policy: ReleasePolicy,
    pub unit_speed: u32,
}

impl WaveScheduler {
    /// Every unit the scheduler tracks, one sequence: pending, then queued
    /// for release, then following the path.
    pub open spec fn all_units(self) -> Seq<u64> {
        self.next_wave.0@ + self.current_wave.unit_queue@ + follower_units(self.followers@)
    }

    /// No unit is tracked twice: each handle sits in exactly one of the
    /// three collections.
    pub open spec fn units_wf(self) -> bool {
        self.all_units().no_duplicates()
    }

    /// The units of the active wave in the order they will be released.
    pub open spec fn release_order(self) -> Seq<u64> {
        self.current_wave.unit_queue@.reverse()
    }

    /// Exactly what one intermission tick does: the countdown advances, and
    /// the moment it runs out the pending queue empties into the wave's
    /// release order (as a stack under `Lifo`, in order under `Fifo`) and the
    /// phase becomes `Wave`; nothing else moves.
    pub open spec fn intermission_step(pre: Self, post: Self, delta_ms: int) -> bool {
        let fired = pre.intermission_timer.0.elapsed_ms + delta_ms
            >= pre.intermission_timer.0.duration_ms;
        &&& post.intermission_timer.0.duration_ms == pre.intermission_timer.0.duration_ms
        &&& post.intermission_timer.0.elapsed_ms as int == pre.intermission_timer.0.ticked_elapsed(
            delta_ms,
        )
        &&& post.current_wave.next_unit_timer == pre.current_wave.next_unit_timer
        &&& post.followers@ == pre.followers@
        &&& post.release_policy == pre.release_policy
        &&& post.unit_speed == pre.unit_speed
        &&& if fired {
            &&& post.play_state == PlayState::Wave
            &&& post.next_wave.0@ == Seq::<u64>::empty()
            &&& post.current_wave.unit_queue@ == pre.current_wave.unit_queue@ + (
            if pre.release_policy == ReleasePolicy::Lifo {
                pre.next_wave.0@
            } else {
                pre.next_wave.0@.reverse()
            })
        } else {
            &&& post.play_state == PlayState::Intermission
            &&& post.next_wave.0@ == pre.next_wave.0@
            &&& post.current_wave.unit_queue@ == pre.current_wave.unit_queue@
        }
    }

    /// Exactly what one release tick does: with an empty release order
    /// nothing moves; otherwise the spacing countdown advances, and the
    /// moment it runs out it resets and the unit at the back of the queue
    /// steps onto the path with a fresh follower.
    pub open spec fn place_step(pre: Self, post: Self, delta_ms: int, released: Option<u64>) -> bool {
        let fired = pre.current_wave.next_unit_timer.elapsed_ms + delta_ms
            >= pre.current_wave.next_unit_timer.duration_ms;
        if pre.current_wave.unit_queue@.len() == 0 {
            post == pre && released is None
        } else {
            &&& post.play_state == pre.play_state
            &&& post.next_wave.0@ == pre.next_wave.0@
            &&& post.intermission_timer == pre.intermission_timer
            &&& post.release_policy == pre.release_policy
            &&& post.unit_speed == pre.unit_speed
            &&& post.current_wave.next_unit_timer.duration_ms
                == pre.current_wave.next_unit_timer.duration_ms
            &&& if fired {
                &&& released == Some(pre.current_wave.unit_queue@.last())
                &&& post.current_wave.unit_queue@ == pre.current_wave.unit_queue@.drop_last()
                &&& post.current_wave.next_unit_timer.elapsed_ms == 0
                &&& post.followers@ == pre.followers@.push(
                    ActiveFollower {
                        unit: pre.current_wave.unit_queue@.last(),
                        follower: PathFollower { current_dist: 0, speed: pre.unit_speed },
                        completed: false,
                        position: None,
                    },
                )
            } else {
                &&& released is None
                &&& post.current_wave.unit_queue@ == pre.current_wave.unit_queue@
                &&& post.followers@ == pre.followers@
                &&& post.current_wave.next_unit_timer.elapsed_ms as int
                    == pre.current_wave.next_unit_timer.ticked_elapsed(delta_ms)
            }
        }
    }

    /// Exactly what one motion tick does: every unfinished follower is
    /// advanced along the level's path, finished ones stay put, and nothing
    /// else moves.
    pub open spec fn motion_step(level: Level, pre: Self, post: Self, delta_ms: int) -> bool {
        &&& post.followers@ == ticked_followers(level, pre.followers@, delta_ms)
        &&& post.play_state == pre.play_state
        &&& post.next_wave.0@ == pre.next_wave.0@
        &&& post.current_wave == pre.current_wave
        &&& post.intermission_timer == pre.intermission_timer
        &&& post.release_policy == pre.release_policy
        &&& post.unit_speed == pre.unit_speed
    }

    /// Exactly what detaching finished units does: their handles move, in
    /// order, to the back of the pending queue, the unfinished followers
    /// remain, and nothing else moves.
    pub open spec fn leaves_step(pre: Self, post: Self) -> bool {
        &&& post.next_wave.0@ == pre.next_wave.0@ + follower_units(
            pre.followers@.filter(|f: ActiveFollower| f.completed),
        )
        &&& post.followers@ == pre.followers@.filter(|f: ActiveFollower| !f.completed)
        &&& post.play_state == pre.play_state
        &&& post.current_wave == pre.current_wave
        &&& post.intermission_timer == pre.intermission_timer
        &&& post.release_policy == pre.release_policy
        &&& post.unit_speed == pre.unit_speed
    }

    /// Exactly what wave-completion detection does: with the release order
    /// drained and nobody on the path, the intermission countdown restarts
    /// and the phase returns to `Intermission`; otherwise nothing moves.
    pub open spec fn detect_step(pre: Self, post: Self) -> bool {
        if pre.current_wave.unit_queue@.len() == 0 && pre.followers@.len() == 0 {
            &&& post.play_state == PlayState::Intermission
            &&& post.intermission_timer.0.elapsed_ms == 0
            &&& post.intermission_timer.0.duration_ms == pre.intermission_timer.0.duration_ms
            &&& post.next_wave.0@ == pre.next_wave.0@
            &&& post.current_wave == pre.current_wave
            &&& post.followers@ == pre.followers@
            &&& post.release_policy == pre.release_policy
            &&& post.unit_speed == pre.unit_speed
        } else {
            post == pre
        }
    }

    /// One whole wave tick: a release step, a motion step, the detaching of
    /// finished units, and the wave-completion check, in that order.
    pub open spec fn wave_step(level: Level, pre: Self, post: Self, delta_ms: int) -> bool {
        exists|s1: Self, s2: Self, s3: Self, released: Option<u64>|
            #![trigger Self::place_step(pre, s1, delta_ms, released), Self::motion_step(level, s1, s2, delta_ms), Self::leaves_step(s2, s3)]
            {
                &&& Self::place_step(pre, s1, delta_ms, released)
                &&& Self::motion_step(level, s1, s2, delta_ms)
                &&& Self::leaves_step(s2, s3)
                &&& Self::detect_step(s3, post)
            }
    }

    /// Seeds the scheduler: all units pending, both timers fresh, phase
    /// `Setup` until a level is loaded.
    pub fn new(
        initial_units: Vec<u64>,
        intermission_ms: u32,
        unit_spacing_ms: u32,
        unit_speed: u32,
        release_policy: ReleasePolicy,
    ) -> (s: Self)
        ensures
            s.play_state == PlayState::Setup,
            s.next_wave.0@ == initial_units@,
            s.current_wave.unit_queue@ == Seq::<u64>::empty(),
            s.current_wave.next_unit_timer == (GameTimer {
                elapsed_ms: 0,
                duration_ms: unit_spacing_ms,
            }),
            s.intermission_timer.0 == (GameTimer { elapsed_ms: 0, duration_ms: intermission_ms }),
            s.followers@ == Seq::<ActiveFollower>::empty(),
            s.release_policy == release_policy,
            s.unit_speed == unit_speed,
            initial_units@.no_duplicates() ==> s.units_wf(),
    {
        let s = WaveScheduler {
            play_state: PlayState::Setup,
            next_wave: NextWaveQueue(initial_units),
            current_wave: CurrentWave::new(unit_spacing_ms),
            intermission_timer: IntermissionTimer(GameTimer::new(intermission_ms)),
            followers: Vec::new(),
            release_policy,
            unit_speed,
        };
        proof {
            assert(s.all_units() =~= s.next_wave.0@);
        }
        s
    }

    /// The level-assembly signal: a freshly loaded level moves the game out
    /// of setup into the first intermission.
    pub fn level_loaded(&mut self)
        requires
            old(self).play_state == PlayState::Setup,
        ensures
            *final(self) == (WaveScheduler { play_state: PlayState::Intermission, ..*old(self) }),
    {
        self.play_state = PlayState::Intermission;
    }

    /// Suspends updates; timers and queues keep their state.
    pub fn pause(&mut self)
        ensures
            *final(self) == (WaveScheduler { play_state: PlayState::Paused, ..*old(self) }),
    {
        self.play_state = PlayState::Paused;
    }

    /// Resumes a paused game into the given phase (the outer layer remembers
    /// which phase was suspended).
    pub fn resume(&mut self, state: PlayState)
        requires
            old(self).play_state == PlayState::Paused,
        ensures
            *final(self) == (WaveScheduler { play_state: state, ..*old(self) }),
    {
        self.play_state = state;
    }

    /// One intermission tick: the countdown advances, and the moment it
    /// runs out every pending unit moves into the wave's release order (the
    /// pending queue treated as a stack under `Lifo`, kept in order under
    /// `Fifo`) and the phase changes to `Wave`.
    pub fn sys_intermission_timer(&mut self, delta_ms: u32)
        requires
            old(self).play_state == PlayState::Intermission,
        ensures
            Self::intermission_step(*old(self), *final(self), delta_ms as int),
            final(self).all_units().to_multiset() == old(self).all_units().to_multiset(),
            old(self).units_wf() ==> final(self).units_wf(),
    {
        let ghost old_all = self.all_units();
        self.intermission_timer.0.tick(delta_ms);
        if !self.intermission_timer.0.finished() {
            proof {
                assert(self.all_units() =~= old_all);
            }
            return ;
        }
        let ghost p = self.next_wave.0@;
        let ghost q = self.current_wave.unit_queue@;
        let ghost pre = *self;
        match self.release_policy {
            ReleasePolicy::Lifo => {
                self.current_wave.unit_queue.append(&mut self.next_wave.0);
            },
            ReleasePolicy::Fifo => {
                proof {
                    assert(p.take(p.len() as int) =~= p);
                    assert(q + p.skip(p.len() as int).reverse() =~= q);
                }
                while self.next_wave.0.len() > 0
                    invariant
                        self.play_state == pre.play_state,
                        self.release_policy == pre.release_policy,
                        self.followers@ == pre.followers@,
                        self.intermission_timer == pre.intermission_timer,
                        self.current_wave.next_unit_timer == pre.current_wave.next_unit_timer,
                        self.unit_speed == pre.unit_speed,
                        self.next_wave.0@.len() <= p.len(),
                        self.next_wave.0@ == p.take(self.next_wave.0@.len() as int),
                        self.current_wave.unit_queue@ == q + p.skip(
                            self.next_wave.0@.len() as int,
                        ).reverse(),
                    decreases self.next_wave.0@.len(),
                {
                    let ghost k = self.next_wave.0@.len() as int;
                    let u = self.next_wave.0.pop().unwrap();
                    self.current_wave.unit_queue.push(u);
                    proof {
                        assert(u == p.take(k)[k - 1]);
                        assert(p.take(k - 1) =~= p.take(k).drop_last());
                        assert(q + p.skip(k - 1).reverse() =~= (q + p.skip(k).reverse()).push(
                            p[k - 1],
                        ));
                    }
                }
                proof {
                    assert(self.next_wave.0@ =~= Seq::<u64>::empty());
                    assert(p.skip(0) =~= p);
                }
            },
        }
        self.play_state = PlayState::Wave;
        proof {
            let fin_q = self.current_wave.unit_queue@;
            let fu = follower_units(self.followers@);
            if self.release_policy == ReleasePolicy::Lifo {
                assert(fin_q == q + p);
                lemma_multiset_commutative(q, p);
                lemma_multiset_commutative(p, q);
                lemma_multiset_commutative(p + q, fu);
                lemma_multiset_commutative(q + p, fu);
                assert(old_all == (p + q) + fu);
                assert(self.all_units() =~= fin_q + fu);
                assert(self.all_units().to_multiset() =~= old_all.to_multiset());
            } else {
                assert(fin_q == q + p.reverse());
                p.lemma_reverse_to_multiset();
                lemma_multiset_commutative(q, p.reverse());
                lemma_multiset_commutative(p, q);
                lemma_multiset_commutative(p + q, fu);
                lemma_multiset_commutative(q + p.reverse(), fu);
                assert(old_all == (p + q) + fu);
                assert(self.all_units() =~= fin_q + fu);
                assert(self.all_units().to_multiset() =~= old_all.to_multiset());
            }
            if old(self).units_wf() {
                lemma_no_dup_from_multiset(old_all, self.all_units());
            }
        }
    }

    /// One wave tick of the release cadence: while units wait in the release
    /// order, the spacing countdown advances; the moment it runs out it
    /// resets and the unit at the back of the queue steps onto the path with
    /// a fresh follower (zero distance, the scheduler's speed), becoming
    /// visible. With an empty queue nothing happens, not even the countdown.
    pub fn sys_wave_place_entities(&mut self, delta_ms: u32) -> (released: Option<u64>)
        requires
            old(self).play_state == PlayState::Wave,
        ensures
            Self::place_step(*old(self), *final(self), delta_ms as int, released),
            final(self).all_units().to_multiset() == old(self).all_units().to_multiset(),
            old(self).units_wf() ==> final(self).units_wf(),
    {
        broadcast use vstd::seq_lib::group_to_multiset_ensures;

        if self.current_wave.unit_queue.is_empty() {
            return None;
        }
        let ghost old_all = self.all_units();
        let ghost p = self.next_wave.0@;
        let ghost q = self.current_wave.unit_queue@;
        let ghost fu = follower_units(self.followers@);
        self.current_wave.next_unit_timer.tick(delta_ms);
        if !self.current_wave.next_unit_timer.finished() {
            proof {
                assert(self.all_units() =~= old_all);
            }
            return None;
        }
        self.current_wave.next_unit_timer.reset();
        let next_unit = self.current_wave.unit_queue.pop().unwrap();
        let entry = ActiveFollower {
            unit: next_unit,
            follower: PathFollower { current_dist: 0, speed: self.unit_speed },
            completed: false,
            position: None,
        };
        self.followers.push(entry);
        proof {
            let q2 = self.current_wave.unit_queue@;
            let fu2 = follower_units(self.followers@);
            assert(q =~= q2.push(next_unit));
            assert(fu2 =~= fu.push(entry.unit)) by {
                assert(self.followers@ =~= old(self).followers@.push(entry));
                assert forall|j: int|
                    0 <= j < fu2.len() implies fu2[j] == fu.push(entry.unit)[j] by {}
            }
            lemma_multiset_commutative(p, q);
            lemma_multiset_commutative(p + q, fu);
            lemma_multiset_commutative(p, q2);
            lemma_multiset_commutative(p + q2, fu2);
            assert(q.to_multiset() =~= q2.to_multiset().insert(next_unit));
            assert(fu2.to_multiset() =~= fu.to_multiset().insert(next_unit));
            assert(old_all == (p + q) + fu);
            assert(self.all_units() =~= (p + q2) + fu2);
            assert(self.all_units().to_multiset() =~= old_all.to_multiset());
            if old(self).units_wf() {
                lemma_no_dup_from_multiset(old_all, self.all_units());
            }
        }
        Some(next_unit)
    }

    /// One motion tick: every unfinished follower advances along the level's
    /// path; a follower already marked complete is left untouched, so its
    /// reported position never changes until the scheduler detaches it.
    pub fn sys_follow_tile_path(&mut self, level: &Level, delta_ms: u32)
        requires
            level.wf(),
        ensures
            Self::motion_step(*level, *old(self), *final(self), delta_ms as int),
            forall|i: int|
                0 <= i < old(self).followers@.len() && old(self).followers@[i].completed ==> final(self).followers@[i] == old(self).followers@[i],
            forall|i: int|
                0 <= i < old(self).followers@.len() ==> (#[trigger] final(self).followers@[i]).unit
                    == old(self).followers@[i].unit && final(self).followers@[i].follower.current_dist >= old(self).followers@[i].follower.current_dist,
            final(self).all_units() == old(self).all_units(),
            old(self).units_wf() ==> final(self).units_wf(),
    {
        let ghost pre = *self;
        let ghost fs = self.followers@;
        let n = self.followers.len();
        let mut i: usize = 0;
        while i < n
            invariant
                level.wf(),
                i <= n,
                n == fs.len(),
                self.play_state == pre.play_state,
                self.next_wave.0@ == pre.next_wave.0@,
                self.current_wave == pre.current_wave,
                self.intermission_timer == pre.intermission_timer,
                self.release_policy == pre.release_policy,
                self.unit_speed == pre.unit_speed,
                self.followers@.len() == n,
                forall|j: int|
                    0 <= j < i ==> #[trigger] self.followers@[j] == (if fs[j].completed {
                        fs[j]
                    } else {
                        stepped_follower(*level, fs[j], delta_ms as int)
                    }),
                forall|j: int| i <= j < n ==> #[trigger] self.followers@[j] == fs[j],
            decreases n - i,
        {
            let entry = self.followers[i];
            if !entry.completed {
                let mut e = entry;
                follow_path_step(level, &mut e, delta_ms);
                vec_set(&mut self.followers, i, e);
            }
            i = i + 1;
        }
        proof {
            assert(self.followers@ =~= ticked_followers(*level, fs, delta_ms as int));
            assert(follower_units(self.followers@) =~= follower_units(fs));
            assert(self.all_units() =~= pre.all_units());
        }
    }

    /// Collects every unit whose follower reports completion: the follower
    /// is detached, the unit is hidden again, and its handle goes to the
    /// back of the pending queue for the next wave.
    pub fn sys_entity_leaves_wave(&mut self)
        ensures
            Self::leaves_step(*old(self), *final(self)),
            final(self).all_units().to_multiset() == old(self).all_units().to_multiset(),
            old(self).units_wf() ==> final(self).units_wf(),
    {
        broadcast use vstd::seq_lib::group_to_multiset_ensures;

        let ghost pre = *self;
        let ghost fs = self.followers@;
        let mut kept: Vec<ActiveFollower> = Vec::new();
        let n = self.followers.len();
        let mut i: usize = 0;
        proof {
            assert(fs.take(0) =~= Seq::<ActiveFollower>::empty());
            assert(Seq::<ActiveFollower>::empty().filter(|f: ActiveFollower| f.completed)
                =~= Seq::<ActiveFollower>::empty()) by {
                reveal(Seq::filter);
            }
            assert(Seq::<ActiveFollower>::empty().filter(|f: ActiveFollower| !f.completed)
                =~= Seq::<ActiveFollower>::empty()) by {
                reveal(Seq::filter);
            }
            assert(follower_units(Seq::<ActiveFollower>::empty()) =~= Seq::<u64>::empty());
        }
        while i < n
            invariant
                i <= n,
                n == fs.len(),
                self.followers@ == fs,
                self.play_state == pre.play_state,
                self.current_wave == pre.current_wave,
                self.intermission_timer == pre.intermission_timer,
                self.release_policy == pre.release_policy,
                self.unit_speed == pre.unit_speed,
                kept@ == fs.take(i as int).filter(|f: ActiveFollower| !f.completed),
                self.next_wave.0@ == pre.next_wave.0@ + follower_units(
                    fs.take(i as int).filter(|f: ActiveFollower| f.completed),
                ),
            decreases n - i,
        {
            let entry = self.followers[i];
            proof {
                assert(fs.take(i as int + 1) =~= fs.take(i as int).push(fs[i as int]));
                fs.take(i as int).lemma_filter_push(entry, |f: ActiveFollower| f.completed);
                fs.take(i as int).lemma_filter_push(entry, |f: ActiveFollower| !f.completed);
            }
            if entry.completed {
                self.next_wave.0.push(entry.unit);
                proof {
                    let done = fs.take(i as int).filter(|f: ActiveFollower| f.completed);
                    assert(follower_units(done.push(entry)) =~= follower_units(done).push(
                        entry.unit,
                    ));
                }
            } else {
                kept.push(entry);
            }
            i = i + 1;
        }
        self.followers = kept;
        proof {
            assert(fs.take(n as int) =~= fs);
            let done = fs.filter(|f: ActiveFollower| f.completed);
            let held = fs.filter(|f: ActiveFollower| !f.completed);
            lemma_units_partition(fs);
            let p = pre.next_wave.0@;
            let q = pre.current_wave.unit_queue@;
            lemma_multiset_commutative(p, q);
            lemma_multiset_commutative(p + q, follower_units(fs));
            lemma_multiset_commutative(p, follower_units(done));
            lemma_multiset_commutative(p + follower_units(done), q);
            lemma_multiset_commutative(
                (p + follower_units(done)) + q,
                follower_units(held),
            );
            assert(pre.all_units() == (p + q) + follower_units(fs));
            assert(self.all_units() =~= ((p + follower_units(done)) + q) + follower_units(held));
            assert(self.all_units().to_multiset() =~= pre.all_units().to_multiset()) by {
                broadcast use vstd::multiset::group_multiset_axioms;
            }
            if pre.units_wf() {
                lemma_no_dup_from_multiset(pre.all_units(), self.all_units());
            }
        }
    }

    /// The wave ends once the release order is drained and no unit still
    /// holds a follower: the intermission countdown restarts from zero and
    /// the phase returns to `Intermission`. Otherwise nothing changes.
    pub fn sys_detect_wave_completed(&mut self)
        requires
            old(self).play_state == PlayState::Wave,
        ensures
            Self::detect_step(*old(self), *final(self)),
            final(self).all_units().to_multiset() == old(self).all_units().to_multiset(),
            old(self).units_wf() ==> final(self).units_wf(),
    {
        if self.current_wave.unit_queue.is_empty() && self.followers.is_empty() {
            self.intermission_timer.0.reset();
            self.play_state = PlayState::Intermission;
        }
        proof {
            assert(self.all_units() =~= old(self).all_units());
        }
    }

    /// One whole scheduler tick. During an intermission the countdown runs;
    /// during a wave the release cadence fires, every unfinished follower
    /// advances, finished units are detached and requeued before wave
    /// completion is judged (so a wave whose last unit finishes the moment it
    /// is released still ends this very tick), and a drained wave flows back
    /// into an intermission. `Setup` and `Paused` change nothing. Whatever
    /// the phase, the unit pool is preserved: every unit stays in exactly one
    /// of the pending queue, the release order, or the active followers.
    pub fn tick(&mut self, level: &Level, delta_ms: u32)
        requires
            level.wf(),
        ensures
            final(self).all_units().to_multiset() == old(self).all_units().to_multiset(),
            old(self).units_wf() ==> final(self).units_wf(),
            old(self).play_state == PlayState::Setup || old(self).play_state == PlayState::Paused
                ==> *final(self) == *old(self),
            old(self).play_state == PlayState::Intermission ==> Self::intermission_step(
                *old(self),
                *final(self),
                delta_ms as int,
            ),
            old(self).play_state == PlayState::Wave ==> Self::wave_step(
                *level,
                *old(self),
                *final(self),
                delta_ms as int,
            ),
    {
        match self.play_state {
            PlayState::Setup => (),
            PlayState::Paused => (),
            PlayState::Intermission => {
                self.sys_intermission_timer(delta_ms);
            },
            PlayState::Wave => {
                let ghost s0 = *self;
                let released = self.sys_wave_place_entities(delta_ms);
                let ghost s1 = *self;
                self.sys_follow_tile_path(level, delta_ms);
                let ghost s2 = *self;
                self.sys_entity_leaves_wave();
                let ghost s3 = *self;
                self.sys_detect_wave_completed();
                proof {
                    assert(Self::place_step(s0, s1, delta_ms as int, released));
                    assert(Self::motion_step(*level, s1, s2, delta_ms as int));
                    assert(Self::leaves_step(s2, s3));
                    assert(Self::detect_step(s3, *self));
                    assert(Self::wave_step(*level, s0, *self, delta_ms as int));
                }
            },
        }
    }
}

/// The followers after one motion tick: finished units are left exactly as
/// they are; every other unit is advanced by `follow_path_step`.
pub open spec fn ticked_followers(level: Level, fs: Seq<ActiveFollower>, elapsed_ms: int) -> Seq<
    ActiveFollower,
> {
    fs.map_values(
        |f: ActiveFollower|
            if f.completed {
                f
            } else {
                stepped_follower(level, f, elapsed_ms)
            },
    )
}

/// Writes one element of a vector in place.
fn vec_set<T>(v: &mut Vec<T>, i: usize, value: T)
    requires
        i < old(v)@.len(),
    ensures
        final(v)@ == old(v)@.update(i as int, value),
{
    let slot = &mut v[i];
    *slot = value;
}

/// A run of followers carries the same unit handles, as a multiset, as the
/// finished part and the unfinished part taken together.
proof fn lemma_units_partition(fs: Seq<ActiveFollower>)
    ensures
        follower_units(fs).to_multiset() == follower_units(
            fs.filter(|f: ActiveFollower| f.completed),
        ).to_multiset().add(
            follower_units(fs.filter(|f: ActiveFollower| !f.completed)).to_multiset(),
        ),
    decreases fs.len(),
{
    broadcast use vstd::seq_lib::group_to_multiset_ensures;
    broadcast use vstd::multiset::group_multiset_axioms;

    reveal(Seq::filter);
    let done = fs.filter(|f: ActiveFollower| f.completed);
    let held = fs.filter(|f: ActiveFollower| !f.completed);
    if fs.len() == 0 {
        assert(follower_units(fs) =~= Seq::<u64>::empty());
        assert(follower_units(done) =~= Seq::<u64>::empty());
        assert(follower_units(held) =~= Seq::<u64>::empty());
        assert(follower_units(fs).to_multiset() =~= follower_units(done).to_multiset().add(
            follower_units(held).to_multiset(),
        ));
    } else {
        let pre = fs.drop_last();
        let last = fs.last();
        lemma_units_partition(pre);
        let pre_done = pre.filter(|f: ActiveFollower| f.completed);
        let pre_held = pre.filter(|f: ActiveFollower| !f.completed);
        assert(follower_units(pre).push(last.unit) =~= follower_units(pre.push(last)));
        assert(pre.push(last) =~= fs);
        assert(follower_units(fs).to_multiset() =~= follower_units(pre).to_multiset().insert(
            last.unit,
        ));
        if last.completed {
            assert(done =~= pre_done.push(last));
            assert(held =~= pre_held);
            assert(follower_units(pre_done).push(last.unit) =~= follower_units(
                pre_done.push(last),
            ));
            assert(follower_units(done).to_multiset() =~= follower_units(
                pre_done,
            ).to_multiset().insert(last.unit));
            assert(follower_units(fs).to_multiset() =~= follower_units(done).to_multiset().add(
                follower_units(held).to_multiset(),
            ));
        } else {
            assert(held =~= pre_held.push(last));
            assert(done =~= pre_done);
            assert(follower_units(pre_held).push(last.unit) =~= follower_units(
                pre_held.push(last),
            ));
            assert(follower_units(held).to_multiset() =~= follower_units(
                pre_held,
            ).to_multiset().insert(last.unit));
            assert(follower_units(fs).to_multiset() =~= follower_units(done).to_multiset().add(
                follower_units(held).to_multiset(),
            ));
        }
    }
}

/// In a well-formed scheduler a unit handle sits in at most one of the
/// pending queue, the release order, and the active followers.
pub proof fn lemma_unit_in_one_place(s: WaveScheduler, u: u64)
    requires
        s.units_wf(),
    ensures
        !(s.next_wave.0@.contains(u) && s.current_wave.unit_queue@.contains(u)),
        !(s.next_wave.0@.contains(u) && follower_units(s.followers@).contains(u)),
        !(s.current_wave.unit_queue@.contains(u) && follower_units(s.followers@).contains(u)),
{
    let p = s.next_wave.0@;
    let q = s.current_wave.unit_queue@;
    let fu = follower_units(s.followers@);
    let all = s.all_units();
    assert forall|i: int, j: int|
        0 <= i < p.len() && 0 <= j < q.len() implies !(p[i] == u && q[j] == u) by {
        assert(all[i] == p[i]);
        assert(all[p.len() + j] == q[j]);
    }
    assert forall|i: int, j: int|
        0 <= i < p.len() && 0 <= j < fu.len() implies !(p[i] == u && fu[j] == u) by {
        assert(all[i] == p[i]);
        assert(all[p.len() + q.len() + j] == fu[j]);
    }
    assert forall|i: int, j: int|
        0 <= i < q.len() && 0 <= j < fu.len() implies !(q[i] == u && fu[j] == u) by {
        assert(all[p.len() + i] == q[i]);
        assert(all[p.len() + q.len() + j] == fu[j]);
    }
}

/// Two sequences with the same multiset of elements are duplicate-free
/// together or not at all.
pub proof fn lemma_no_dup_from_multiset(a: Seq<u64>, b: Seq<u64>)
    requires
        a.to_multiset() == b.to_multiset(),
        a.no_duplicates(),
    ensures
        b.no_duplicates(),
{
    a.lemma_multiset_has_no_duplicates();
    b.lemma_multiset_has_no_duplicates_conv();
}

} // verus!
