//! The simulation context and the per-frame passes.
//!
//! A [`World`] owns the flock, the shared spawn countdown, the fixed-step
//! clock, and the audio registry.  Each frame runs the passes in a fixed
//! order: spawn admission, zero or more fixed physics ticks, interpolation,
//! the behavior pass, and the lifecycle reaper.  Spawning and despawning are
//! confined to their own passes, so the flock is never mutated while the
//! behavior pass walks it.

use vstd::prelude::*;

verus! {

use crate::audio::{AudioCommand, AudioRegistry};
use crate::bird::{bird_edge, lemma_behave_edge, Bird, BehaviorState, LANDMARK_LIMIT};
use crate::geom::{dist_sq, dist_sq_i128, Vec3Fix, COORD_LIMIT};
use crate::physics::{
    advance_tick,
    step_coord,
    FixedClock,
    FRAME_DT_LIMIT,
    POS_LIMIT,
    TICK_POS_LIMIT,
    VEL_LIMIT,
};
use crate::rng::SimRng;
use crate::seq_util::{
    lemma_filter_membership,
    lemma_filter_push,
    lemma_filter_subset,
    lemma_push_contains_cases,
    lemma_push_preserves_contains,
};
use crate::spawn::{fresh_spawn, spawn_attempt, BirdSpawnTimer, MAX_BIRDS};

/// A bird eligible for removal: departing and past twenty-eight units from
/// the origin.
pub open spec fn should_despawn(b: Bird) -> bool {
    &&& b.state matches BehaviorState::Departing { .. }
    &&& dist_sq(b.pos, Vec3Fix::spec_zero()) > DESPAWN_DIST_SQ as int
}

/// The predicate that keeps every bird the reaper does not remove.
pub open spec fn survivor() -> spec_fn(Bird) -> bool {
    |b: Bird| !should_despawn(b)
}

/// What the behavior pass does to the audio state on one bird's account,
/// stated against the registry before the pass (`old_next`, `old_live`) and
/// the live set and command stream after it.  On Perching expiry the bird
/// records one handle the registry had never handed out before, that handle
/// is live when the pass ends, and a request to play one of the species'
/// cues at full vocalization volume at the bird's position went out.  On
/// Vocalizing expiry the bird's outstanding handle is no longer live when
/// the pass ends, and if it was live before the pass a stop request for it
/// went out.
pub open spec fn pass_audio_effects(
    pre: Bird,
    post: Bird,
    old_next: u64,
    old_live: Seq<u64>,
    live: Seq<u64>,
    cmds: Seq<AudioCommand>,
    dt_ms: u64,
) -> bool {
    &&& crate::bird::perch_expired(pre, dt_ms) ==> {
        let h = post.calls@[0];
        &&& post.calls@.len() == 1
        &&& h >= old_next
        &&& !old_live.contains(h)
        &&& live.contains(h)
        &&& (exists|c: u32|
            crate::species::spec_cues(pre.species).contains(c) && cmds.contains(
                AudioCommand::Play {
                    handle: h,
                    cue: c,
                    volume_milli: crate::audio::VOCAL_VOLUME_MILLI,
                    pos: pre.pos,
                },
            ))
    }
    &&& crate::bird::vocal_expired(pre, dt_ms) ==> {
        let h0 = pre.calls@[0];
        &&& !live.contains(h0)
        &&& (old_live.contains(h0) ==> cmds.contains(AudioCommand::Stop { handle: h0 }))
    }
}

/// Squared distance from the origin past which a departing bird is culled:
/// twenty-eight units.
pub const DESPAWN_DIST_SQ: i128 = 784_000_000_000_000;

/// What one frame hands back to the embedding.
#[derive(Debug)]
pub struct FrameOutput {
    /// Whether the admission pass created a bird this frame.
    pub spawned: bool,
    /// How many birds the reaper removed this frame.
    pub removed: usize,
    /// One interpolated visual position per bird, in flock order, as of the
    /// interpolation pass.
    pub visuals: Vec<Vec3Fix>,
    /// The audio requests of this frame, in order.
    pub commands: Vec<AudioCommand>,
}

/// Advancing one more fixed step extends a linear trajectory by one step.
proof fn lemma_linear_step(p: int, v: int, t: int, step: int)
    requires
        t >= 0,
    ensures
        p + v * (t * step) + v * step == p + v * ((t + 1) * step),
{
    assert(v * (t * step) + v * step == v * ((t + 1) * step)) by (nonlinear_arith) {}
}

/// The whole simulation state.
pub struct World {
    pub birds: Vec<Bird>,
    pub spawn_timer: BirdSpawnTimer,
    pub clock: FixedClock,
    pub audio: AudioRegistry,
}

impl World {
    /// The world invariant: the population respects the cap, every bird is
    /// well formed and holds only handles the registry has handed out, and
    /// the clock and audio registry are well formed.
    pub open spec fn wf(self) -> bool {
        &&& self.birds@.len() <= MAX_BIRDS
        &&& (forall|i: int| 0 <= i < self.birds@.len() ==> (#[trigger] self.birds@[i]).wf())
        &&& (forall|i: int, k: int|
            0 <= i < self.birds@.len() && 0 <= k < self.birds@[i].calls@.len()
                ==> #[trigger] self.birds@[i].calls@[k] < self.audio.next_handle)
        &&& self.spawn_timer.timer.wf()
        &&& self.clock.wf()
        &&& self.audio.wf()
    }

    /// All physics positions lie within `limit`.
    pub open spec fn positions_in_range(self, limit: int) -> bool {
        forall|i: int|
            0 <= i < self.birds@.len() ==> (#[trigger] self.birds@[i]).pos.in_range(limit)
                && self.birds@[i].prev_pos.in_range(limit)
    }

    /// An empty world with the given fixed step.
    pub fn new(step_ms: u64) -> (r: World)
        requires
            0 < step_ms <= FRAME_DT_LIMIT,
        ensures
            r.wf(),
            r.birds@.len() == 0,
            r.clock.step_ms == step_ms,
            r.clock.acc_ms == 0,
            r.spawn_timer.timer.elapsed_ms == 0,
            r.spawn_timer.timer.duration_ms == 3000,
            r.audio.next_handle == 0,
            r.audio.live@.len() == 0,
    {
        World {
            birds: Vec::new(),
            spawn_timer: BirdSpawnTimer::default(),
            clock: FixedClock::new(step_ms),
            audio: AudioRegistry::new(),
        }
    }

    /// The admission pass: one spawn attempt per frame.  Never admits a
    /// bird while the population is at the cap, and never more than one
    /// bird per frame.
    pub fn spawn_birds(
        &mut self,
        rng: &mut SimRng,
        landmarks: &Vec<Vec3Fix>,
        dt_ms: u64,
    ) -> (spawned: bool)
        requires
            old(self).wf(),
            dt_ms <= FRAME_DT_LIMIT,
            forall|i: int|
                0 <= i < landmarks@.len() ==> (#[trigger] landmarks@[i]).in_range(
                    LANDMARK_LIMIT as int,
                ),
        ensures
            final(self).wf(),
            final(self).clock == old(self).clock,
            final(self).audio == old(self).audio,
            final(self).spawn_timer.timer.wf(),
            old(self).birds@.len() >= MAX_BIRDS ==> !spawned,
            spawned == (old(self).spawn_timer.timer.spec_ticked(dt_ms).spec_finished()
                && old(self).birds@.len() < MAX_BIRDS && landmarks@.len() > 0),
            spawned ==> final(self).birds@.len() == old(self).birds@.len() + 1
                && final(self).birds@ == old(self).birds@.push(final(self).birds@.last())
                && fresh_spawn(final(self).birds@.last(), landmarks@),
            !spawned ==> final(self).birds@ == old(self).birds@,
            ({
                let ticked = old(self).spawn_timer.timer.spec_ticked(dt_ms);
                if !ticked.spec_finished() {
                    final(self).spawn_timer.timer == ticked
                } else if old(self).birds@.len() >= MAX_BIRDS {
                    final(self).spawn_timer.timer.elapsed_ms == 0
                        && 5000 <= final(self).spawn_timer.timer.duration_ms < 10_000
                } else if landmarks@.len() == 0 {
                    final(self).spawn_timer.timer == ticked
                } else {
                    final(self).spawn_timer.timer.elapsed_ms == 0
                        && 8000 <= final(self).spawn_timer.timer.duration_ms < 15_000
                }
            }),
    {
        let n = self.birds.len();
        let r = spawn_attempt(&mut self.spawn_timer, n, landmarks, rng, dt_ms);
        match r {
            Option::Some(b) => {
                self.birds.push(b);
                proof {
                    assert forall|i: int| 0 <= i < self.birds@.len() implies
                        (#[trigger] self.birds@[i]).wf() by {
                        if i < old(self).birds@.len() {
                            assert(self.birds@[i] == old(self).birds@[i]);
                        }
                    }
                }
                true
            },
            Option::None => false,
        }
    }

    /// The fixed-step integration pass: one tick for the whole flock at the
    /// clock's fixed step.  Only positions change, each by exactly velocity
    /// times the step.
    pub fn advance_bird_physics(&mut self)
        requires
            old(self).wf(),
            old(self).positions_in_range(TICK_POS_LIMIT as int),
        ensures
            final(self).wf(),
            final(self).clock == old(self).clock,
            final(self).audio == old(self).audio,
            final(self).spawn_timer == old(self).spawn_timer,
            final(self).birds@.len() == old(self).birds@.len(),
            forall|i: int|
                0 <= i < old(self).birds@.len() ==> {
                    let pre = old(self).birds@[i];
                    let post = #[trigger] final(self).birds@[i];
                    &&& post.pos.x == step_coord(
                        pre.pos.x as int,
                        pre.vel.x as int,
                        old(self).clock.step_ms as int,
                    )
                    &&& post.pos.y == step_coord(
                        pre.pos.y as int,
                        pre.vel.y as int,
                        old(self).clock.step_ms as int,
                    )
                    &&& post.pos.z == step_coord(
                        pre.pos.z as int,
                        pre.vel.z as int,
                        old(self).clock.step_ms as int,
                    )
                    &&& post.prev_pos == pre.pos
                    &&& post.species == pre.species
                    &&& post.trees_visited == pre.trees_visited
                    &&& post.max_trees == pre.max_trees
                    &&& post.state == pre.state
                    &&& post.vel == pre.vel
                    &&& post.calls@ == pre.calls@
                    &&& post.pos.in_range(COORD_LIMIT as int)
                },
    {
        let step = self.clock.step_ms;
        let mut i: usize = 0;
        while i < self.birds.len()
            invariant
                i <= self.birds@.len(),
                self.birds@.len() == old(self).birds@.len(),
                self.clock == old(self).clock,
                self.audio == old(self).audio,
                self.spawn_timer == old(self).spawn_timer,
                step == old(self).clock.step_ms,
                old(self).wf(),
                old(self).positions_in_range(TICK_POS_LIMIT as int),
                forall|j: int|
                    i <= j < self.birds@.len()
                        ==> #[trigger] self.birds@[j] == old(self).birds@[j],
                forall|j: int|
                    0 <= j < i ==> {
                        let pre = old(self).birds@[j];
                        let post = #[trigger] self.birds@[j];
                        &&& post.pos.x == step_coord(
                            pre.pos.x as int,
                            pre.vel.x as int,
                            step as int,
                        )
                        &&& post.pos.y == step_coord(
                            pre.pos.y as int,
                            pre.vel.y as int,
                            step as int,
                        )
                        &&& post.pos.z == step_coord(
                            pre.pos.z as int,
                            pre.vel.z as int,
                            step as int,
                        )
                        &&& post.prev_pos == pre.pos
                        &&& post.species == pre.species
                        &&& post.trees_visited == pre.trees_visited
                        &&& post.max_trees == pre.max_trees
                        &&& post.state == pre.state
                        &&& post.vel == pre.vel
                        &&& post.calls@ == pre.calls@
                        &&& post.pos.in_range(COORD_LIMIT as int)
                        &&& post.wf()
                    },
            decreases self.birds@.len() - i,
        {
            let b = &mut self.birds[i];
            let mut p = b.pos;
            let mut q = b.prev_pos;
            let v = b.vel;
            advance_tick(&mut p, &mut q, &v, step);
            b.pos = p;
            b.prev_pos = q;
            i = i + 1;
        }
    }

    /// The render interpolation pass: one smoothed visual position per
    /// bird, blending the previous and current physics positions by the
    /// leftover fraction of a fixed tick.  Never mutates simulation state.
    pub fn interpolate_bird_transforms(&self) -> (r: Vec<Vec3Fix>)
        requires
            self.wf(),
            self.positions_in_range(COORD_LIMIT as int),
        ensures
            r@.len() == self.birds@.len(),
            forall|i: int|
                0 <= i < self.birds@.len() ==> {
                    let alpha = (self.clock.acc_ms * 1000) as int / self.clock.step_ms as int;
                    let pre = self.birds@[i];
                    &&& (#[trigger] r@[i]).x == pre.prev_pos.x + crate::geom::scale_trunc(
                        pre.pos.x - pre.prev_pos.x,
                        alpha,
                        1000,
                    )
                    &&& r@[i].y == pre.prev_pos.y + crate::geom::scale_trunc(
                        pre.pos.y - pre.prev_pos.y,
                        alpha,
                        1000,
                    )
                    &&& r@[i].z == pre.prev_pos.z + crate::geom::scale_trunc(
                        pre.pos.z - pre.prev_pos.z,
                        alpha,
                        1000,
                    )
                    &&& (alpha == 0 ==> r@[i] == pre.prev_pos)
                },
    {
        let alpha = self.clock.alpha_milli();
        let mut out: Vec<Vec3Fix> = Vec::new();
        let mut i: usize = 0;
        while i < self.birds.len()
            invariant
                i <= self.birds@.len(),
                out@.len() == i,
                self.wf(),
                self.positions_in_range(COORD_LIMIT as int),
                alpha == (self.clock.acc_ms * 1000) as int / self.clock.step_ms as int,
                alpha < 1000,
                forall|j: int|
                    0 <= j < i ==> {
                        let pre = self.birds@[j];
                        &&& (#[trigger] out@[j]).x == pre.prev_pos.x + crate::geom::scale_trunc(
                            pre.pos.x - pre.prev_pos.x,
                            alpha as int,
                            1000,
                        )
                        &&& out@[j].y == pre.prev_pos.y + crate::geom::scale_trunc(
                            pre.pos.y - pre.prev_pos.y,
                            alpha as int,
                            1000,
                        )
                        &&& out@[j].z == pre.prev_pos.z + crate::geom::scale_trunc(
                            pre.pos.z - pre.prev_pos.z,
                            alpha as int,
                            1000,
                        )
                        &&& (alpha == 0 ==> out@[j] == pre.prev_pos)
                    },
            decreases self.birds@.len() - i,
        {
            let b = &self.birds[i];
            let v = crate::physics::interpolate(&b.prev_pos, &b.pos, alpha);
            out.push(v);
            i = i + 1;
        }
        out
    }

    /// The behavior pass: one frame of the state machine for every bird, in
    /// order, sharing the audio registry and the command stream.  Every
    /// bird takes exactly one edge of the transition table, and any handle
    /// that ceases to be live during the pass has had a stop request
    /// emitted.
    pub fn bird_ai(
        &mut self,
        rng: &mut SimRng,
        landmarks: &Vec<Vec3Fix>,
        dt_ms: u64,
        sin_milli: i64,
        out: &mut Vec<AudioCommand>,
    )
        requires
            old(self).wf(),
            old(self).positions_in_range(TICK_POS_LIMIT as int),
            old(self).audio.next_handle + old(self).birds@.len() <= u64::MAX,
            dt_ms <= FRAME_DT_LIMIT,
            -1000 <= sin_milli <= 1000,
            forall|i: int|
                0 <= i < landmarks@.len() ==> (#[trigger] landmarks@[i]).in_range(
                    LANDMARK_LIMIT as int,
                ),
        ensures
            final(self).wf(),
            final(self).clock == old(self).clock,
            final(self).spawn_timer == old(self).spawn_timer,
            final(self).birds@.len() == old(self).birds@.len(),
            final(self).audio.next_handle <= old(self).audio.next_handle + old(self).birds@.len(),
            forall|i: int|
                0 <= i < old(self).birds@.len() ==> (#[trigger] final(self).birds@[i]).pos
                    == old(self).birds@[i].pos && final(self).birds@[i].prev_pos == old(self).birds@[i].prev_pos,
            landmarks@.len() == 0 ==> final(self).birds@ == old(self).birds@ && final(self).audio == old(self).audio && final(out)@ == old(out)@,
            landmarks@.len() > 0 ==> forall|i: int|
                0 <= i < old(self).birds@.len() ==> bird_edge(
                    old(self).birds@[i],
                    #[trigger] final(self).birds@[i],
                    landmarks@,
                    dt_ms,
                    sin_milli as int,
                ),
            landmarks@.len() > 0 ==> forall|i: int|
                0 <= i < old(self).birds@.len() ==> pass_audio_effects(
                    old(self).birds@[i],
                    #[trigger] final(self).birds@[i],
                    old(self).audio.next_handle,
                    old(self).audio.live@,
                    final(self).audio.live@,
                    final(out)@,
                    dt_ms,
                ),
            final(self).audio.next_handle >= old(self).audio.next_handle,
            forall|h: u64|
                old(self).audio.live@.contains(h) && !final(self).audio.live@.contains(h)
                    ==> final(out)@.contains(AudioCommand::Stop { handle: h }),
            forall|c: AudioCommand| old(out)@.contains(c) ==> final(out)@.contains(c),
    {
        let mut i: usize = 0;
        while i < self.birds.len()
            invariant
                i <= self.birds@.len(),
                self.birds@.len() == old(self).birds@.len(),
                self.clock == old(self).clock,
                self.spawn_timer == old(self).spawn_timer,
                self.audio.wf(),
                self.audio.next_handle <= old(self).audio.next_handle + i,
                self.audio.next_handle >= old(self).audio.next_handle,
                old(self).audio.next_handle + old(self).birds@.len() <= u64::MAX,
                forall|j: int, k: int|
                    0 <= j < i && 0 <= k < self.birds@[j].calls@.len()
                        ==> #[trigger] self.birds@[j].calls@[k] < self.audio.next_handle,
                landmarks@.len() > 0 ==> forall|j: int|
                    0 <= j < i ==> pass_audio_effects(
                        old(self).birds@[j],
                        #[trigger] self.birds@[j],
                        old(self).audio.next_handle,
                        old(self).audio.live@,
                        self.audio.live@,
                        out@,
                        dt_ms,
                    ),
                old(self).wf(),
                old(self).positions_in_range(TICK_POS_LIMIT as int),
                dt_ms <= FRAME_DT_LIMIT,
                -1000 <= sin_milli <= 1000,
                forall|k: int|
                    0 <= k < landmarks@.len() ==> (#[trigger] landmarks@[k]).in_range(
                        LANDMARK_LIMIT as int,
                    ),
                forall|j: int|
                    i <= j < self.birds@.len()
                        ==> #[trigger] self.birds@[j] == old(self).birds@[j],
                forall|j: int|
                    0 <= j < i ==> (#[trigger] self.birds@[j]).wf() && self.birds@[j].pos
                        == old(self).birds@[j].pos && self.birds@[j].prev_pos == old(self).birds@[j].prev_pos,
                landmarks@.len() == 0 ==> self.birds@ == old(self).birds@ && self.audio == old(self).audio && out@ == old(out)@,
                landmarks@.len() > 0 ==> forall|j: int|
                    0 <= j < i ==> bird_edge(
                        old(self).birds@[j],
                        #[trigger] self.birds@[j],
                        landmarks@,
                        dt_ms,
                        sin_milli as int,
                    ),
                forall|h: u64|
                    old(self).audio.live@.contains(h) && !self.audio.live@.contains(h)
                        ==> out@.contains(AudioCommand::Stop { handle: h }),
                forall|c: AudioCommand| old(out)@.contains(c) ==> out@.contains(c),
            decreases self.birds@.len() - i,
        {
            let ghost reg_pre = self.audio;
            let ghost out_pre = out@;
            let ghost pre = self.birds@[i as int];
            let b = &mut self.birds[i];
            b.behave(&mut self.audio, rng, landmarks, dt_ms, sin_milli, out);
            proof {
                let post = self.birds@[i as int];
                if landmarks@.len() == 0 {
                    assert(self.birds@ =~= old(self).birds@);
                } else {
                    lemma_behave_edge(
                        pre,
                        post,
                        reg_pre,
                        self.audio,
                        out_pre,
                        out@,
                        landmarks@,
                        dt_ms,
                        sin_milli as int,
                    );
                    assert forall|c: AudioCommand| out_pre.contains(c) implies out@.contains(
                        c,
                    ) by {
                        match pre.state {
                            BehaviorState::Perching { timer } => {
                                if timer.spec_ticked(dt_ms).spec_finished() {
                                    let ci = choose|ci: int|
                                        0 <= ci < crate::species::spec_cues(pre.species).len()
                                            && out@ == out_pre.push(AudioCommand::Play {
                                            handle: reg_pre.next_handle,
                                            cue: crate::species::spec_cues(pre.species)[ci],
                                            volume_milli: crate::audio::VOCAL_VOLUME_MILLI,
                                            pos: pre.pos,
                                        });
                                    lemma_push_preserves_contains(
                                        out_pre,
                                        AudioCommand::Play {
                                            handle: reg_pre.next_handle,
                                            cue: crate::species::spec_cues(pre.species)[ci],
                                            volume_milli: crate::audio::VOCAL_VOLUME_MILLI,
                                            pos: pre.pos,
                                        },
                                        c,
                                    );
                                }
                            },
                            BehaviorState::Vocalizing { timer } => {
                                if timer.spec_ticked(dt_ms).spec_finished() {
                                    let h0 = pre.calls@[0];
                                    if reg_pre.live@.contains(h0) {
                                        lemma_push_preserves_contains(
                                            out_pre,
                                            AudioCommand::Stop { handle: h0 },
                                            c,
                                        );
                                    }
                                }
                            },
                            _ => {},
                        }
                    }
                    assert forall|h: u64|
                        old(self).audio.live@.contains(h) && !self.audio.live@.contains(h)
                        implies out@.contains(AudioCommand::Stop { handle: h }) by {
                        if reg_pre.live@.contains(h) {
                            match pre.state {
                                BehaviorState::Perching { timer } => {
                                    if timer.spec_ticked(dt_ms).spec_finished() {
                                        lemma_push_preserves_contains(
                                            reg_pre.live@,
                                            reg_pre.next_handle,
                                            h,
                                        );
                                    }
                                },
                                BehaviorState::Vocalizing { timer } => {
                                    if timer.spec_ticked(dt_ms).spec_finished() {
                                        let h0 = pre.calls@[0];
                                        lemma_filter_membership(
                                            reg_pre.live@,
                                            crate::audio::keeps(h0),
                                            h,
                                        );
                                        assert(h == h0);
                                        assert(out@ == out_pre.push(AudioCommand::Stop {
                                            handle: h0,
                                        }));
                                        assert(out@[out@.len() - 1] == AudioCommand::Stop {
                                            handle: h,
                                        });
                                    }
                                },
                                _ => {},
                            }
                        } else {
                            assert(out_pre.contains(AudioCommand::Stop { handle: h }));
                        }
                    }
                    assert(pre == old(self).birds@[i as int]);
                    assert(old(self).birds@[i as int].wf());
                    assert forall|j: int, k: int|
                        0 <= j < i + 1 && 0 <= k < self.birds@[j].calls@.len() implies
                        #[trigger] self.birds@[j].calls@[k] < self.audio.next_handle by {
                        if j == i {
                            assert(old(self).birds@[j].calls@.len() == pre.calls@.len());
                            if pre.calls@ == post.calls@ && k < pre.calls@.len() {
                                assert(old(self).birds@[j].calls@[k] < old(
                                    self,
                                ).audio.next_handle);
                            }
                        }
                    }
                    assert forall|j: int| 0 <= j < i + 1 implies pass_audio_effects(
                        old(self).birds@[j],
                        #[trigger] self.birds@[j],
                        old(self).audio.next_handle,
                        old(self).audio.live@,
                        self.audio.live@,
                        out@,
                        dt_ms,
                    ) by {
                        let prej = old(self).birds@[j];
                        let postj = self.birds@[j];
                        assert(prej.wf());
                        if j == i {
                            if crate::bird::perch_expired(pre, dt_ms) {
                                let h = postj.calls@[0];
                                assert(h == reg_pre.next_handle);
                                if old(self).audio.live@.contains(h) {
                                    let w = choose|w: int|
                                        0 <= w < old(self).audio.live@.len() && old(
                                            self,
                                        ).audio.live@[w] == h;
                                    assert(old(self).audio.live@[w] < old(
                                        self,
                                    ).audio.next_handle);
                                    assert(false);
                                }
                                assert(self.audio.live@ == reg_pre.live@.push(h));
                                assert(self.audio.live@[self.audio.live@.len() - 1] == h);
                                let ci = choose|ci: int|
                                    0 <= ci < crate::species::spec_cues(pre.species).len()
                                        && out@ == out_pre.push(AudioCommand::Play {
                                        handle: reg_pre.next_handle,
                                        cue: crate::species::spec_cues(pre.species)[ci],
                                        volume_milli: crate::audio::VOCAL_VOLUME_MILLI,
                                        pos: pre.pos,
                                    });
                                let c = crate::species::spec_cues(pre.species)[ci];
                                assert(crate::species::spec_cues(pre.species).contains(c));
                                assert(out@[out@.len() - 1] == AudioCommand::Play {
                                    handle: h,
                                    cue: c,
                                    volume_milli: crate::audio::VOCAL_VOLUME_MILLI,
                                    pos: pre.pos,
                                });
                            }
                            if crate::bird::vocal_expired(pre, dt_ms) {
                                let h0 = pre.calls@[0];
                                lemma_filter_membership(
                                    reg_pre.live@,
                                    crate::audio::keeps(h0),
                                    h0,
                                );
                                if old(self).audio.live@.contains(h0)
                                    && !reg_pre.live@.contains(h0) {
                                    assert(out_pre.contains(AudioCommand::Stop {
                                        handle: h0,
                                    }));
                                }
                                if reg_pre.live@.contains(h0) {
                                    assert(out@[out@.len() - 1] == AudioCommand::Stop {
                                        handle: h0,
                                    });
                                }
                            }
                        } else {
                            if crate::bird::perch_expired(prej, dt_ms) {
                                let h = postj.calls@[0];
                                if crate::bird::vocal_expired(pre, dt_ms) {
                                    let h0 = pre.calls@[0];
                                    assert(old(self).birds@[i as int].calls@[0] < old(
                                        self,
                                    ).audio.next_handle);
                                    lemma_filter_membership(
                                        reg_pre.live@,
                                        crate::audio::keeps(h0),
                                        h,
                                    );
                                } else if crate::bird::perch_expired(pre, dt_ms) {
                                    lemma_push_preserves_contains(
                                        reg_pre.live@,
                                        reg_pre.next_handle,
                                        h,
                                    );
                                }
                            }
                            if crate::bird::vocal_expired(prej, dt_ms) {
                                let h0j = prej.calls@[0];
                                assert(old(self).birds@[j].calls@[0] < old(
                                    self,
                                ).audio.next_handle);
                                if crate::bird::perch_expired(pre, dt_ms) {
                                    if self.audio.live@.contains(h0j) {
                                        lemma_push_contains_cases(
                                            reg_pre.live@,
                                            reg_pre.next_handle,
                                            h0j,
                                        );
                                        assert(false);
                                    }
                                } else if crate::bird::vocal_expired(pre, dt_ms) {
                                    let h0 = pre.calls@[0];
                                    lemma_filter_membership(
                                        reg_pre.live@,
                                        crate::audio::keeps(h0),
                                        h0j,
                                    );
                                }
                            }
                        }
                    }
                }
            }
            i = i + 1;
        }
    }

    /// The lifecycle reaper: removes every departing bird farther than
    /// twenty-eight units from the origin, force-stopping its outstanding
    /// audio handles first.  No other state is eligible for removal.
    pub fn despawn_distant_birds(&mut self, out: &mut Vec<AudioCommand>) -> (removed: usize)
        requires
            old(self).audio.wf(),
            old(self).positions_in_range(COORD_LIMIT as int),
        ensures
            old(self).wf() ==> final(self).wf(),
            final(self).audio.wf(),
            final(self).clock == old(self).clock,
            final(self).spawn_timer == old(self).spawn_timer,
            final(self).audio.next_handle == old(self).audio.next_handle,
            final(self).birds@ == old(self).birds@.filter(survivor()),
            final(self).birds@.len() + removed == old(self).birds@.len(),
            forall|i: int, k: int|
                0 <= i < old(self).birds@.len() && should_despawn(old(self).birds@[i]) && 0 <= k
                    < old(self).birds@[i].calls@.len() ==> !final(self).audio.live@.contains(
                    #[trigger] old(self).birds@[i].calls@[k],
                ),
            forall|h: u64|
                old(self).audio.live@.contains(h) && !final(self).audio.live@.contains(h)
                    ==> final(out)@.contains(AudioCommand::Stop { handle: h }),
            forall|h: u64|
                old(self).audio.live@.contains(h) && !final(self).audio.live@.contains(h)
                    ==> (exists|i: int, k: int|
                    0 <= i < old(self).birds@.len() && should_despawn(old(self).birds@[i]) && 0
                        <= k < old(self).birds@[i].calls@.len() && old(self).birds@[i].calls@[k]
                        == h),
            forall|c: AudioCommand| old(out)@.contains(c) ==> final(out)@.contains(c),
    {
        let n0: usize = self.birds.len();
        let mut i: usize = 0;
        let mut removed: usize = 0;
        let ghost all = old(self).birds@;
        proof {
            assert(all.take(0) =~= Seq::<Bird>::empty());
            reveal(Seq::filter);
            assert(all.take(0).filter(survivor()) =~= Seq::<Bird>::empty());
            assert(self.birds@ =~= all.take(0).filter(survivor()) + all.skip(0));
        }
        while i < self.birds.len()
            invariant
                i + removed <= all.len(),
                all.len() == n0,
                i <= self.birds@.len(),
                all == old(self).birds@,
                self.birds@ == all.take((i + removed) as int).filter(survivor()) + all.skip(
                    (i + removed) as int,
                ),
                i == all.take((i + removed) as int).filter(survivor()).len(),
                self.clock == old(self).clock,
                self.spawn_timer == old(self).spawn_timer,
                self.audio.wf(),
                self.audio.next_handle == old(self).audio.next_handle,
                old(self).positions_in_range(COORD_LIMIT as int),
                forall|a: int, k: int|
                    0 <= a < i + removed && should_despawn(all[a]) && 0 <= k
                        < all[a].calls@.len() ==> !self.audio.live@.contains(
                        #[trigger] all[a].calls@[k],
                    ),
                forall|h: u64|
                    old(self).audio.live@.contains(h) && !self.audio.live@.contains(h)
                        ==> out@.contains(AudioCommand::Stop { handle: h }),
                forall|h: u64|
                    old(self).audio.live@.contains(h) && !self.audio.live@.contains(h)
                        ==> (exists|a: int, m: int|
                        0 <= a < all.len() && should_despawn(all[a]) && 0 <= m
                            < all[a].calls@.len() && all[a].calls@[m] == h),
                forall|c: AudioCommand| old(out)@.contains(c) ==> out@.contains(c),
            decreases self.birds@.len() - i,
        {
            let ghost j = (i + removed) as int;
            proof {
                assert(self.birds@[i as int] == all.skip(j)[0]);
                assert(all.skip(j)[0] == all[j]);
                assert(all.take(j + 1) =~= all.take(j).push(all[j]));
                lemma_filter_push(all.take(j), all[j], survivor());
            }
            let st: BehaviorState = self.birds[i].state;
            let pos: Vec3Fix = self.birds[i].pos;
            let origin = Vec3Fix::zero();
            let far: bool = dist_sq_i128(&pos, &origin) > DESPAWN_DIST_SQ;
            let departing: bool = match st {
                BehaviorState::Departing { .. } => true,
                _ => false,
            };
            if departing && far {
                let mut k: usize = 0;
                let ghost live_pre = self.audio.live@;
                while k < self.birds[i].calls.len()
                    invariant
                        0 <= i < self.birds@.len(),
                        k <= self.birds@[i as int].calls@.len(),
                        self.audio.wf(),
                        self.audio.next_handle == old(self).audio.next_handle,
                        self.clock == old(self).clock,
                        self.spawn_timer == old(self).spawn_timer,
                        all == old(self).birds@,
                        j == i + removed,
                        j < all.len(),
                        self.birds@ == all.take(j).filter(survivor()) + all.skip(j),
                        self.birds@[i as int] == all[j],
                        should_despawn(all[j]),
                        forall|m: int|
                            0 <= m < k ==> !self.audio.live@.contains(
                                #[trigger] self.birds@[i as int].calls@[m],
                            ),
                        forall|h: u64|
                            old(self).audio.live@.contains(h) && !self.audio.live@.contains(h)
                                ==> out@.contains(AudioCommand::Stop { handle: h }),
                        forall|c: AudioCommand| old(out)@.contains(c) ==> out@.contains(c),
                        forall|a: int, m: int|
                            0 <= a < i + removed && should_despawn(all[a]) && 0 <= m
                                < all[a].calls@.len() ==> !self.audio.live@.contains(
                                #[trigger] all[a].calls@[m],
                            ),
                        forall|h: u64|
                            old(self).audio.live@.contains(h) && !self.audio.live@.contains(h)
                                ==> (exists|a: int, m: int|
                                0 <= a < all.len() && should_despawn(all[a]) && 0 <= m
                                    < all[a].calls@.len() && all[a].calls@[m] == h),
                    decreases self.birds@[i as int].calls@.len() - k,
                {
                    let ghost reg_pre = self.audio;
                    let ghost out_pre = out@;
                    let h = self.birds[i].calls[k];
                    self.audio.stop(h, out);
                    proof {
                        assert forall|h2: u64|
                            old(self).audio.live@.contains(h2) && !self.audio.live@.contains(
                                h2,
                            ) implies out@.contains(AudioCommand::Stop { handle: h2 }) by {
                            lemma_filter_membership(reg_pre.live@, crate::audio::keeps(h), h2);
                            if reg_pre.live@.contains(h2) {
                                assert(h2 == h);
                                assert(out@[out@.len() - 1] == AudioCommand::Stop {
                                    handle: h2,
                                });
                            } else {
                                assert(out_pre.contains(AudioCommand::Stop { handle: h2 }));
                                if out@ != out_pre {
                                    lemma_push_preserves_contains(
                                        out_pre,
                                        AudioCommand::Stop { handle: h },
                                        AudioCommand::Stop { handle: h2 },
                                    );
                                }
                            }
                        }
                        assert forall|c: AudioCommand| out_pre.contains(c) implies out@
                            .contains(c) by {
                            if out@ != out_pre {
                                lemma_push_preserves_contains(
                                    out_pre,
                                    AudioCommand::Stop { handle: h },
                                    c,
                                );
                            }
                        }
                        assert forall|m: int| 0 <= m < k + 1 implies !self.audio.live@.contains(
                            #[trigger] self.birds@[i as int].calls@[m],
                        ) by {
                            lemma_filter_membership(
                                reg_pre.live@,
                                crate::audio::keeps(h),
                                self.birds@[i as int].calls@[m],
                            );
                        }
                        assert forall|a: int, m: int|
                            0 <= a < i + removed && should_despawn(all[a]) && 0 <= m
                                < all[a].calls@.len() implies !self.audio.live@.contains(
                            #[trigger] all[a].calls@[m],
                        ) by {
                            lemma_filter_membership(
                                reg_pre.live@,
                                crate::audio::keeps(h),
                                all[a].calls@[m],
                            );
                        }
                        assert forall|h2: u64|
                            old(self).audio.live@.contains(h2) && !self.audio.live@.contains(
                                h2,
                            ) implies (exists|a: int, m: int|
                            0 <= a < all.len() && should_despawn(all[a]) && 0 <= m
                                < all[a].calls@.len() && all[a].calls@[m] == h2) by {
                            if reg_pre.live@.contains(h2) {
                                lemma_filter_membership(
                                    reg_pre.live@,
                                    crate::audio::keeps(h),
                                    h2,
                                );
                                assert(h2 == h);
                                assert(0 <= j < all.len() && should_despawn(all[j]) && 0 <= (
                                k as int) < all[j].calls@.len() && all[j].calls@[k as int]
                                    == h2);
                            }
                        }
                    }
                    k = k + 1;
                }
                let _gone = self.birds.remove(i);
                removed = removed + 1;
                proof {
                    assert(should_despawn(all[j]));
                    assert(!survivor()(all[j]));
                    assert(self.birds@ =~= all.take(j + 1).filter(survivor()) + all.skip(
                        j + 1,
                    ));
                }
            } else {
                proof {
                    assert(!should_despawn(all[j]));
                    assert(survivor()(all[j]));
                    assert(self.birds@ =~= all.take(j + 1).filter(survivor()) + all.skip(
                        j + 1,
                    ));
                }
                i = i + 1;
            }
        }
        proof {
            assert(all.take((i + removed) as int) =~= all);
            assert(all.skip((i + removed) as int) =~= Seq::<Bird>::empty());
            assert(self.birds@ =~= all.filter(survivor()));
            lemma_filter_subset(all, survivor());
            if old(self).wf() {
                assert forall|x: int| 0 <= x < self.birds@.len() implies (
                #[trigger] self.birds@[x]).wf() by {
                    let v = self.birds@[x];
                    let y = choose|y: int| 0 <= y < all.len() && all[y] == v;
                    assert(all[y].wf());
                }
                assert forall|x: int, k2: int|
                    0 <= x < self.birds@.len() && 0 <= k2 < self.birds@[x].calls@.len() implies
                    #[trigger] self.birds@[x].calls@[k2] < self.audio.next_handle by {
                    let v = self.birds@[x];
                    let y = choose|y: int| 0 <= y < all.len() && all[y] == v;
                    assert(all[y].calls@[k2] < old(self).audio.next_handle);
                }
                all.lemma_filter_len(survivor());
            }
        }
        removed
    }

    /// One whole frame, in the fixed pass order: spawn admission, the fixed
    /// ticks the accumulator releases, interpolation, the behavior pass, and
    /// the lifecycle reaper.  The population never exceeds the cap, and
    /// every audio handle that ceased to be live this frame has a stop
    /// request among the emitted commands.
    pub fn frame(
        &mut self,
        rng: &mut SimRng,
        landmarks: &Vec<Vec3Fix>,
        frame_dt_ms: u64,
        sin_milli: i64,
    ) -> (r: FrameOutput)
        requires
            old(self).wf(),
            old(self).positions_in_range(POS_LIMIT as int),
            old(self).audio.next_handle + 5 <= u64::MAX,
            frame_dt_ms <= FRAME_DT_LIMIT,
            -1000 <= sin_milli <= 1000,
            forall|i: int|
                0 <= i < landmarks@.len() ==> (#[trigger] landmarks@[i]).in_range(
                    LANDMARK_LIMIT as int,
                ),
        ensures
            final(self).wf(),
            final(self).birds@.len() <= MAX_BIRDS,
            final(self).clock.step_ms == old(self).clock.step_ms,
            r.spawned ==> old(self).birds@.len() < MAX_BIRDS,
            r.spawned == (old(self).spawn_timer.timer.spec_ticked(frame_dt_ms).spec_finished()
                && old(self).birds@.len() < MAX_BIRDS && landmarks@.len() > 0),
            r.visuals@.len() == old(self).birds@.len() + (if r.spawned {
                1int
            } else {
                0int
            }),
            final(self).birds@.len() + r.removed == old(self).birds@.len() + (if r.spawned {
                1int
            } else {
                0int
            }),
            final(self).positions_in_range(3_200_000_000),
            forall|h: u64|
                old(self).audio.live@.contains(h) && !final(self).audio.live@.contains(h)
                    ==> r.commands@.contains(AudioCommand::Stop { handle: h }),
    {
        let mut commands: Vec<AudioCommand> = Vec::new();
        let spawned = self.spawn_birds(rng, landmarks, frame_dt_ms);
        proof {
            if spawned {
                let b = self.birds@.last();
                assert(-25_000_000 <= b.pos.x <= 25_000_000 && -25_000_000 <= b.pos.z
                    <= 25_000_000) by (nonlinear_arith)
                    requires
                        b.pos.x * b.pos.x + b.pos.z * b.pos.z == 625_000_000_000_000,
                {
                }
                let tgt = b.state->Approaching_target;
                assert(exists|t: int| 0 <= t < landmarks@.len() && tgt == landmarks@[t]);
                let t = choose|t: int| 0 <= t < landmarks@.len() && tgt == landmarks@[t];
                assert(landmarks@[t].in_range(LANDMARK_LIMIT as int));
            }
            assert(self.positions_in_range(POS_LIMIT as int));
        }
        let n_ticks = self.clock.advance(frame_dt_ms);
        let step = self.clock.step_ms;
        let ghost base = self.birds@;
        let ghost budget = n_ticks * step;
        proof {
            assert(budget <= 120_000);
            assert forall|i: int, k: int|
                0 <= i < base.len() && 0 <= k < base[i].calls@.len() implies
                #[trigger] base[i].calls@[k] < self.audio.next_handle by {
                assert(self.birds@[i].calls@[k] < self.audio.next_handle);
            }
        }
        let mut t: u64 = 0;
        while t < n_ticks
            invariant
                t <= n_ticks,
                n_ticks * step <= 120_000,
                0 < step <= FRAME_DT_LIMIT,
                step == self.clock.step_ms,
                self.clock.wf(),
                self.audio.wf(),
                self.audio == old(self).audio,
                self.spawn_timer.timer.wf(),
                self.birds@.len() == base.len(),
                self.birds@.len() <= MAX_BIRDS,
                forall|i: int| 0 <= i < base.len() ==> (#[trigger] base[i]).wf(),
                forall|i: int, k: int|
                    0 <= i < base.len() && 0 <= k < base[i].calls@.len()
                        ==> #[trigger] base[i].calls@[k] < self.audio.next_handle,
                forall|i: int|
                    0 <= i < base.len() ==> (#[trigger] base[i]).pos.in_range(POS_LIMIT as int)
                        && base[i].prev_pos.in_range(POS_LIMIT as int),
                forall|i: int|
                    0 <= i < base.len() ==> {
                        let pre = base[i];
                        let cur = #[trigger] self.birds@[i];
                        &&& cur.species == pre.species
                        &&& cur.trees_visited == pre.trees_visited
                        &&& cur.max_trees == pre.max_trees
                        &&& cur.state == pre.state
                        &&& cur.vel == pre.vel
                        &&& cur.calls@ == pre.calls@
                        &&& cur.wf()
                        &&& cur.pos.x == pre.pos.x + pre.vel.x * (t * step)
                        &&& cur.pos.y == pre.pos.y + pre.vel.y * (t * step)
                        &&& cur.pos.z == pre.pos.z + pre.vel.z * (t * step)
                        &&& (t == 0 ==> cur.prev_pos == pre.prev_pos)
                        &&& (t > 0 ==> cur.prev_pos.x == pre.pos.x + pre.vel.x * ((t - 1)
                            * step) && cur.prev_pos.y == pre.pos.y + pre.vel.y * ((t - 1)
                            * step) && cur.prev_pos.z == pre.pos.z + pre.vel.z * ((t - 1)
                            * step))
                        &&& cur.pos.in_range(3_200_000_000)
                        &&& cur.prev_pos.in_range(3_200_000_000)
                    },
            decreases n_ticks - t,
        {
            proof {
                assert forall|i: int| 0 <= i < base.len() implies (
                #[trigger] self.birds@[i]).pos.in_range(TICK_POS_LIMIT as int) by {}
                assert forall|i: int, k: int|
                    0 <= i < self.birds@.len() && 0 <= k < self.birds@[i].calls@.len() implies
                    #[trigger] self.birds@[i].calls@[k] < self.audio.next_handle by {
                    assert(self.birds@[i].calls@ == base[i].calls@);
                    assert(base[i].calls@[k] < self.audio.next_handle);
                }
            }
            self.advance_bird_physics();
            proof {
                assert((t + 1) * step <= n_ticks * step) by (nonlinear_arith)
                    requires
                        t + 1 <= n_ticks,
                        step >= 0,
                {
                }
                assert forall|i: int| 0 <= i < base.len() implies {
                    let pre = base[i];
                    let cur = #[trigger] self.birds@[i];
                    &&& cur.pos.x == pre.pos.x + pre.vel.x * ((t + 1) * step)
                    &&& cur.pos.y == pre.pos.y + pre.vel.y * ((t + 1) * step)
                    &&& cur.pos.z == pre.pos.z + pre.vel.z * ((t + 1) * step)
                    &&& cur.pos.in_range(3_200_000_000)
                } by {
                    let pre = base[i];
                    lemma_linear_step(pre.pos.x as int, pre.vel.x as int, t as int, step as int);
                    lemma_linear_step(pre.pos.y as int, pre.vel.y as int, t as int, step as int);
                    lemma_linear_step(pre.pos.z as int, pre.vel.z as int, t as int, step as int);
                    crate::physics::lemma_mul_bounds(
                        pre.vel.x as int,
                        (t + 1) * step,
                        VEL_LIMIT as int,
                        120_000,
                    );
                    crate::physics::lemma_mul_bounds(
                        pre.vel.y as int,
                        (t + 1) * step,
                        VEL_LIMIT as int,
                        120_000,
                    );
                    crate::physics::lemma_mul_bounds(
                        pre.vel.z as int,
                        (t + 1) * step,
                        VEL_LIMIT as int,
                        120_000,
                    );
                }
            }
            t = t + 1;
        }
        let visuals = self.interpolate_bird_transforms();
        let ghost ticked = self.birds@;
        self.bird_ai(rng, landmarks, frame_dt_ms, sin_milli, &mut commands);
        proof {
            assert forall|i: int| 0 <= i < self.birds@.len() implies (
            #[trigger] self.birds@[i]).pos.in_range(3_200_000_000) && self.birds@[i].prev_pos
                .in_range(3_200_000_000) by {
                assert(self.birds@[i].pos == ticked[i].pos);
                assert(self.birds@[i].prev_pos == ticked[i].prev_pos);
            }
        }
        let ghost audio_ai = self.audio;
        let ghost cmds_ai = commands@;
        let ghost flock_ai = self.birds@;
        let removed = self.despawn_distant_birds(&mut commands);
        proof {
            assert forall|h: u64|
                old(self).audio.live@.contains(h) && !self.audio.live@.contains(h)
                implies commands@.contains(AudioCommand::Stop { handle: h }) by {
                if !audio_ai.live@.contains(h) {
                    assert(cmds_ai.contains(AudioCommand::Stop { handle: h }));
                }
            }
            lemma_filter_subset(flock_ai, survivor());
            assert forall|i: int| 0 <= i < self.birds@.len() implies (
            #[trigger] self.birds@[i]).pos.in_range(3_200_000_000) && self.birds@[i].prev_pos
                .in_range(3_200_000_000) by {
                let v = self.birds@[i];
                let y = choose|y: int| 0 <= y < flock_ai.len() && flock_ai[y] == v;
                assert(flock_ai[y].pos.in_range(3_200_000_000));
            }
        }
        FrameOutput { spawned, removed, visuals, commands }
    }
}

} // verus!
