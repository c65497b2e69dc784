//! The per-actor behavior state machine.
//!
//! Each bird holds exactly one [`BehaviorState`] variant at a time.  Once per
//! render frame [`Bird::behave`] reads the authoritative physics position,
//! ticks the active timer, and walks the transition table: approach a tree,
//! perch, vocalize (recording exactly one audio handle), fly on or depart
//! once the visit quota is exhausted.  Target-bearing states derive the
//! velocity from the direction to the target; timer-bearing states pin it to
//! zero.

use vstd::prelude::*;

verus! {

use crate::audio::{stop_spec, AudioCommand, AudioRegistry, VOCAL_VOLUME_MILLI};
use crate::geom::{
    dist_sq,
    dist_sq_i128,
    int_sqrt,
    isqrt,
    lemma_component_le_sqrt,
    lemma_scale_trunc_bound,
    lemma_square_range,
    scale_coord,
    scale_trunc,
    Vec3Fix,
};
use crate::physics::{lemma_mul_bounds, FRAME_DT_LIMIT, TICK_POS_LIMIT, VEL_LIMIT};
use crate::rng::SimRng;
use crate::species::{spec_speed_milli, BirdSpecies};
use crate::timer::Timer;

/// Largest landmark coordinate the passes accept.
pub const LANDMARK_LIMIT: i64 = 1_000_000_000;

/// Largest target coordinate a well-formed bird can hold.
pub const TARGET_LIMIT: i64 = 2_000_000_000;

/// Squared arrival threshold at a tree: half a unit.
pub const ARRIVE_SQ: i128 = 250_000_000_000;

/// Squared arrival threshold at a departure point: one unit.
pub const DEPART_ARRIVE_SQ: i128 = 1_000_000_000_000;

/// How far from the origin a departure target lies, in coordinate ticks,
/// squared: thirty units.
pub const DEPART_RADIUS_SQ: i128 = 900_000_000_000_000;

/// The behavioral state of one bird; exactly one variant is active.
#[derive(Clone, Copy, PartialEq, Eq, Structural, Debug)]
pub enum BehaviorState {
    /// Flying from the spawn point toward the first tree.
    Approaching { target: Vec3Fix },
    /// Sitting on a tree, waiting to vocalize.
    Perching { timer: Timer },
    /// Singing; exactly one audio instance is outstanding.
    Vocalizing { timer: Timer },
    /// Flying toward the next tree of the itinerary.
    FlyingToNext { target: Vec3Fix },
    /// Flying out of the scene; the terminal state, left only by removal.
    Departing { target: Vec3Fix },
}

/// One simulated bird.
#[derive(Debug)]
pub struct Bird {
    pub species: BirdSpecies,
    /// Trees visited so far; increases only on `Vocalizing` timer expiry.
    pub trees_visited: u32,
    /// The visit quota, drawn at spawn time and fixed thereafter.
    pub max_trees: u32,
    pub state: BehaviorState,
    /// Authoritative physics position.
    pub pos: Vec3Fix,
    /// Physics position of the previous fixed tick, for interpolation.
    pub prev_pos: Vec3Fix,
    /// Velocity in thousandths of a unit per second.
    pub vel: Vec3Fix,
    /// Outstanding audio instance handles; non-empty only while vocalizing.
    pub calls: Vec<u64>,
}

impl Bird {
    /// The per-actor invariant: the visit counter respects the quota and
    /// reaches it exactly in `Departing`; audio handles exist only while
    /// vocalizing; timers and targets are well formed; velocity is bounded.
    pub open spec fn wf(self) -> bool {
        &&& 2 <= self.max_trees <= 4
        &&& match self.state {
            BehaviorState::Departing { .. } => self.trees_visited == self.max_trees,
            _ => self.trees_visited < self.max_trees,
        }
        &&& match self.state {
            BehaviorState::Vocalizing { .. } => self.calls@.len() == 1,
            _ => self.calls@.len() == 0,
        }
        &&& self.vel.in_range(VEL_LIMIT as int)
        &&& match self.state {
            BehaviorState::Perching { timer } => timer.wf() && 1000 <= timer.duration_ms < 3000,
            BehaviorState::Vocalizing { timer } => timer.wf() && 4000 <= timer.duration_ms
                < 12000,
            BehaviorState::Approaching { target } => target.in_range(TARGET_LIMIT as int),
            BehaviorState::FlyingToNext { target } => target.in_range(TARGET_LIMIT as int),
            BehaviorState::Departing { target } => target.in_range(TARGET_LIMIT as int),
        }
    }
}

/// Effective speed in thousandths of a unit per second: the species speed
/// times `mult_tenths` tenths.
pub open spec fn speed_eff_milli(s: BirdSpecies, mult_tenths: int) -> int {
    (spec_speed_milli(s) * mult_tenths) / 10
}

/// The cosmetic vertical flutter term: the supplied sine sample (in
/// thousandths) times three tenths of the species speed.
pub open spec fn flutter_term(sin_milli: int, speed_milli: int) -> int {
    scale_trunc(3 * sin_milli, speed_milli, 10_000)
}

/// The bird is perching and its timer runs out on this frame: the edge
/// that starts a vocalization.
pub open spec fn perch_expired(pre: Bird, dt_ms: u64) -> bool {
    pre.state matches BehaviorState::Perching { timer } && timer.spec_ticked(
        dt_ms,
    ).spec_finished()
}

/// The bird is vocalizing and its timer runs out on this frame: the edge
/// that stops the call and advances the visit counter.
pub open spec fn vocal_expired(pre: Bird, dt_ms: u64) -> bool {
    pre.state matches BehaviorState::Vocalizing { timer } && timer.spec_ticked(
        dt_ms,
    ).spec_finished()
}

/// The seek velocity: the offset to the target, scaled so its length is the
/// effective speed, plus the flutter term on the vertical axis.
pub open spec fn seeks(pre: Bird, post: Bird, target: Vec3Fix, mult_tenths: int, sin_milli: int) -> bool {
    let dist = int_sqrt(dist_sq(pre.pos, target));
    let se = speed_eff_milli(pre.species, mult_tenths);
    let fl = flutter_term(sin_milli, spec_speed_milli(pre.species) as int);
    &&& post.vel.x == scale_trunc(target.x - pre.pos.x, se, dist)
    &&& post.vel.y == scale_trunc(target.y - pre.pos.y, se, dist) + fl
    &&& post.vel.z == scale_trunc(target.z - pre.pos.z, se, dist)
}

/// Nothing about the bird changed but possibly velocity and state.
pub open spec fn core_unchanged(pre: Bird, post: Bird) -> bool {
    &&& post.species == pre.species
    &&& post.max_trees == pre.max_trees
    &&& post.pos == pre.pos
    &&& post.prev_pos == pre.prev_pos
}

/// The audio registry and the emitted commands are untouched.
pub open spec fn audio_unchanged(
    reg_pre: AudioRegistry,
    reg_post: AudioRegistry,
    cmds_pre: Seq<AudioCommand>,
    cmds_post: Seq<AudioCommand>,
) -> bool {
    &&& reg_post == reg_pre
    &&& cmds_post == cmds_pre
}

/// The transition table of the behavior pass, relating a bird before and
/// after one frame.  Every edge the pass may take is listed here; no other
/// change to the bird, the registry or the command stream is allowed.
pub open spec fn behave_spec(
    pre: Bird,
    post: Bird,
    reg_pre: AudioRegistry,
    reg_post: AudioRegistry,
    cmds_pre: Seq<AudioCommand>,
    cmds_post: Seq<AudioCommand>,
    landmarks: Seq<Vec3Fix>,
    dt_ms: u64,
    sin_milli: int,
) -> bool {
    &&& core_unchanged(pre, post)
    &&& match pre.state {
        BehaviorState::Approaching { target } | BehaviorState::FlyingToNext { target } => {
            &&& post.trees_visited == pre.trees_visited
            &&& post.calls@ == pre.calls@
            &&& audio_unchanged(reg_pre, reg_post, cmds_pre, cmds_post)
            &&& if dist_sq(pre.pos, target) < ARRIVE_SQ as int {
                &&& post.vel == Vec3Fix::spec_zero()
                &&& (post.state matches BehaviorState::Perching { timer }
                    && timer.elapsed_ms == 0 && 1000 <= timer.duration_ms < 3000)
            } else {
                &&& post.state == pre.state
                &&& seeks(pre, post, target, 10, sin_milli)
            }
        },
        BehaviorState::Perching { timer } => {
            let ticked = timer.spec_ticked(dt_ms);
            &&& post.trees_visited == pre.trees_visited
            &&& post.vel == Vec3Fix::spec_zero()
            &&& if !ticked.spec_finished() {
                &&& post.state == BehaviorState::Perching { timer: ticked }
                &&& post.calls@ == pre.calls@
                &&& audio_unchanged(reg_pre, reg_post, cmds_pre, cmds_post)
            } else {
                &&& (post.state matches BehaviorState::Vocalizing { timer: nt }
                    && nt.elapsed_ms == 0 && 4000 <= nt.duration_ms < 12000)
                &&& post.calls@ == seq![reg_pre.next_handle]
                &&& reg_post.next_handle == reg_pre.next_handle + 1
                &&& reg_post.live@ == reg_pre.live@.push(reg_pre.next_handle)
                &&& (exists|ci: int|
                    0 <= ci < crate::species::spec_cues(pre.species).len() && cmds_post
                        == cmds_pre.push(AudioCommand::Play {
                        handle: reg_pre.next_handle,
                        cue: crate::species::spec_cues(pre.species)[ci],
                        volume_milli: VOCAL_VOLUME_MILLI,
                        pos: pre.pos,
                    }))
            }
        },
        BehaviorState::Vocalizing { timer } => {
            let ticked = timer.spec_ticked(dt_ms);
            &&& post.vel == Vec3Fix::spec_zero()
            &&& if !ticked.spec_finished() {
                &&& post.trees_visited == pre.trees_visited
                &&& post.state == BehaviorState::Vocalizing { timer: ticked }
                &&& post.calls@ == pre.calls@
                &&& audio_unchanged(reg_pre, reg_post, cmds_pre, cmds_post)
            } else {
                &&& post.trees_visited == pre.trees_visited + 1
                &&& post.calls@.len() == 0
                &&& reg_post.next_handle == reg_pre.next_handle
                &&& reg_post.live@ == stop_spec(reg_pre.live@, pre.calls@[0])
                &&& if reg_pre.live@.contains(pre.calls@[0]) {
                    cmds_post == cmds_pre.push(AudioCommand::Stop { handle: pre.calls@[0] })
                } else {
                    cmds_post == cmds_pre
                }
                &&& if pre.trees_visited + 1 < pre.max_trees {
                    (post.state matches BehaviorState::FlyingToNext { target } && (exists|i: int|
                        0 <= i < landmarks.len() && target == landmarks[i]))
                } else {
                    (post.state matches BehaviorState::Departing { target }
                        && target.x * target.x + target.z * target.z == DEPART_RADIUS_SQ as int
                        && 3_000_000 <= target.y < 8_000_000)
                }
            }
        },
        BehaviorState::Departing { target } => {
            &&& post.trees_visited == pre.trees_visited
            &&& post.state == pre.state
            &&& post.calls@ == pre.calls@
            &&& audio_unchanged(reg_pre, reg_post, cmds_pre, cmds_post)
            &&& if dist_sq(pre.pos, target) < DEPART_ARRIVE_SQ as int {
                post.vel == Vec3Fix::spec_zero()
            } else {
                seeks(pre, post, target, 12, sin_milli)
            }
        },
    }
}

/// The per-actor view of the transition table: what one behavior frame may
/// do to a bird, leaving the audio bookkeeping aside.  Exactly one variant
/// is active before and after, and only the listed edges are taken; in
/// particular the visit counter increases by one exactly on `Vocalizing`
/// timer expiry and never elsewhere, and `Departing` is entered exactly
/// when the incremented counter reaches the quota.
pub open spec fn bird_edge(
    pre: Bird,
    post: Bird,
    landmarks: Seq<Vec3Fix>,
    dt_ms: u64,
    sin_milli: int,
) -> bool {
    &&& core_unchanged(pre, post)
    &&& match pre.state {
        BehaviorState::Approaching { target } | BehaviorState::FlyingToNext { target } => {
            &&& post.trees_visited == pre.trees_visited
            &&& post.calls@ == pre.calls@
            &&& if dist_sq(pre.pos, target) < ARRIVE_SQ as int {
                &&& post.vel == Vec3Fix::spec_zero()
                &&& (post.state matches BehaviorState::Perching { timer }
                    && timer.elapsed_ms == 0 && 1000 <= timer.duration_ms < 3000)
            } else {
                &&& post.state == pre.state
                &&& seeks(pre, post, target, 10, sin_milli)
            }
        },
        BehaviorState::Perching { timer } => {
            let ticked = timer.spec_ticked(dt_ms);
            &&& post.trees_visited == pre.trees_visited
            &&& post.vel == Vec3Fix::spec_zero()
            &&& if !ticked.spec_finished() {
                &&& post.state == BehaviorState::Perching { timer: ticked }
                &&& post.calls@ == pre.calls@
            } else {
                &&& (post.state matches BehaviorState::Vocalizing { timer: nt }
                    && nt.elapsed_ms == 0 && 4000 <= nt.duration_ms < 12000)
                &&& post.calls@.len() == 1
            }
        },
        BehaviorState::Vocalizing { timer } => {
            let ticked = timer.spec_ticked(dt_ms);
            &&& post.vel == Vec3Fix::spec_zero()
            &&& if !ticked.spec_finished() {
                &&& post.trees_visited == pre.trees_visited
                &&& post.state == BehaviorState::Vocalizing { timer: ticked }
                &&& post.calls@ == pre.calls@
            } else {
                &&& post.trees_visited == pre.trees_visited + 1
                &&& post.calls@.len() == 0
                &&& if pre.trees_visited + 1 < pre.max_trees {
                    (post.state matches BehaviorState::FlyingToNext { target } && (exists|
                        i: int,
                    |
                        0 <= i < landmarks.len() && target == landmarks[i]))
                } else {
                    (post.state matches BehaviorState::Departing { target }
                        && target.x * target.x + target.z * target.z == DEPART_RADIUS_SQ as int
                        && 3_000_000 <= target.y < 8_000_000)
                }
            }
        },
        BehaviorState::Departing { target } => {
            &&& post.trees_visited == pre.trees_visited
            &&& post.state == pre.state
            &&& post.calls@ == pre.calls@
            &&& if dist_sq(pre.pos, target) < DEPART_ARRIVE_SQ as int {
                post.vel == Vec3Fix::spec_zero()
            } else {
                seeks(pre, post, target, 12, sin_milli)
            }
        },
    }
}

/// The full transition relation implies its per-actor view.
pub proof fn lemma_behave_edge(
    pre: Bird,
    post: Bird,
    reg_pre: AudioRegistry,
    reg_post: AudioRegistry,
    cmds_pre: Seq<AudioCommand>,
    cmds_post: Seq<AudioCommand>,
    landmarks: Seq<Vec3Fix>,
    dt_ms: u64,
    sin_milli: int,
)
    requires
        behave_spec(
            pre,
            post,
            reg_pre,
            reg_post,
            cmds_pre,
            cmds_post,
            landmarks,
            dt_ms,
            sin_milli,
        ),
    ensures
        bird_edge(pre, post, landmarks, dt_ms, sin_milli),
{
}

/// The visit counter increases by exactly one, exactly when the
/// `Vocalizing` timer expires, and never changes on any other edge of the
/// transition table.
pub proof fn lemma_visits_change_only_on_vocal_expiry(
    pre: Bird,
    post: Bird,
    landmarks: Seq<Vec3Fix>,
    dt_ms: u64,
    sin_milli: int,
)
    requires
        bird_edge(pre, post, landmarks, dt_ms, sin_milli),
    ensures
        ({
            let expired = pre.state matches BehaviorState::Vocalizing { timer }
                && timer.spec_ticked(dt_ms).spec_finished();
            post.trees_visited == if expired {
                pre.trees_visited + 1
            } else {
                pre.trees_visited as int
            }
        }),
{
}

/// `Departing` is entered exactly when the incremented visit counter
/// reaches the quota on `Vocalizing` expiry; once entered it is never left
/// by a transition, and no other edge reaches it.
pub proof fn lemma_departing_entry(
    pre: Bird,
    post: Bird,
    landmarks: Seq<Vec3Fix>,
    dt_ms: u64,
    sin_milli: int,
)
    requires
        bird_edge(pre, post, landmarks, dt_ms, sin_milli),
    ensures
        ({
            let expired = pre.state matches BehaviorState::Vocalizing { timer }
                && timer.spec_ticked(dt_ms).spec_finished();
            (post.state matches BehaviorState::Departing { .. }) <==> ((pre.state matches
            BehaviorState::Departing { .. }) || (expired && pre.trees_visited + 1
                >= pre.max_trees))
        }),
{
}

/// No bird is ever in `Departing` with unfinished visits: well-formedness
/// pins the visit counter to the quota exactly in that state.
pub proof fn lemma_departing_means_quota_met(b: Bird)
    requires
        b.wf(),
        b.state matches BehaviorState::Departing { .. },
    ensures
        b.trees_visited == b.max_trees,
{
}

/// The velocity that carries a bird from `pos` toward `target` at the
/// species speed scaled by `mult_tenths` tenths, with the flutter term on
/// the vertical axis.
pub fn seek_velocity(
    pos: &Vec3Fix,
    target: &Vec3Fix,
    species: BirdSpecies,
    mult_tenths: u64,
    sin_milli: i64,
) -> (v: Vec3Fix)
    requires
        pos.in_range(TICK_POS_LIMIT as int),
        target.in_range(TARGET_LIMIT as int),
        dist_sq(*pos, *target) >= ARRIVE_SQ as int,
        10 <= mult_tenths <= 12,
        -1000 <= sin_milli <= 1000,
    ensures
        v.x == scale_trunc(
            target.x - pos.x,
            speed_eff_milli(species, mult_tenths as int),
            int_sqrt(dist_sq(*pos, *target)),
        ),
        v.y == scale_trunc(
            target.y - pos.y,
            speed_eff_milli(species, mult_tenths as int),
            int_sqrt(dist_sq(*pos, *target)),
        ) + flutter_term(sin_milli as int, spec_speed_milli(species) as int),
        v.z == scale_trunc(
            target.z - pos.z,
            speed_eff_milli(species, mult_tenths as int),
            int_sqrt(dist_sq(*pos, *target)),
        ),
        v.in_range(VEL_LIMIT as int),
{
    let speed: u64 = species.speed_milli();
    proof {
        lemma_mul_bounds(speed as int, mult_tenths as int, 1500, 12);
        vstd::arithmetic::div_mod::lemma_div_is_ordered(
            (speed * mult_tenths) as int,
            18000,
            10,
        );
        vstd::arithmetic::div_mod::lemma_div_pos_is_pos((speed * mult_tenths) as int, 10);
    }
    let speed_eff: u64 = speed * mult_tenths / 10;
    let d2 = dist_sq_i128(pos, target);
    let dist: u64 = isqrt(d2 as u128);
    let dx: i64 = target.x - pos.x;
    let dy: i64 = target.y - pos.y;
    let dz: i64 = target.z - pos.z;
    proof {
        let n = dist_sq(*pos, *target);
        assert(dist > 0) by {
            if dist == 0 {
                assert((dist as int + 1) * (dist as int + 1) == 1) by (nonlinear_arith)
                    requires
                        dist == 0u64,
                {
                }
                assert(false);
            }
        }
        lemma_square_range(dx as int, 5_400_000_000);
        lemma_square_range(dy as int, 5_400_000_000);
        lemma_square_range(dz as int, 5_400_000_000);
        crate::geom::lemma_square_neg(pos.x - target.x);
        crate::geom::lemma_square_neg(pos.y - target.y);
        crate::geom::lemma_square_neg(pos.z - target.z);
        lemma_component_le_sqrt(dx as int, n, dist as int);
        lemma_component_le_sqrt(dy as int, n, dist as int);
        lemma_component_le_sqrt(dz as int, n, dist as int);
        lemma_scale_trunc_bound(dx as int, speed_eff as int, dist as int);
        lemma_scale_trunc_bound(dy as int, speed_eff as int, dist as int);
        lemma_scale_trunc_bound(dz as int, speed_eff as int, dist as int);
        lemma_scale_trunc_bound(3 * sin_milli as int, speed as int, 10_000);
    }
    let flutter: i64 = scale_coord(3 * sin_milli, speed, 10_000);
    let vx: i64 = scale_coord(dx, speed_eff, dist);
    let vy: i64 = scale_coord(dy, speed_eff, dist) + flutter;
    let vz: i64 = scale_coord(dz, speed_eff, dist);
    Vec3Fix { x: vx, y: vy, z: vz }
}

impl Bird {
    /// One frame of the behavior state machine for this bird: walks the
    /// transition table, updating state, timer, velocity and audio handles.
    /// With no landmarks in sight the pass is a no-op, as the surrounding
    /// scene is not ready yet.
    pub fn behave(
        &mut self,
        registry: &mut AudioRegistry,
        rng: &mut SimRng,
        landmarks: &Vec<Vec3Fix>,
        dt_ms: u64,
        sin_milli: i64,
        out: &mut Vec<AudioCommand>,
    )
        requires
            old(self).wf(),
            old(self).pos.in_range(TICK_POS_LIMIT as int),
            old(registry).wf(),
            old(registry).next_handle < u64::MAX,
            dt_ms <= FRAME_DT_LIMIT,
            -1000 <= sin_milli <= 1000,
            forall|i: int|
                0 <= i < landmarks@.len() ==> (#[trigger] landmarks@[i]).in_range(
                    LANDMARK_LIMIT as int,
                ),
        ensures
            final(self).wf(),
            final(registry).wf(),
            final(registry).next_handle <= old(registry).next_handle + 1,
            landmarks@.len() == 0 ==> *final(self) == *old(self) && *final(registry) == *old(
                registry,
            ) && final(out)@ == old(out)@,
            landmarks@.len() > 0 ==> behave_spec(
                *old(self),
                *final(self),
                *old(registry),
                *final(registry),
                old(out)@,
                final(out)@,
                landmarks@,
                dt_ms,
                sin_milli as int,
            ),
    {
        if landmarks.len() == 0 {
            return;
        }
        let st: BehaviorState = self.state;
        match st {
            BehaviorState::Approaching { target } | BehaviorState::FlyingToNext { target } => {
                let d2 = dist_sq_i128(&self.pos, &target);
                if d2 < ARRIVE_SQ {
                    self.vel = Vec3Fix::zero();
                    let dur = rng.range_u64(1000, 3000);
                    self.state = BehaviorState::Perching { timer: Timer::from_ms(dur) };
                } else {
                    self.vel = seek_velocity(&self.pos, &target, self.species, 10, sin_milli);
                }
            },
            BehaviorState::Perching { timer } => {
                let mut t = timer;
                t.tick(dt_ms);
                self.vel = Vec3Fix::zero();
                if t.is_finished() {
                    let cues = self.species.cues();
                    let ci = rng.range_u64(0, cues.len() as u64);
                    let cue = cues[ci as usize];
                    let h = registry.start(cue, VOCAL_VOLUME_MILLI, self.pos, out);
                    self.calls.push(h);
                    proof {
                        assert(self.calls@ =~= seq![h]);
                    }
                    let dur = rng.range_u64(4000, 12000);
                    self.state = BehaviorState::Vocalizing { timer: Timer::from_ms(dur) };
                } else {
                    self.state = BehaviorState::Perching { timer: t };
                }
            },
            BehaviorState::Vocalizing { timer } => {
                let mut t = timer;
                t.tick(dt_ms);
                self.vel = Vec3Fix::zero();
                if t.is_finished() {
                    let h = self.calls[0];
                    registry.stop(h, out);
                    self.calls.clear();
                    self.trees_visited = self.trees_visited + 1;
                    if self.trees_visited < self.max_trees {
                        let ti = rng.range_u64(0, landmarks.len() as u64);
                        let next_target = landmarks[ti as usize];
                        self.state = BehaviorState::FlyingToNext { target: next_target };
                    } else {
                        let di = rng.range_u64(0, crate::geom::DIR_COUNT);
                        let (dx, dz) = crate::geom::circle_dir(di);
                        let elev = rng.range_u64(3_000_000, 8_000_000);
                        proof {
                            assert((dx as int * 30_000) * (dx as int * 30_000) + (dz as int
                                * 30_000) * (dz as int * 30_000) == 900_000_000 * (dx as int
                                * dx as int + dz as int * dz as int)) by (nonlinear_arith) {}
                        }
                        let target = Vec3Fix { x: dx * 30_000, y: elev as i64, z: dz * 30_000 };
                        self.state = BehaviorState::Departing { target };
                    }
                } else {
                    self.state = BehaviorState::Vocalizing { timer: t };
                }
            },
            BehaviorState::Departing { target } => {
                let d2 = dist_sq_i128(&self.pos, &target);
                if d2 < DEPART_ARRIVE_SQ {
                    self.vel = Vec3Fix::zero();
                } else {
                    self.vel = seek_velocity(&self.pos, &target, self.species, 12, sin_milli);
                }
            },
        }
    }
}

} // verus!
