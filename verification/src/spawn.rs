//! The population controller.
//!
//! A single shared countdown gates population inflow.  When it elapses and
//! the population is under the cap and landmarks exist, one bird is admitted:
//! species, target tree, spawn direction, vertical jitter and visit quota are
//! drawn from the injected generator, and the timer is re-armed.  At the cap
//! the timer is re-armed without admitting; with no landmarks the elapsed
//! timer is kept, so the attempt is retried every frame until the scene is
//! ready.

use vstd::prelude::*;

verus! {

use crate::bird::{BehaviorState, Bird, LANDMARK_LIMIT};
use crate::geom::{circle_dir, Vec3Fix, DIR_COUNT};
use crate::physics::FRAME_DT_LIMIT;
use crate::rng::SimRng;
use crate::species::{species_at, BirdSpecies, SPECIES_COUNT};
use crate::timer::Timer;

/// The population cap: admission never brings the live count above this.
pub const MAX_BIRDS: usize = 5;

/// Squared distance from the origin of every spawn point, in the horizontal
/// plane: twenty-five units.
pub const SPAWN_RADIUS_SQ: i128 = 625_000_000_000_000;

/// The shared countdown gating population inflow.
#[derive(Clone, Copy, PartialEq, Eq, Structural, Debug)]
pub struct BirdSpawnTimer {
    pub timer: Timer,
}

impl Default for BirdSpawnTimer {
    /// The first admission attempt comes three seconds in.
    fn default() -> (r: BirdSpawnTimer)
        ensures
            r.timer.elapsed_ms == 0,
            r.timer.duration_ms == 3000,
            r.timer.wf(),
    {
        BirdSpawnTimer { timer: Timer::from_ms(3000) }
    }
}

/// What a newly admitted bird looks like: no visits yet, a quota of two to
/// four trees, approaching a chosen landmark from a point at distance
/// exactly twenty-five units in the horizontal plane, level with the target
/// up to the vertical jitter, at rest, with no audio outstanding.
pub open spec fn fresh_spawn(b: Bird, landmarks: Seq<Vec3Fix>) -> bool {
    &&& b.wf()
    &&& b.trees_visited == 0
    &&& 2 <= b.max_trees <= 4
    &&& (exists|k: int| 0 <= k < SPECIES_COUNT && b.species == species_at(k))
    &&& (b.state matches BehaviorState::Approaching { target } && {
        &&& (exists|t: int| 0 <= t < landmarks.len() && target == landmarks[t])
        &&& b.pos.x * b.pos.x + b.pos.z * b.pos.z == SPAWN_RADIUS_SQ as int
        &&& target.y - 500_000 <= b.pos.y < target.y + 1_000_000
    })
    &&& b.prev_pos == b.pos
    &&& b.vel == Vec3Fix::spec_zero()
    &&& b.calls@.len() == 0
}

/// One admission attempt per frame.
///
/// The countdown first absorbs the frame delta.  If it has not elapsed,
/// nothing happens.  If the population is at the cap, the countdown is
/// re-armed to five to ten seconds and nothing is admitted — never a bird
/// while the live count is at the cap.  If no landmarks exist the elapsed
/// countdown is kept so the attempt recurs next frame.  Otherwise exactly
/// one fresh bird is returned and the countdown is re-armed to eight to
/// fifteen seconds.
pub fn spawn_attempt(
    st: &mut BirdSpawnTimer,
    population: usize,
    landmarks: &Vec<Vec3Fix>,
    rng: &mut SimRng,
    dt_ms: u64,
) -> (r: Option<Bird>)
    requires
        old(st).timer.wf(),
        dt_ms <= FRAME_DT_LIMIT,
        forall|i: int|
            0 <= i < landmarks@.len() ==> (#[trigger] landmarks@[i]).in_range(
                LANDMARK_LIMIT as int,
            ),
    ensures
        final(st).timer.wf(),
        population >= MAX_BIRDS ==> r is None,
        ({
            let ticked = old(st).timer.spec_ticked(dt_ms);
            if !ticked.spec_finished() {
                r is None && final(st).timer == ticked
            } else if population >= MAX_BIRDS {
                r is None && final(st).timer.elapsed_ms == 0
                    && 5000 <= final(st).timer.duration_ms < 10_000
            } else if landmarks@.len() == 0 {
                r is None && final(st).timer == ticked
            } else {
                (r matches Some(b) && fresh_spawn(b, landmarks@)) && final(st).timer.elapsed_ms
                    == 0 && 8000 <= final(st).timer.duration_ms < 15_000
            }
        }),
{
    st.timer.tick(dt_ms);
    if !st.timer.is_finished() {
        return None;
    }
    if population >= MAX_BIRDS {
        let dur = rng.range_u64(5000, 10_000);
        st.timer = Timer::from_ms(dur);
        return None;
    }
    if landmarks.len() == 0 {
        return None;
    }
    let si = rng.range_u64(0, SPECIES_COUNT);
    let species = BirdSpecies::from_index(si);
    let ti = rng.range_u64(0, landmarks.len() as u64);
    let target = landmarks[ti as usize];
    let di = rng.range_u64(0, DIR_COUNT);
    let (dx, dz) = circle_dir(di);
    let jit = rng.range_u64(0, 1_500_000);
    let y: i64 = target.y + (jit as i64) - 500_000;
    proof {
        assert((dx as int * 25_000) * (dx as int * 25_000) + (dz as int * 25_000) * (dz as int
            * 25_000) == 625_000_000 * (dx as int * dx as int + dz as int * dz as int))
            by (nonlinear_arith) {}
    }
    let pos = Vec3Fix { x: dx * 25_000, y, z: dz * 25_000 };
    let max_trees = rng.range_u64(2, 5);
    let dur = rng.range_u64(8000, 15_000);
    st.timer = Timer::from_ms(dur);
    let bird = Bird {
        species,
        trees_visited: 0,
        max_trees: max_trees as u32,
        state: BehaviorState::Approaching { target },
        pos,
        prev_pos: pos,
        vel: Vec3Fix::zero(),
        calls: Vec::new(),
    };
    proof {
        assert(exists|k: int| 0 <= k < SPECIES_COUNT && bird.species == species_at(k)) by {
            assert(bird.species == species_at(si as int));
        }
        assert(exists|t: int| 0 <= t < landmarks@.len() && target == landmarks@[t]) by {
            assert(target == landmarks@[ti as int]);
        }
    }
    Some(bird)
}

} // verus!
