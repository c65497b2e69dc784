use aviary::audio::{AudioCommand, AudioRegistry, VOCAL_VOLUME_MILLI};
use aviary::bird::{BehaviorState, Bird};
use aviary::geom::Vec3Fix;
use aviary::rng::SimRng;
use aviary::spawn::{spawn_attempt, BirdSpawnTimer};
use aviary::timer::Timer;
use aviary::world::World;

fn v(x: i64, y: i64, z: i64) -> Vec3Fix {
    Vec3Fix { x, y, z }
}

#[test]
fn test_stop_twice_has_the_effect_of_stopping_once() {
    let mut reg = AudioRegistry::new();
    let mut out = Vec::new();
    let h = reg.start(0, VOCAL_VOLUME_MILLI, v(0, 0, 0), &mut out);
    let other = reg.start(1, VOCAL_VOLUME_MILLI, v(0, 0, 0), &mut out);

    let mut out1 = Vec::new();
    reg.stop(h, &mut out1);
    let live_after_once = reg.live.clone();
    let next_after_once = reg.next_handle;
    assert_eq!(out1, vec![AudioCommand::Stop { handle: h }]);
    assert_eq!(live_after_once, vec![other]);

    // Second stop of the same handle: no observable effect at all.
    let mut out2 = Vec::new();
    reg.stop(h, &mut out2);
    assert!(out2.is_empty());
    assert_eq!(reg.live, live_after_once);
    assert_eq!(reg.next_handle, next_after_once);
}

#[test]
fn test_stop_of_unknown_handle_is_ignored() {
    let mut reg = AudioRegistry::new();
    let mut out = Vec::new();
    let h = reg.start(0, VOCAL_VOLUME_MILLI, v(0, 0, 0), &mut out);
    let mut out2 = Vec::new();
    reg.stop(h + 99, &mut out2);
    assert!(out2.is_empty());
    assert_eq!(reg.live, vec![h]);
}

#[test]
fn test_no_admission_at_population_cap() {
    // Population admission never creates an actor when the live count is at
    // the cap of five; the timer is re-armed to five to ten seconds.
    let mut st = BirdSpawnTimer { timer: Timer::from_ms(0) };
    let landmarks = vec![v(0, 0, 0)];
    let mut rng = SimRng::from_seed(1);
    let r = spawn_attempt(&mut st, 5, &landmarks, &mut rng, 16);
    assert!(r.is_none());
    assert_eq!(st.timer.elapsed_ms, 0);
    assert!(5000 <= st.timer.duration_ms && st.timer.duration_ms < 10_000);
}

#[test]
fn test_no_admission_before_timer_elapses() {
    let mut st = BirdSpawnTimer::default();
    let landmarks = vec![v(0, 0, 0)];
    let mut rng = SimRng::from_seed(1);
    let r = spawn_attempt(&mut st, 0, &landmarks, &mut rng, 16);
    assert!(r.is_none());
    assert_eq!(st.timer.elapsed_ms, 16);
    assert_eq!(st.timer.duration_ms, 3000);
}

#[test]
fn test_no_landmarks_keeps_timer_elapsed_for_retry() {
    // With no landmarks the elapsed timer is kept, so the attempt recurs
    // every frame until the scene is ready — and then succeeds.
    let mut st = BirdSpawnTimer { timer: Timer::from_ms(0) };
    let empty: Vec<Vec3Fix> = Vec::new();
    let mut rng = SimRng::from_seed(1);
    let r = spawn_attempt(&mut st, 0, &empty, &mut rng, 16);
    assert!(r.is_none());
    assert!(st.timer.elapsed_ms >= st.timer.duration_ms);
    let landmarks = vec![v(0, 0, 0)];
    let r2 = spawn_attempt(&mut st, 0, &landmarks, &mut rng, 16);
    assert!(r2.is_some());
}

#[test]
fn test_spawn_scenario_one_landmark() {
    // Spawn timer at zero, one landmark at the origin, population zero:
    // exactly one actor is created, approaching that landmark, from a point
    // at distance exactly twenty-five units in the horizontal plane.
    let mut world = World::new(16);
    world.spawn_timer = BirdSpawnTimer { timer: Timer::from_ms(0) };
    let landmarks = vec![v(0, 0, 0)];
    let mut rng = SimRng::from_seed(42);
    let spawned = world.spawn_birds(&mut rng, &landmarks, 16);
    assert!(spawned);
    assert_eq!(world.birds.len(), 1);
    let b = &world.birds[0];
    assert_eq!(b.trees_visited, 0);
    assert!(2 <= b.max_trees && b.max_trees <= 4);
    assert!(b.calls.is_empty());
    assert_eq!(b.vel, v(0, 0, 0));
    assert_eq!(b.prev_pos, b.pos);
    match b.state {
        BehaviorState::Approaching { target } => assert_eq!(target, v(0, 0, 0)),
        ref other => panic!("expected Approaching, got {:?}", other),
    }
    // Distance 25 from the origin in the horizontal plane, exactly.
    assert_eq!(
        b.pos.x as i128 * b.pos.x as i128 + b.pos.z as i128 * b.pos.z as i128,
        625_000_000_000_000
    );
    // Vertical offset: the landmark height plus a jitter in [-0.5, 1.0).
    assert!(-500_000 <= b.pos.y && b.pos.y < 1_000_000);
    // The shared timer is re-armed to eight to fifteen seconds.
    assert_eq!(world.spawn_timer.timer.elapsed_ms, 0);
    assert!(8000 <= world.spawn_timer.timer.duration_ms);
    assert!(world.spawn_timer.timer.duration_ms < 15_000);
}

#[test]
fn test_spawn_stops_at_cap_over_many_frames() {
    let mut world = World::new(16);
    let landmarks = vec![v(0, 0, 0), v(5_000_000, 0, 1_000_000)];
    let mut rng = SimRng::from_seed(9);
    for _ in 0..10 {
        world.spawn_timer = BirdSpawnTimer { timer: Timer::from_ms(0) };
        world.spawn_birds(&mut rng, &landmarks, 16);
    }
    assert_eq!(world.birds.len(), 5);
}

#[test]
fn test_draws_actually_vary() {
    // Thirty admissions draw the visit quota uniformly from two to four;
    // a generator stuck on one value could never produce two different
    // quotas.
    let landmarks = vec![v(0, 0, 0)];
    let mut rng = SimRng::from_seed(2024);
    let mut seen = [false; 5];
    for _ in 0..30 {
        let mut st = BirdSpawnTimer { timer: Timer::from_ms(0) };
        let b = spawn_attempt(&mut st, 0, &landmarks, &mut rng, 16).expect("admission succeeds");
        seen[b.max_trees as usize] = true;
    }
    assert!(seen.iter().filter(|&&s| s).count() >= 2);
    assert!(!seen[0] && !seen[1]);
}

#[test]
fn test_reaper_removes_distant_departed_bird_and_stops_audio() {
    // An actor in Departing at distance 30 (> 28) from the origin: the
    // reaper removes it on its pass and issues a stop for the lingering
    // handle.
    let mut world = World::new(16);
    let mut pre_cmds = Vec::new();
    let h = world.audio.start(0, VOCAL_VOLUME_MILLI, v(0, 0, 0), &mut pre_cmds);
    let pos = v(30_000_000, 0, 0);
    world.birds.push(Bird {
        species: aviary::species::BirdSpecies::HouseFinch,
        trees_visited: 2,
        max_trees: 2,
        state: BehaviorState::Departing { target: v(30_000_000, 5_000_000, 0) },
        pos,
        prev_pos: pos,
        vel: v(0, 0, 0),
        calls: vec![h],
    });
    let mut out = Vec::new();
    let removed = world.despawn_distant_birds(&mut out);
    assert_eq!(removed, 1);
    assert!(world.birds.is_empty());
    assert!(world.audio.live.is_empty());
    assert_eq!(out, vec![AudioCommand::Stop { handle: h }]);
}

#[test]
fn test_reaper_keeps_everyone_else() {
    let mut world = World::new(16);
    let near = v(20_000_000, 0, 0); // departing but only 20 units out
    world.birds.push(Bird {
        species: aviary::species::BirdSpecies::HouseFinch,
        trees_visited: 2,
        max_trees: 2,
        state: BehaviorState::Departing { target: v(30_000_000, 5_000_000, 0) },
        pos: near,
        prev_pos: near,
        vel: v(0, 0, 0),
        calls: Vec::new(),
    });
    let far = v(29_000_000, 0, 0); // far out but not departing
    world.birds.push(Bird {
        species: aviary::species::BirdSpecies::PineSiskin,
        trees_visited: 0,
        max_trees: 2,
        state: BehaviorState::Approaching { target: v(0, 0, 0) },
        pos: far,
        prev_pos: far,
        vel: v(0, 0, 0),
        calls: Vec::new(),
    });
    let mut out = Vec::new();
    let removed = world.despawn_distant_birds(&mut out);
    assert_eq!(removed, 0);
    assert_eq!(world.birds.len(), 2);
    assert!(out.is_empty());
}

#[test]
fn test_behavior_pass_emits_play_then_stop() {
    // Through the flock pass, not the single actor: a perch expiry emits one
    // play request at full vocalization volume and leaves one live instance;
    // the following vocal expiry emits the matching stop and leaves none.
    let mut world = World::new(16);
    let pos = v(0, 2_800_000, 0);
    world.birds.push(Bird {
        species: aviary::species::BirdSpecies::MourningDove,
        trees_visited: 0,
        max_trees: 2,
        state: BehaviorState::Perching { timer: Timer { elapsed_ms: 1000, duration_ms: 1000 } },
        pos,
        prev_pos: pos,
        vel: v(0, 0, 0),
        calls: Vec::new(),
    });
    let landmarks = vec![v(0, 2_800_000, 0)];
    let mut rng = SimRng::from_seed(77);
    let mut out = Vec::new();
    world.bird_ai(&mut rng, &landmarks, 16, 0, &mut out);
    assert_eq!(out.len(), 1);
    let h = match out[0] {
        AudioCommand::Play { handle, volume_milli, pos: p, .. } => {
            assert_eq!(volume_milli, VOCAL_VOLUME_MILLI);
            assert_eq!(p, pos);
            handle
        },
        ref other => panic!("expected a Play command, got {:?}", other),
    };
    assert_eq!(world.audio.live, vec![h]);
    assert_eq!(world.birds[0].calls, vec![h]);

    // Force the vocalization to its end and run the pass again.
    match &mut world.birds[0].state {
        BehaviorState::Vocalizing { timer } => timer.elapsed_ms = timer.duration_ms,
        ref other => panic!("expected Vocalizing, got {:?}", other),
    }
    let mut out2 = Vec::new();
    world.bird_ai(&mut rng, &landmarks, 16, 0, &mut out2);
    assert_eq!(out2, vec![AudioCommand::Stop { handle: h }]);
    assert!(world.audio.live.is_empty());
    assert!(world.birds[0].calls.is_empty());
}

#[test]
fn test_frame_runs_the_passes_in_order() {
    let mut world = World::new(16);
    world.spawn_timer = BirdSpawnTimer { timer: Timer::from_ms(0) };
    let landmarks = vec![v(0, 2_800_000, 0)];
    let mut rng = SimRng::from_seed(42);
    let r = world.frame(&mut rng, &landmarks, 16, 0);
    assert!(r.spawned);
    assert_eq!(r.removed, 0);
    assert_eq!(world.birds.len(), 1);
    // One visual position per bird.
    assert_eq!(r.visuals.len(), 1);
    // Nothing vocalizes on the first frame.
    assert!(r.commands.is_empty());
    // The next frame moves the bird toward its tree: one fixed tick of 16 ms
    // plus the leftover accumulates.
    let before = world.birds[0].pos;
    let r2 = world.frame(&mut rng, &landmarks, 16, 0);
    assert!(!r2.spawned);
    assert_ne!(world.birds[0].vel, v(0, 0, 0));
    // Physics ran at most two ticks; position may or may not have moved yet
    // depending on the accumulator, but the flock is intact.
    assert_eq!(world.birds.len(), 1);
    let _ = before;
}

#[test]
fn test_full_visit_cycle_reaches_departure() {
    // Drive a one-bird world with large frame deltas until the bird has
    // visited its whole quota and departed; every handle that was started
    // must have been stopped by then.
    let mut world = World::new(16);
    world.spawn_timer = BirdSpawnTimer { timer: Timer::from_ms(0) };
    let landmarks = vec![v(0, 2_800_000, 0)];
    let mut rng = SimRng::from_seed(1234);
    let mut departed = false;
    for _ in 0..20_000 {
        world.frame(&mut rng, &landmarks, 32, 0);
        if world.birds.iter().any(|b| matches!(b.state, BehaviorState::Departing { .. })) {
            departed = true;
        }
        if departed && world.birds.is_empty() {
            break;
        }
    }
    assert!(departed, "the bird never departed");
    // Audio instances never leak: whatever was started was stopped by the
    // time the flock is empty.
    if world.birds.is_empty() {
        assert!(world.audio.live.is_empty());
    }
}
