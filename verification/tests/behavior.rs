use aviary::audio::{AudioCommand, AudioRegistry, VOCAL_VOLUME_MILLI};
use aviary::bird::{BehaviorState, Bird};
use aviary::geom::Vec3Fix;
use aviary::rng::SimRng;
use aviary::species::BirdSpecies;
use aviary::timer::Timer;

fn v(x: i64, y: i64, z: i64) -> Vec3Fix {
    Vec3Fix { x, y, z }
}

fn bird_in(state: BehaviorState, pos: Vec3Fix) -> Bird {
    Bird {
        species: BirdSpecies::MourningDove,
        trees_visited: 0,
        max_trees: 3,
        state,
        pos,
        prev_pos: pos,
        vel: v(0, 0, 0),
        calls: Vec::new(),
    }
}

fn one_landmark() -> Vec<Vec3Fix> {
    vec![v(0, 2_800_000, 0)]
}

#[test]
fn test_arrival_starts_perching() {
    // Within half a unit of the target: velocity drops to zero and the bird
    // perches for one to three seconds.
    let target = v(0, 2_800_000, 0);
    let pos = v(100_000, 2_800_000, 0); // 0.1 units away
    let mut b = bird_in(BehaviorState::Approaching { target }, pos);
    let mut reg = AudioRegistry::new();
    let mut rng = SimRng::from_seed(7);
    let mut out = Vec::new();
    b.behave(&mut reg, &mut rng, &one_landmark(), 16, 0, &mut out);
    assert_eq!(b.vel, v(0, 0, 0));
    match b.state {
        BehaviorState::Perching { timer } => {
            assert_eq!(timer.elapsed_ms, 0);
            assert!(1000 <= timer.duration_ms && timer.duration_ms < 3000);
        },
        ref other => panic!("expected Perching, got {:?}", other),
    }
    assert!(out.is_empty());
    assert_eq!(b.trees_visited, 0);
}

#[test]
fn test_seek_velocity_toward_target() {
    // Ten units short of the target along x, no flutter: the velocity is the
    // full species speed along x and nothing else.
    let target = v(10_000_000, 0, 0);
    let mut b = bird_in(BehaviorState::Approaching { target }, v(0, 0, 0));
    let mut reg = AudioRegistry::new();
    let mut rng = SimRng::from_seed(7);
    let mut out = Vec::new();
    b.behave(&mut reg, &mut rng, &one_landmark(), 16, 0, &mut out);
    assert_eq!(b.vel, v(1500, 0, 0)); // mourning dove: 1.5 units/s
    match b.state {
        BehaviorState::Approaching { target: t } => assert_eq!(t, target),
        ref other => panic!("expected Approaching, got {:?}", other),
    }
}

#[test]
fn test_flutter_term_on_vertical_axis() {
    // With the sine sample at its crest the vertical velocity gains
    // 0.3 * speed: for the mourning dove 450 thousandths of a unit per second.
    let target = v(10_000_000, 0, 0);
    let mut b = bird_in(BehaviorState::Approaching { target }, v(0, 0, 0));
    let mut reg = AudioRegistry::new();
    let mut rng = SimRng::from_seed(7);
    let mut out = Vec::new();
    b.behave(&mut reg, &mut rng, &one_landmark(), 16, 1000, &mut out);
    assert_eq!(b.vel, v(1500, 450, 0));
}

#[test]
fn test_perch_expiry_starts_vocalizing() {
    // The perch timer reaches exactly its duration on this tick: the bird
    // transitions to Vocalizing, records exactly one new audio handle, and
    // the new timer runs four to twelve seconds.
    let timer = Timer { elapsed_ms: 984, duration_ms: 1000 };
    let mut b = bird_in(BehaviorState::Perching { timer }, v(0, 2_800_000, 0));
    let mut reg = AudioRegistry::new();
    let mut rng = SimRng::from_seed(11);
    let mut out = Vec::new();
    b.behave(&mut reg, &mut rng, &one_landmark(), 16, 0, &mut out);
    match b.state {
        BehaviorState::Vocalizing { timer } => {
            assert_eq!(timer.elapsed_ms, 0);
            assert!(4000 <= timer.duration_ms && timer.duration_ms < 12000);
        },
        ref other => panic!("expected Vocalizing, got {:?}", other),
    }
    assert_eq!(b.calls.len(), 1);
    let h = b.calls[0];
    assert_eq!(reg.live, vec![h]);
    assert_eq!(out.len(), 1);
    match out[0] {
        AudioCommand::Play { handle, volume_milli, pos, .. } => {
            assert_eq!(handle, h);
            assert_eq!(volume_milli, VOCAL_VOLUME_MILLI);
            assert_eq!(pos, v(0, 2_800_000, 0));
        },
        ref other => panic!("expected a Play command, got {:?}", other),
    }
    assert_eq!(b.vel, v(0, 0, 0));
    assert_eq!(b.trees_visited, 0);
}

#[test]
fn test_perch_not_expired_just_ticks() {
    let timer = Timer { elapsed_ms: 0, duration_ms: 2000 };
    let mut b = bird_in(BehaviorState::Perching { timer }, v(0, 2_800_000, 0));
    let mut reg = AudioRegistry::new();
    let mut rng = SimRng::from_seed(11);
    let mut out = Vec::new();
    b.behave(&mut reg, &mut rng, &one_landmark(), 16, 0, &mut out);
    match b.state {
        BehaviorState::Perching { timer } => {
            assert_eq!(timer.elapsed_ms, 16);
            assert_eq!(timer.duration_ms, 2000);
        },
        ref other => panic!("expected Perching, got {:?}", other),
    }
    assert!(out.is_empty());
    assert!(b.calls.is_empty());
}

#[test]
fn test_vocal_expiry_flies_to_next_tree() {
    // Visits remain: the counter increases by one and the bird heads to a
    // landmark, audio stopped and cleared.
    let mut reg = AudioRegistry::new();
    let mut pre_cmds = Vec::new();
    let h = reg.start(0, VOCAL_VOLUME_MILLI, v(0, 0, 0), &mut pre_cmds);
    let timer = Timer { elapsed_ms: 5000, duration_ms: 5000 };
    let mut b = bird_in(BehaviorState::Vocalizing { timer }, v(0, 2_800_000, 0));
    b.trees_visited = 0;
    b.max_trees = 3;
    b.calls = vec![h];
    let mut rng = SimRng::from_seed(3);
    let mut out = Vec::new();
    b.behave(&mut reg, &mut rng, &one_landmark(), 16, 0, &mut out);
    assert_eq!(b.trees_visited, 1);
    assert!(b.calls.is_empty());
    assert!(reg.live.is_empty());
    assert_eq!(out, vec![AudioCommand::Stop { handle: h }]);
    match b.state {
        BehaviorState::FlyingToNext { target } => assert_eq!(target, v(0, 2_800_000, 0)),
        ref other => panic!("expected FlyingToNext, got {:?}", other),
    }
}

#[test]
fn test_vocal_expiry_on_last_visit_departs() {
    // The counter reaches the quota with this increment: the bird departs
    // directly (never FlyingToNext), handles cleared, toward a point at
    // thirty units in the horizontal plane, three to eight units up.
    let mut reg = AudioRegistry::new();
    let mut pre_cmds = Vec::new();
    let h = reg.start(4, VOCAL_VOLUME_MILLI, v(0, 0, 0), &mut pre_cmds);
    let timer = Timer { elapsed_ms: 4000, duration_ms: 4000 };
    let mut b = bird_in(BehaviorState::Vocalizing { timer }, v(0, 2_800_000, 0));
    b.trees_visited = 2;
    b.max_trees = 3;
    b.calls = vec![h];
    let mut rng = SimRng::from_seed(5);
    let mut out = Vec::new();
    b.behave(&mut reg, &mut rng, &one_landmark(), 16, 0, &mut out);
    assert_eq!(b.trees_visited, 3);
    assert!(b.calls.is_empty());
    assert!(reg.live.is_empty());
    assert_eq!(out, vec![AudioCommand::Stop { handle: h }]);
    match b.state {
        BehaviorState::Departing { target } => {
            assert_eq!(
                target.x as i128 * target.x as i128 + target.z as i128 * target.z as i128,
                900_000_000_000_000
            );
            assert!(3_000_000 <= target.y && target.y < 8_000_000);
        },
        ref other => panic!("expected Departing, got {:?}", other),
    }
}

#[test]
fn test_vocal_not_expired_keeps_counter() {
    // The visit counter changes only on Vocalizing expiry, never elsewhere.
    let mut reg = AudioRegistry::new();
    let mut pre_cmds = Vec::new();
    let h = reg.start(0, VOCAL_VOLUME_MILLI, v(0, 0, 0), &mut pre_cmds);
    let timer = Timer { elapsed_ms: 0, duration_ms: 8000 };
    let mut b = bird_in(BehaviorState::Vocalizing { timer }, v(0, 2_800_000, 0));
    b.calls = vec![h];
    let mut rng = SimRng::from_seed(5);
    let mut out = Vec::new();
    b.behave(&mut reg, &mut rng, &one_landmark(), 16, 0, &mut out);
    assert_eq!(b.trees_visited, 0);
    assert_eq!(b.calls, vec![h]);
    assert!(out.is_empty());
    match b.state {
        BehaviorState::Vocalizing { timer } => assert_eq!(timer.elapsed_ms, 16),
        ref other => panic!("expected Vocalizing, got {:?}", other),
    }
}

#[test]
fn test_departing_near_target_waits_for_culling() {
    let target = v(30_000_000, 5_000_000, 0);
    let pos = v(29_600_000, 5_000_000, 0); // 0.4 units short
    let mut b = bird_in(BehaviorState::Departing { target }, pos);
    b.trees_visited = 3;
    let mut reg = AudioRegistry::new();
    let mut rng = SimRng::from_seed(5);
    let mut out = Vec::new();
    b.behave(&mut reg, &mut rng, &one_landmark(), 16, 0, &mut out);
    assert_eq!(b.vel, v(0, 0, 0));
    match b.state {
        BehaviorState::Departing { target: t } => assert_eq!(t, target),
        ref other => panic!("expected Departing, got {:?}", other),
    }
}

#[test]
fn test_departing_flies_at_speed_times_twelve_tenths() {
    let target = v(30_000_000, 0, 0);
    let mut b = bird_in(BehaviorState::Departing { target }, v(0, 0, 0));
    b.trees_visited = 3;
    let mut reg = AudioRegistry::new();
    let mut rng = SimRng::from_seed(5);
    let mut out = Vec::new();
    b.behave(&mut reg, &mut rng, &one_landmark(), 16, 0, &mut out);
    // 1.2 times the mourning dove's 1.5 units/s, along x only.
    assert_eq!(b.vel, v(1800, 0, 0));
}

#[test]
fn test_no_landmarks_is_a_noop() {
    let target = v(10_000_000, 0, 0);
    let mut b = bird_in(BehaviorState::Approaching { target }, v(0, 0, 0));
    let mut reg = AudioRegistry::new();
    let mut rng = SimRng::from_seed(9);
    let mut out = Vec::new();
    let empty: Vec<Vec3Fix> = Vec::new();
    b.behave(&mut reg, &mut rng, &empty, 16, 0, &mut out);
    assert_eq!(b.vel, v(0, 0, 0));
    assert_eq!(b.trees_visited, 0);
    assert!(out.is_empty());
    match b.state {
        BehaviorState::Approaching { target: t } => assert_eq!(t, target),
        ref other => panic!("expected Approaching, got {:?}", other),
    }
}

#[test]
fn test_species_table_is_complete() {
    let all = [
        BirdSpecies::MourningDove,
        BirdSpecies::DownyWoodpecker,
        BirdSpecies::NorthernFlicker,
        BirdSpecies::StellersJay,
        BirdSpecies::CaliforniaScrubJay,
        BirdSpecies::BlackCappedChickadee,
        BirdSpecies::WhiteBreastedNuthatch,
        BirdSpecies::WhiteCrownedSparrow,
        BirdSpecies::RedWingedBlackbird,
        BirdSpecies::CassinsFinch,
        BirdSpecies::HouseFinch,
        BirdSpecies::PineSiskin,
        BirdSpecies::AmericanGoldfinch,
        BirdSpecies::EveningGrosbeak,
    ];
    for s in all {
        // Every species has at least one cue, a positive speed and radius.
        assert!(!s.cues().is_empty());
        assert!(s.speed_milli() >= 800 && s.speed_milli() <= 1500);
        assert!(s.radius_milli() >= 140 && s.radius_milli() <= 250);
    }
    assert_eq!(BirdSpecies::MourningDove.speed_milli(), 1500);
    assert_eq!(BirdSpecies::WhiteBreastedNuthatch.speed_milli(), 800);
    assert_eq!(BirdSpecies::NorthernFlicker.cues(), vec![3, 4, 5]);
    assert_eq!(BirdSpecies::MourningDove.color_milli(), (600, 500, 400));
    assert_eq!(BirdSpecies::StellersJay.radius_milli(), 240);
}
