use aviary::geom::{circle_dir, dist_sq_i128, isqrt, scale_coord, Vec3Fix, DIR_COUNT};
use aviary::physics::{advance_tick, interpolate, FixedClock};
use aviary::timer::Timer;

fn v(x: i64, y: i64, z: i64) -> Vec3Fix {
    Vec3Fix { x, y, z }
}

#[test]
fn test_integration_constant_velocity_is_linear() {
    // Deterministic integration: after n ticks at constant velocity v and
    // fixed step d, the position has advanced by exactly n * v * d.
    let vel = v(1000, -2000, 500);
    let mut pos = v(0, 0, 0);
    let mut prev = v(0, 0, 0);
    let d: u64 = 16;
    let n: i64 = 10;
    for _ in 0..n {
        advance_tick(&mut pos, &mut prev, &vel, d);
    }
    assert_eq!(pos, v(1000 * 16 * n, -2000 * 16 * n, 500 * 16 * n));
    // The previous position lags exactly one tick behind.
    assert_eq!(prev, v(1000 * 16 * (n - 1), -2000 * 16 * (n - 1), 500 * 16 * (n - 1)));
}

#[test]
fn test_single_tick_update_rule() {
    let vel = v(1500, 0, -300);
    let mut pos = v(7_000_000, 2_000_000, -1_000_000);
    let mut prev = v(0, 0, 0);
    advance_tick(&mut pos, &mut prev, &vel, 20);
    assert_eq!(prev, v(7_000_000, 2_000_000, -1_000_000));
    assert_eq!(pos, v(7_000_000 + 1500 * 20, 2_000_000, -1_000_000 - 300 * 20));
}

#[test]
fn test_interpolation_boundaries() {
    // alpha = 0 yields the previous position exactly; alpha = 1 (here, 1000
    // thousandths) yields the current position exactly.
    let prev = v(1_000_000, 2_000_000, 3_000_000);
    let cur = v(4_000_001, -5_000_003, 6_000_007);
    assert_eq!(interpolate(&prev, &cur, 0), prev);
    assert_eq!(interpolate(&prev, &cur, 1000), cur);
}

#[test]
fn test_interpolation_midpoint() {
    let prev = v(0, 0, -1_000_000);
    let cur = v(1_000_000, 500_000, 1_000_000);
    let mid = interpolate(&prev, &cur, 500);
    assert_eq!(mid, v(500_000, 250_000, 0));
}

#[test]
fn test_fixed_clock_accumulator() {
    let mut clock = FixedClock::new(16);
    // 40 ms of frame time: two whole ticks, 8 ms left over.
    assert_eq!(clock.advance(40), 2);
    assert_eq!(clock.acc_ms, 8);
    // Halfway into the next tick.
    assert_eq!(clock.alpha_milli(), 500);
    // 8 more ms completes one more tick exactly: leftover 0, alpha 0.
    assert_eq!(clock.advance(8), 1);
    assert_eq!(clock.acc_ms, 0);
    assert_eq!(clock.alpha_milli(), 0);
    // A frame shorter than the step releases no tick.
    assert_eq!(clock.advance(10), 0);
    assert_eq!(clock.acc_ms, 10);
}

#[test]
fn test_isqrt_exact_and_rounded() {
    assert_eq!(isqrt(0), 0);
    assert_eq!(isqrt(1), 1);
    assert_eq!(isqrt(24), 4);
    assert_eq!(isqrt(25), 5);
    assert_eq!(isqrt(26), 5);
    assert_eq!(isqrt(625_000_000_000_000), 25_000_000);
    assert_eq!(isqrt(900_000_000_000_000), 30_000_000);
}

#[test]
fn test_dist_sq_exact() {
    let a = v(3_000_000, 0, 0);
    let b = v(0, 4_000_000, 0);
    // A 3-4-5 triangle, in millionths of a unit.
    assert_eq!(dist_sq_i128(&a, &b), 25_000_000_000_000);
}

#[test]
fn test_scale_coord_truncates_toward_zero() {
    assert_eq!(scale_coord(10, 3, 4), 7); // 30 / 4 = 7.5 -> 7
    assert_eq!(scale_coord(-10, 3, 4), -7); // symmetric for negatives
    assert_eq!(scale_coord(0, 5, 9), 0);
}

#[test]
fn test_circle_directions_are_exact_unit_vectors() {
    for i in 0..DIR_COUNT {
        let (dx, dz) = circle_dir(i);
        assert_eq!(dx as i128 * dx as i128 + dz as i128 * dz as i128, 1_000_000);
    }
}

#[test]
fn test_timer_saturates_and_finishes() {
    let mut t = Timer::from_ms(100);
    assert!(!t.is_finished());
    t.tick(60);
    assert!(!t.is_finished());
    assert_eq!(t.elapsed_ms, 60);
    t.tick(60);
    assert!(t.is_finished());
    // Saturated at the duration, and it stays finished.
    assert_eq!(t.elapsed_ms, 100);
    t.tick(1000);
    assert!(t.is_finished());
    assert_eq!(t.elapsed_ms, 100);
}
