use instant::Instant;
use main_game_loop::update::{UpdateGuard, UpdateLoop, UpdateRate};

#[test]
fn rate_conversion() {
    assert_eq!(UpdateRate::Interval(5).to_interval(), 5);
    assert_eq!(UpdateRate::PerSecond(60).to_interval(), 16_666_666);
    assert_eq!(UpdateRate::PerSecond(1).to_interval(), 1_000_000_000);
    assert_eq!(UpdateRate::PerMinute(120).to_interval(), 500_000_000);
    assert_eq!(UpdateRate::default().to_interval(), 16_666_666);
}

#[test]
fn sixty_per_second_catches_up_over_fifty_milliseconds() {
    // Fifty milliseconds of real time at sixty ticks per second with no
    // prior lag: exactly three whole ticks come due, two nanoseconds of lag
    // are left, and the interpolation fraction is effectively zero.
    let mut update_loop = UpdateLoop::new(UpdateRate::PerSecond(60));
    assert_eq!(update_loop.lag_ns(), 0);
    let guard = UpdateGuard::with_elapsed(&update_loop, 50_000_000, Instant::now());
    assert_eq!(guard.count(), 3);
    let mut ticks = 0u64;
    for _ in 0..guard.count() {
        ticks += 1;
    }
    assert_eq!(ticks, 3);
    let delta = guard.finish(&mut update_loop);
    assert_eq!(update_loop.lag_ns(), 2);
    assert_eq!(delta, 0);
}

#[test]
fn interpolation_fraction_stays_below_one() {
    let mut update_loop = UpdateLoop::new(UpdateRate::PerSecond(60));
    // Ten milliseconds: no tick due yet, six tenths of the interval passed.
    let guard = UpdateGuard::with_elapsed(&update_loop, 10_000_000, Instant::now());
    assert_eq!(guard.count(), 0);
    let delta = guard.finish(&mut update_loop);
    assert_eq!(update_loop.lag_ns(), 10_000_000);
    assert_eq!(delta, 600_000);
    assert!(delta < 1_000_000);
    assert_eq!(update_loop.delta(), 600_000);
}

#[test]
fn ticks_are_conserved_over_a_run() {
    // Interval of ten nanoseconds, elapsed readings 25, 7 and 38: the ticks
    // fired over the run sum to the whole ticks in the total, and the lag
    // always stays below one interval.
    let mut update_loop = UpdateLoop::new(UpdateRate::Interval(10));
    let mut total_ticks = 0u64;
    for elapsed in [25u64, 7, 38] {
        let guard = UpdateGuard::with_elapsed(&update_loop, elapsed, Instant::now());
        total_ticks += guard.count();
        guard.finish(&mut update_loop);
        assert!(update_loop.lag_ns() < update_loop.interval_ns());
    }
    assert_eq!(total_ticks, (25 + 7 + 38) / 10);
    assert_eq!(update_loop.lag_ns(), 0);
}

#[test]
fn guard_then_finish_matches_direct_accounting() {
    // The split form commits exactly what the combined accounting would:
    // count is floor((lag + elapsed) / interval), the new lag the remainder.
    let mut update_loop = UpdateLoop::new(UpdateRate::Interval(16_666_666));
    let elapsed = 100_000_000u64;
    let guard = UpdateGuard::with_elapsed(&update_loop, elapsed, Instant::now());
    let expected_count = elapsed / 16_666_666;
    let expected_lag = elapsed % 16_666_666;
    assert_eq!(guard.count(), expected_count);
    let delta = guard.finish(&mut update_loop);
    assert_eq!(update_loop.lag_ns(), expected_lag);
    assert_eq!(delta, (expected_lag as u128 * 1_000_000 / 16_666_666) as u64);
}

#[test]
fn lag_carries_between_passes() {
    let mut update_loop = UpdateLoop::new(UpdateRate::Interval(100));
    let guard = UpdateGuard::with_elapsed(&update_loop, 250, Instant::now());
    assert_eq!(guard.count(), 2);
    guard.finish(&mut update_loop);
    assert_eq!(update_loop.lag_ns(), 50);
    // The carried lag counts toward the next pass.
    let guard = UpdateGuard::with_elapsed(&update_loop, 60, Instant::now());
    assert_eq!(guard.count(), 1);
    guard.finish(&mut update_loop);
    assert_eq!(update_loop.lag_ns(), 10);
}

#[test]
fn will_update_after_threshold() {
    let update_loop = UpdateLoop::new(UpdateRate::PerSecond(60));
    assert!(!update_loop.will_update_after(16_666_665));
    assert!(update_loop.will_update_after(16_666_666));
    assert!(update_loop.will_update_after(u64::MAX));
}

#[test]
fn very_large_stall_saturates_instead_of_panicking() {
    let mut update_loop = UpdateLoop::new(UpdateRate::Interval(1_000));
    let guard = UpdateGuard::with_elapsed(&update_loop, u64::MAX, Instant::now());
    assert_eq!(guard.count(), u64::MAX / 1_000);
    guard.finish(&mut update_loop);
    assert!(update_loop.lag_ns() < 1_000);
}

#[test]
fn update_reads_the_real_clock() {
    let mut update_loop = UpdateLoop::new(UpdateRate::Interval(1));
    let t0 = Instant::now();
    while t0.elapsed().as_nanos() < 1_000_000 {}
    // With a one-nanosecond interval, real elapsed time yields ticks.
    let (count, delta) = update_loop.update();
    assert!(count > 0);
    assert_eq!(delta, 0);
    assert_eq!(update_loop.lag_ns(), 0);
}

#[test]
fn will_update_on_the_real_clock() {
    let update_loop = UpdateLoop::new(UpdateRate::Interval(1));
    let t0 = Instant::now();
    while t0.elapsed().as_nanos() < 1_000_000 {}
    assert!(update_loop.will_update());
}
