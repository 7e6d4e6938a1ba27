//! End-to-end checks of the timing engine, the tween primitive and the
//! easing curves, on concrete values.

use bytepath::components::Interpolation;
use bytepath::easings::{ease_in_out_cubic, linear, Easing};
use bytepath::environment::SLOW_DOWN_DURATION_ON_DEATH;
use bytepath::resources::{EntitySpawnTimer, Time, Timer};

#[test]
fn easing_endpoints_and_quarter() {
    assert_eq!(ease_in_out_cubic(0), 0);
    assert_eq!(ease_in_out_cubic(500_000), 500_000);
    assert_eq!(ease_in_out_cubic(1_000_000), 1_000_000);
    // 4 t^3 at t = 1/4: 4 / 64 = 1/16 of the unit scale.
    assert_eq!(ease_in_out_cubic(250_000), 62_500);
    assert_eq!(linear(123_456), 123_456);
}

#[test]
fn interpolation_finishes_on_the_crossing_step_with_end_values() {
    // Deltas summing exactly to the duration: finished exactly on the
    // last step, and the returned value is the end endpoint.
    let mut tween = Interpolation::new(vec![(8_000_000, 0)], 100_000, false);
    let (_, done) = tween.eval(30_000, Easing::Linear);
    assert!(!done);
    let (values, done) = tween.eval(30_000, Easing::Linear);
    assert!(!done);
    // At 60% of the way on the linear curve: 40% of 8 px.
    assert_eq!(values[0], 3_200_000);
    let (values, done) = tween.eval(40_000, Easing::Linear);
    assert!(done);
    assert_eq!(values[0], 0);
    // Past the end a one-shot tween keeps returning the end value.
    let (values, done) = tween.eval(10_000, Easing::Linear);
    assert!(done);
    assert_eq!(values[0], 0);
}

#[test]
fn interpolation_repeating_finishes_at_end_then_restarts() {
    let mut tween = Interpolation::new(vec![(8_000_000, 0)], 100_000, true);
    let (values, done) = tween.eval(100_000, Easing::Linear);
    assert!(done);
    // The finishing step still returns the end endpoint; only the stored
    // clock restarts, so the next call begins a fresh cycle.
    assert_eq!(values[0], 0);
    assert_eq!(tween.time, 0);
    let (values, done) = tween.eval(25_000, Easing::Linear);
    assert!(!done);
    assert_eq!(values[0], 6_000_000);
}

#[test]
fn interpolation_zero_duration_is_instantly_finished() {
    let mut tween = Interpolation::new(vec![(5_000_000, 1_000_000)], 0, false);
    let (values, done) = tween.eval(1, Easing::EaseInOutCubic);
    assert!(done);
    assert_eq!(values[0], 1_000_000);
}

#[test]
fn timer_repeating_counts_whole_periods() {
    // Steps no larger than the period, summing to 2.8 periods: exactly
    // two finishes, and the remainder is banked.
    let mut t = Timer::from_micros(1_000, true);
    t.tick(700);
    assert!(!t.finished);
    t.tick(700);
    assert!(t.finished);
    assert_eq!(t.count, 1);
    assert_eq!(t.elapsed, 400);
    t.tick(700);
    assert!(t.finished);
    assert_eq!(t.count, 2);
    assert_eq!(t.elapsed, 100);
    t.tick(700);
    assert!(!t.finished);
    assert_eq!(t.count, 2);
    assert_eq!(t.elapsed, 800);
}

#[test]
fn timer_one_shot_fires_once_and_stays_finished() {
    let mut t = Timer::from_micros(250_000, false);
    t.tick(300_000);
    assert!(t.finished);
    assert_eq!(t.count, 1);
    assert_eq!(t.elapsed, 250_000);
    t.tick(300_000);
    assert!(t.finished);
    assert_eq!(t.count, 1);
    t.reset();
    assert!(!t.finished);
    assert_eq!(t.elapsed, 0);
}

#[test]
fn time_dilation_scales_first_step_to_fifteen_percent() {
    let mut time = Time { duration: 0, slow_down_timer: None };
    // The step that carries the death: deep in the window the easing is
    // still zero, so the slow factor is exactly 15%.
    let scaled = time.advance(10_000, true);
    assert_eq!(scaled, 1_500);
    assert_eq!(time.slow_down_timer, Some(10_000));
}

#[test]
fn time_dilation_lags_then_converges_back_to_raw() {
    let mut time = Time { duration: 0, slow_down_timer: None };
    let mut raw_total: u64 = 0;
    let mut scaled_total: u64 = 0;
    let mut first = true;
    // Five equal raw steps summing exactly to the slow-down window.
    for _ in 0..5 {
        let d = SLOW_DOWN_DURATION_ON_DEATH / 5;
        let scaled = time.advance(d, first);
        first = false;
        raw_total += d;
        scaled_total += scaled;
        assert!(scaled <= d);
    }
    assert_eq!(raw_total, SLOW_DOWN_DURATION_ON_DEATH);
    assert!(scaled_total < raw_total);
    assert_eq!(time.slow_down_timer, Some(SLOW_DOWN_DURATION_ON_DEATH));
    // The window has been used up: the very next step closes it and
    // passes through unscaled.
    let scaled = time.advance(777, false);
    assert_eq!(scaled, 777);
    assert_eq!(time.slow_down_timer, None);
    let scaled = time.advance(123, false);
    assert_eq!(scaled, 123);
}

#[test]
fn spawn_timers_have_the_stock_periods() {
    let timers = EntitySpawnTimer::default();
    assert_eq!(timers.projectile.duration, 250_000);
    assert_eq!(timers.tick_effect.duration, 5_000_000);
    assert_eq!(timers.ammo_pickup.duration, 1_000_000);
    assert_eq!(timers.boost_pickup.duration, 2_000_000);
    assert!(timers.projectile.repeating);
    assert!(timers.boost_pickup.repeating);
}

#[test]
fn spawn_timers_tick_together() {
    let mut timers = EntitySpawnTimer::default();
    timers.tick_all(250_000);
    assert!(timers.projectile.finished);
    assert_eq!(timers.projectile.count, 1);
    assert!(!timers.tick_effect.finished);
    assert_eq!(timers.tick_effect.elapsed, 250_000);
}
