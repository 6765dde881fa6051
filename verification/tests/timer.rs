use snake_core::timer::{RepeatingTimer, FRUIT_INTERVAL, MOVE_INTERVAL};

fn count_firings(timer: &mut RepeatingTimer, deltas: &[u64]) -> usize {
    let mut fired = 0;
    for &delta in deltas {
        if timer.tick(delta) {
            fired += 1;
        }
    }
    fired
}

#[test]
fn intervals_are_in_nanoseconds() {
    assert_eq!(MOVE_INTERVAL, 135_000_000);
    assert_eq!(FRUIT_INTERVAL, 2_000_000_000);
}

#[test]
fn new_timer_has_nothing_on_its_count() {
    let timer = RepeatingTimer::new(10);
    assert_eq!(timer.period(), 10);
    assert_eq!(timer.elapsed(), 0);
    assert!(!timer.finished());
}

#[test]
fn timer_adds_up_until_the_period_is_reached() {
    let mut timer = RepeatingTimer::new(10);
    assert!(!timer.tick(4));
    assert_eq!(timer.elapsed(), 4);
    assert!(!timer.finished());
    assert!(!timer.tick(5));
    assert_eq!(timer.elapsed(), 9);
    assert!(timer.tick(1));
    assert_eq!(timer.elapsed(), 0);
    assert!(timer.finished());
}

#[test]
fn firing_starts_the_count_from_zero() {
    let mut timer = RepeatingTimer::new(10);
    assert!(!timer.tick(7));
    assert!(timer.tick(7));
    assert_eq!(timer.elapsed(), 0);
    assert!(!timer.tick(7));
    assert_eq!(timer.elapsed(), 7);
    assert!(!timer.finished());
    assert!(timer.tick(3));
    assert_eq!(timer.elapsed(), 0);
}

#[test]
fn one_long_tick_fires_once() {
    let mut timer = RepeatingTimer::new(10);
    assert!(timer.tick(35));
    assert_eq!(timer.elapsed(), 0);
    assert!(!timer.tick(9));
}

#[test]
fn timer_without_period_fires_on_every_tick() {
    let mut timer = RepeatingTimer::new(0);
    assert!(timer.tick(0));
    assert!(timer.tick(0));
    assert!(timer.tick(5));
    assert_eq!(timer.elapsed(), 0);
}

#[test]
fn tick_without_time_changes_nothing_but_the_flag() {
    let mut timer = RepeatingTimer::new(10);
    assert!(timer.tick(10));
    assert!(timer.finished());
    assert!(!timer.tick(0));
    assert!(!timer.finished());
    assert_eq!(timer.elapsed(), 0);
}

#[test]
fn count_that_would_overflow_fires() {
    let mut timer = RepeatingTimer::new(u64::MAX);
    assert!(!timer.tick(u64::MAX - 1));
    assert_eq!(timer.elapsed(), u64::MAX - 1);
    assert!(timer.tick(5));
    assert_eq!(timer.elapsed(), 0);
    assert!(timer.tick(u64::MAX));
}

#[test]
fn cooldown_fires_on_every_third_tick_exactly() {
    let mut timer = RepeatingTimer::new(135);
    let deltas = [45u64; 30];
    assert_eq!(count_firings(&mut timer, &deltas), 10);
    assert_eq!(timer.elapsed(), 0);
}

#[test]
fn gating_does_not_drift_when_ticks_overshoot() {
    // Three ticks of 50 pass 135 by 15; what is left over is not carried on.
    let mut timer = RepeatingTimer::new(135);
    let mut pattern = Vec::new();
    for _ in 0..300 {
        pattern.push(timer.tick(50));
    }
    for (i, fired) in pattern.iter().enumerate() {
        assert_eq!(*fired, (i + 1) % 3 == 0);
    }
    assert_eq!(pattern.iter().filter(|fired| **fired).count(), 100);
}

#[test]
fn floor_of_ticks_over_k_when_ticks_do_not_divide() {
    for k in 1..8u64 {
        for n in 0..40usize {
            let mut timer = RepeatingTimer::new(k * 10);
            let deltas = vec![10u64; n];
            assert_eq!(count_firings(&mut timer, &deltas), n / k as usize);
        }
    }
}

#[test]
fn uneven_ticks_that_reach_the_period_every_fourth_tick() {
    let mut timer = RepeatingTimer::new(100);
    let round = [0u64, 30, 69, 1];
    let mut deltas = Vec::new();
    for _ in 0..5 {
        deltas.extend_from_slice(&round);
    }
    deltas.extend_from_slice(&[0, 30, 69]);
    assert_eq!(deltas.len(), 23);
    assert_eq!(count_firings(&mut timer, &deltas), 5);
    assert_eq!(timer.elapsed(), 99);
}
