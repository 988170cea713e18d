use character2d::clock::FrameClock;

#[test]
fn new_clock_has_no_time_elapsed() {
    let clock = FrameClock::new(100);
    assert_eq!(clock.period(), 100);
    assert_eq!(clock.elapsed(), 0);
}

#[test]
fn advance_below_the_period_accumulates() {
    let mut clock = FrameClock::new(100);
    assert!(!clock.advance(30));
    assert_eq!(clock.elapsed(), 30);
    assert!(!clock.advance(69));
    assert_eq!(clock.elapsed(), 99);
}

#[test]
fn advance_to_the_period_fires_and_wraps() {
    let mut clock = FrameClock::new(100);
    assert!(!clock.advance(40));
    assert!(clock.advance(60));
    assert_eq!(clock.elapsed(), 0);
    assert!(clock.advance(130));
    assert_eq!(clock.elapsed(), 30);
}

#[test]
fn overshoot_by_many_periods_is_one_fire() {
    let mut clock = FrameClock::new(100);
    assert!(clock.advance(1_050));
    assert_eq!(clock.elapsed(), 50);
    assert!(!clock.advance(49));
    assert!(clock.advance(1));
    assert_eq!(clock.elapsed(), 0);
}

#[test]
fn reset_to_period_forces_the_next_fire() {
    let mut clock = FrameClock::new(100);
    assert!(!clock.advance(10));
    clock.reset_to_period();
    assert_eq!(clock.elapsed(), 100);
    assert!(clock.advance(0));
    assert_eq!(clock.elapsed(), 0);
    assert!(!clock.advance(0));
}

#[test]
fn reset_then_small_delta_keeps_the_remainder() {
    let mut clock = FrameClock::new(100);
    clock.reset_to_period();
    assert!(clock.advance(7));
    assert_eq!(clock.elapsed(), 7);
}

#[test]
fn clock_of_period_zero_fires_every_time() {
    let mut clock = FrameClock::new(0);
    assert!(clock.advance(0));
    assert!(clock.advance(5));
    assert_eq!(clock.elapsed(), 0);
}

#[test]
fn advance_near_the_top_of_the_range_does_not_overflow() {
    let mut clock = FrameClock::new(u64::MAX);
    assert!(!clock.advance(u64::MAX - 1));
    assert_eq!(clock.elapsed(), u64::MAX - 1);
    assert!(clock.advance(u64::MAX));
    assert_eq!(clock.elapsed(), u64::MAX - 1);
}

#[test]
fn with_elapsed_accepts_time_within_the_period() {
    let clock = FrameClock::with_elapsed(100, 100).unwrap();
    assert_eq!(clock.period(), 100);
    assert_eq!(clock.elapsed(), 100);
    let clock = FrameClock::with_elapsed(100, 25).unwrap();
    assert_eq!(clock.elapsed(), 25);
}

#[test]
fn with_elapsed_refuses_time_past_the_period() {
    assert!(FrameClock::with_elapsed(100, 101).is_none());
}

#[test]
fn cloned_clock_runs_on_its_own() {
    let mut clock = FrameClock::new(100);
    clock.advance(40);
    let mut copy = clock.clone();
    assert_eq!(copy.period(), 100);
    assert_eq!(copy.elapsed(), 40);
    copy.advance(10);
    assert_eq!(copy.elapsed(), 50);
    assert_eq!(clock.elapsed(), 40);
}
