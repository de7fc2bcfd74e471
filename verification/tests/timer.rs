use topdown_shooter::timer::{Timer, TimerMode};

#[test]
fn a_new_timer_has_counted_nothing() {
    let t = Timer::new(125, TimerMode::Once);
    assert_eq!(
        t,
        Timer {
            duration: 125,
            elapsed: 0,
            mode: TimerMode::Once,
            finished: false,
            times_finished_this_tick: 0
        }
    );
    assert!(!t.finished());
    assert!(!t.just_finished());
}

#[test]
fn a_one_shot_timer_finishes_when_the_duration_is_reached() {
    let mut t = Timer::new(100, TimerMode::Once);
    t.tick(99);
    assert!(!t.finished());
    assert_eq!(t.elapsed, 99);
    t.tick(1);
    assert!(t.finished());
    assert!(t.just_finished());
    assert_eq!(t.elapsed, 100);
    assert_eq!(t.times_finished_this_tick, 1);
}

#[test]
fn a_finished_one_shot_timer_stays_finished_and_stops_counting() {
    let mut t = Timer::new(100, TimerMode::Once);
    t.tick(250);
    assert!(t.finished());
    assert_eq!(t.elapsed, 100);
    t.tick(10);
    assert!(t.finished());
    assert!(!t.just_finished());
    assert_eq!(t.elapsed, 100);
}

#[test]
fn reset_starts_a_timer_over() {
    let mut t = Timer::new(100, TimerMode::Once);
    t.tick(100);
    t.reset();
    assert_eq!(t, Timer::new(100, TimerMode::Once));
    t.tick(60);
    assert!(!t.finished());
    t.tick(60);
    assert!(t.finished());
}

#[test]
fn a_repeating_timer_keeps_the_remainder() {
    let mut t = Timer::new(100, TimerMode::Repeating);
    t.tick(60);
    assert!(!t.just_finished());
    t.tick(60);
    assert!(t.just_finished());
    assert!(t.finished());
    assert_eq!(t.elapsed, 20);
    assert_eq!(t.times_finished_this_tick, 1);
    t.tick(10);
    assert!(!t.just_finished());
    assert!(!t.finished());
    assert_eq!(t.elapsed, 30);
}

#[test]
fn a_repeating_timer_counts_the_runs_in_a_long_tick() {
    let mut t = Timer::new(100, TimerMode::Repeating);
    t.tick(350);
    assert_eq!(t.times_finished_this_tick, 3);
    assert_eq!(t.elapsed, 50);
    let mut fast = Timer::new(1, TimerMode::Repeating);
    fast.tick(u64::MAX);
    assert_eq!(fast.times_finished_this_tick, u32::MAX);
    assert_eq!(fast.elapsed, 0);
}

#[test]
fn a_timer_of_no_duration_finishes_at_every_tick() {
    let mut once = Timer::new(0, TimerMode::Once);
    assert!(!once.finished());
    once.tick(0);
    assert!(once.finished());
    let mut again = Timer::new(0, TimerMode::Repeating);
    again.tick(5);
    assert!(again.just_finished());
    assert_eq!(again.times_finished_this_tick, u32::MAX);
    assert_eq!(again.elapsed, 0);
}

#[test]
fn a_timer_takes_the_longest_ticks() {
    let mut t = Timer::new(u64::MAX, TimerMode::Once);
    t.tick(u64::MAX - 1);
    assert!(!t.finished());
    t.tick(u64::MAX);
    assert!(t.finished());
    assert_eq!(t.elapsed, u64::MAX);
    let mut r = Timer::new(u64::MAX, TimerMode::Repeating);
    r.tick(u64::MAX - 1);
    r.tick(u64::MAX);
    assert_eq!(r.times_finished_this_tick, 1);
    assert_eq!(r.elapsed, u64::MAX - 1);
}

#[test]
fn expiry_does_not_depend_on_how_the_time_is_cut() {
    for step in [1u64, 3, 7, 50, 99, 100, 101, 1000] {
        let mut t = Timer::new(100, TimerMode::Once);
        let mut total: u64 = 0;
        while total < 300 {
            t.tick(step);
            total += step;
            assert_eq!(t.finished(), total >= 100);
        }
    }
}
