use bevy::time::{Timer as EngineTimer, TimerMode as EngineMode};
use std::time::Duration;
use topdown_shooter::timer::{Timer, TimerMode};

/// A fixed sequence of numbers that looks irregular.
struct Sequence(u64);

impl Sequence {
    fn next(&mut self) -> u64 {
        self.0 = self.0.wrapping_mul(6364136223846793005).wrapping_add(1442695040888963407);
        self.0 >> 33
    }
}

fn assert_same(ours: &Timer, theirs: &EngineTimer) {
    assert_eq!(ours.elapsed as u128, theirs.elapsed().as_nanos());
    assert_eq!(ours.duration as u128, theirs.duration().as_nanos());
    assert_eq!(ours.finished(), theirs.finished());
    assert_eq!(ours.just_finished(), theirs.just_finished());
    assert_eq!(ours.times_finished_this_tick, theirs.times_finished_this_tick());
}

fn run_both(duration: u64, mode: TimerMode, deltas: &[u64]) {
    let engine_mode = match mode {
        TimerMode::Once => EngineMode::Once,
        TimerMode::Repeating => EngineMode::Repeating,
    };
    let mut ours = Timer::new(duration, mode);
    let mut theirs = EngineTimer::new(Duration::from_nanos(duration), engine_mode);
    assert_same(&ours, &theirs);
    for (n, delta) in deltas.iter().enumerate() {
        ours.tick(*delta);
        theirs.tick(Duration::from_nanos(*delta));
        assert_same(&ours, &theirs);
        if n % 7 == 6 {
            ours.reset();
            theirs.reset();
            assert_same(&ours, &theirs);
        }
    }
}

#[test]
fn one_shot_timers_tick_like_the_engines_timer() {
    let mut numbers = Sequence(1);
    for duration in [0u64, 1, 2, 100, 125_000_000, 5_000_000_000, u64::MAX] {
        let deltas: Vec<u64> = (0..60).map(|_| numbers.next() % (duration / 3 + 2)).collect();
        run_both(duration, TimerMode::Once, &deltas);
    }
    run_both(100, TimerMode::Once, &[99, 1, 0, 5]);
    run_both(100, TimerMode::Once, &[0, 0, 100, 100]);
    run_both(u64::MAX, TimerMode::Once, &[u64::MAX - 1, u64::MAX, 1]);
}

#[test]
fn repeating_timers_tick_like_the_engines_timer() {
    let mut numbers = Sequence(2);
    for duration in [0u64, 1, 2, 100, 125_000_000, 1_000_000_000, u64::MAX] {
        let deltas: Vec<u64> = (0..60).map(|_| numbers.next() % (duration / 3 + 2)).collect();
        run_both(duration, TimerMode::Repeating, &deltas);
    }
    run_both(100, TimerMode::Repeating, &[60, 60, 350, 0, 99, 1]);
    run_both(125_000_000, TimerMode::Repeating, &[16_666_667; 40]);
    run_both(7, TimerMode::Repeating, &[7 * (u32::MAX as u64), 3]);
    run_both(u64::MAX, TimerMode::Repeating, &[u64::MAX - 1, u64::MAX, 1]);
}

#[test]
fn more_runs_than_fit_the_counter_are_counted_as_the_most() {
    let mut ours = Timer::new(1, TimerMode::Repeating);
    ours.tick(1 << 32);
    assert!(ours.just_finished());
    assert_eq!(ours.times_finished_this_tick, u32::MAX);
    assert_eq!(ours.elapsed, 0);
    ours.tick((1 << 33) + 5);
    assert_eq!(ours.times_finished_this_tick, u32::MAX);

    // The engine's counter wraps around where this one stays at the most.
    let mut theirs = EngineTimer::new(Duration::from_nanos(1), EngineMode::Repeating);
    theirs.tick(Duration::from_nanos(1 << 32));
    assert!(theirs.finished());
    assert_eq!(theirs.times_finished_this_tick(), 0);
}
