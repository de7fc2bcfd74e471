//! A countdown that is advanced by the time each frame took.
//!
//! All times are whole nanoseconds.
use vstd::prelude::*;

verus! {

/// What a timer does once its duration has passed.
#[derive(Clone, Copy, Debug, PartialEq, Eq, Structural)]
pub enum TimerMode {
    /// It stays finished until `reset` is called.
    Once,
    /// It starts over, keeping the time that ran past the duration.
    Repeating,
}

/// A countdown over `duration` nanoseconds.
#[derive(Clone, Copy, Debug, PartialEq, Eq, Structural)]
pub struct Timer {
    /// The length of one run.
    pub duration: u64,
    /// The time counted in the current run.
    pub elapsed: u64,
    pub mode: TimerMode,
    /// Whether the last tick found the duration reached.
    pub finished: bool,
    /// How many runs the last tick completed.
    pub times_finished_this_tick: u32,
}

/// The sum of a sequence of frame times.
pub open spec fn total_time(deltas: Seq<u64>) -> int
    decreases deltas.len(),
{
    if deltas.len() == 0 {
        0
    } else {
        total_time(deltas.drop_last()) + deltas.last()
    }
}

impl Timer {
    /// A timer that has counted nothing yet.
    pub open spec fn fresh(duration: u64, mode: TimerMode) -> Timer {
        Timer { duration, elapsed: 0, mode, finished: false, times_finished_this_tick: 0 }
    }

    /// The timer after one tick of `delta` nanoseconds.
    ///
    /// A finished one-shot timer no longer counts. Otherwise `delta` is added
    /// to the elapsed time; when that reaches the duration the timer is
    /// finished, and a one-shot timer stops at the duration while a repeating
    /// timer keeps the remainder and reports how many runs fit into the sum.
    pub open spec fn ticked(self, delta: u64) -> Timer {
        let sum = self.elapsed + delta;
        if self.mode == TimerMode::Once && self.finished {
            Timer { times_finished_this_tick: 0, ..self }
        } else if sum < self.duration {
            Timer { elapsed: sum as u64, finished: false, times_finished_this_tick: 0, ..self }
        } else if self.mode == TimerMode::Once {
            Timer { elapsed: self.duration, finished: true, times_finished_this_tick: 1, ..self }
        } else if self.duration == 0 {
            Timer { elapsed: 0, finished: true, times_finished_this_tick: u32::MAX, ..self }
        } else {
            Timer {
                elapsed: (sum % (self.duration as int)) as u64,
                finished: true,
                times_finished_this_tick: if sum / (self.duration as int) > u32::MAX {
                    u32::MAX
                } else {
                    (sum / (self.duration as int)) as u32
                },
                ..self
            }
        }
    }

    /// The timer after `reset`: nothing counted, not finished.
    pub open spec fn rewound(self) -> Timer {
        Timer { elapsed: 0, finished: false, times_finished_this_tick: 0, ..self }
    }

    /// The runs that the ticks for the entries of `deltas` report, added up.
    pub open spec fn runs_over(self, deltas: Seq<u64>) -> int
        decreases deltas.len(),
    {
        if deltas.len() == 0 {
            0
        } else {
            self.runs_over(deltas.drop_last()) + self.after_ticks(
                deltas,
            ).times_finished_this_tick
        }
    }

    /// The timer after one tick for each entry of `deltas`, in order.
    pub open spec fn after_ticks(self, deltas: Seq<u64>) -> Timer
        decreases deltas.len(),
    {
        if deltas.len() == 0 {
            self
        } else {
            self.after_ticks(deltas.drop_last()).ticked(deltas.last())
        }
    }

    /// A timer over `duration` nanoseconds that has counted nothing yet.
    pub fn new(duration: u64, mode: TimerMode) -> (timer: Timer)
        ensures
            timer == Timer::fresh(duration, mode),
    {
        Timer { duration, elapsed: 0, mode, finished: false, times_finished_this_tick: 0 }
    }

    /// Advances the timer by `delta` nanoseconds.
    pub fn tick(&mut self, delta: u64)
        ensures
            *final(self) == old(self).ticked(delta),
    {
        if self.mode == TimerMode::Once && self.finished {
            self.times_finished_this_tick = 0;
            return ;
        }
        let sum: u128 = self.elapsed as u128 + delta as u128;
        let duration: u128 = self.duration as u128;
        if sum < duration {
            self.elapsed = sum as u64;
            self.finished = false;
            self.times_finished_this_tick = 0;
        } else if self.mode == TimerMode::Once {
            self.elapsed = self.duration;
            self.finished = true;
            self.times_finished_this_tick = 1;
        } else if self.duration == 0 {
            self.elapsed = 0;
            self.finished = true;
            self.times_finished_this_tick = u32::MAX;
        } else {
            let runs: u128 = sum / duration;
            let rest: u128 = sum % duration;
            self.elapsed = rest as u64;
            self.finished = true;
            self.times_finished_this_tick = if runs > u32::MAX as u128 {
                u32::MAX
            } else {
                runs as u32
            };
        }
    }

    /// Whether the duration was reached at the last tick.
    pub fn finished(&self) -> (done: bool)
        ensures
            done == self.finished,
    {
        self.finished
    }

    /// Whether the last tick completed at least one run.
    pub fn just_finished(&self) -> (done: bool)
        ensures
            done == (self.times_finished_this_tick > 0),
    {
        self.times_finished_this_tick > 0
    }

    /// Starts the countdown over.
    pub fn reset(&mut self)
        ensures
            *final(self) == old(self).rewound(),
    {
        self.elapsed = 0;
        self.finished = false;
        self.times_finished_this_tick = 0;
    }

    /// A one-shot timer that has not finished holds the time of all its ticks,
    /// and it finishes with the first tick at which that time reaches the
    /// duration: after at least one tick it is finished exactly if the elapsed
    /// time it started with plus the ticks' total is at least the duration.
    pub proof fn lemma_once_expires_at_duration(self, deltas: Seq<u64>)
        requires
            self.mode == TimerMode::Once,
            !self.finished,
            self.elapsed <= self.duration,
            deltas.len() > 0,
        ensures
            self.after_ticks(deltas).finished == (self.elapsed + total_time(deltas)
                >= self.duration),
            !self.after_ticks(deltas).finished ==> self.after_ticks(deltas).elapsed
                == self.elapsed + total_time(deltas),
            self.after_ticks(deltas).mode == TimerMode::Once,
            self.after_ticks(deltas).duration == self.duration,
        decreases deltas.len(),
    {
        let init = deltas.drop_last();
        lemma_total_time_nonnegative(init);
        if init.len() == 0 {
            assert(self.after_ticks(init) == self);
            assert(total_time(init) == 0);
        } else {
            self.lemma_once_expires_at_duration(init);
        }
    }

    /// A repeating timer completes as many runs as fit into the time: after
    /// any ticks the runs that the ticks have reported add up to the elapsed
    /// time it started with plus the ticks' total, divided by the duration,
    /// and the remainder of that division is the elapsed time. This holds
    /// while no single tick completes more runs than the counter can hold.
    pub proof fn lemma_repeating_counts_runs(self, deltas: Seq<u64>)
        requires
            self.mode == TimerMode::Repeating,
            self.duration > 0,
            self.elapsed < self.duration,
            forall|k: int|
                0 <= k < deltas.len() ==> ((#[trigger] self.after_ticks(deltas.take(k))).elapsed
                    + deltas[k]) / (self.duration as int) <= u32::MAX,
        ensures
            self.runs_over(deltas) == (self.elapsed + total_time(deltas)) / (self.duration as int),
            self.after_ticks(deltas).elapsed == (self.elapsed + total_time(deltas)) % (
            self.duration as int),
            self.after_ticks(deltas).mode == TimerMode::Repeating,
            self.after_ticks(deltas).duration == self.duration,
        decreases deltas.len(),
    {
        let d = self.duration as int;
        if deltas.len() == 0 {
            assert(self.after_ticks(deltas) == self);
            vstd::arithmetic::div_mod::lemma_fundamental_div_mod_converse(
                self.elapsed as int,
                d,
                0,
                self.elapsed as int,
            );
        } else {
            let init = deltas.drop_last();
            let last = deltas.last() as int;
            assert(deltas.take(init.len() as int) =~= init);
            assert forall|k: int| 0 <= k < init.len() implies ((#[trigger] self.after_ticks(
                init.take(k),
            )).elapsed + init[k]) / d <= u32::MAX by {
                assert(init.take(k) =~= deltas.take(k));
                assert(init[k] == deltas[k]);
            }
            self.lemma_repeating_counts_runs(init);
            let before = self.after_ticks(init);
            let sum0 = self.elapsed + total_time(init);
            let step = before.elapsed + last;
            assert((before.elapsed + deltas[init.len() as int]) / d <= u32::MAX);
            vstd::arithmetic::div_mod::lemma_fundamental_div_mod(sum0, d);
            vstd::arithmetic::div_mod::lemma_fundamental_div_mod(step, d);
            vstd::arithmetic::div_mod::lemma_mod_bound(step, d);
            assert(sum0 + last == (sum0 / d + step / d) * d + step % d) by (nonlinear_arith)
                requires
                    sum0 == d * (sum0 / d) + sum0 % d,
                    step == d * (step / d) + step % d,
                    step == sum0 % d + last,
            ;
            vstd::arithmetic::div_mod::lemma_fundamental_div_mod_converse(
                sum0 + last,
                d,
                sum0 / d + step / d,
                step % d,
            );
            assert(step < d ==> step / d == 0 && step % d == step) by {
                if step < d {
                    vstd::arithmetic::div_mod::lemma_fundamental_div_mod_converse(step, d, 0, step);
                }
            }
            assert(before.ticked(deltas.last()).times_finished_this_tick == step / d);
            assert(before.ticked(deltas.last()).elapsed == step % d);
        }
    }

    /// Once finished, a one-shot timer stays finished whatever is ticked.
    pub proof fn lemma_once_stays_finished(self, deltas: Seq<u64>)
        requires
            self.mode == TimerMode::Once,
            self.finished,
        ensures
            self.after_ticks(deltas).finished,
            self.after_ticks(deltas).mode == TimerMode::Once,
        decreases deltas.len(),
    {
        if deltas.len() > 0 {
            self.lemma_once_stays_finished(deltas.drop_last());
        }
    }
}

/// A total of frame times is never negative.
pub proof fn lemma_total_time_nonnegative(deltas: Seq<u64>)
    ensures
        total_time(deltas) >= 0,
    decreases deltas.len(),
{
    if deltas.len() > 0 {
        lemma_total_time_nonnegative(deltas.drop_last());
    }
}

} // verus!
