//! bevy's `Timer` with a model of its state, behind trusted items.
use bevy::time::{Timer, TimerMode};
use core::time::Duration;
use vstd::prelude::*;

verus! {

/// bevy's `bevy_time::Timer`, held opaque; `Clock` models its state.
#[verifier::external_type_specification]
#[verifier::external_body]
pub struct ExTimer(Timer);

/// bevy's `bevy_time::TimerMode`, a plain enum with the variants `Once` and `Repeating`.
#[verifier::external_type_specification]
pub struct ExTimerMode(TimerMode);

/// bevy's `Timer` with a model of its state, all times in nanoseconds: the duration, the
/// time elapsed, whether it repeats, whether it has finished, and whether the last tick
/// reached the duration. Only the items below touch the timer, and none of them pauses it.
pub struct Clock {
    timer: Timer,
    duration: Ghost<nat>,
    elapsed: Ghost<nat>,
    repeating: Ghost<bool>,
    finished: Ghost<bool>,
    just_finished: Ghost<bool>,
}

impl Clock {
    /// The timer's duration.
    pub closed spec fn duration(&self) -> nat {
        self.duration@
    }

    /// Time elapsed since the timer started or last finished a period.
    pub closed spec fn elapsed(&self) -> nat {
        self.elapsed@
    }

    /// Whether the timer starts over each time it reaches its duration.
    pub closed spec fn repeating(&self) -> bool {
        self.repeating@
    }

    /// Whether a one-shot timer has run out (for a repeating one: the last tick reached the
    /// duration).
    pub closed spec fn finished(&self) -> bool {
        self.finished@
    }

    /// Whether the last tick reached the duration.
    pub closed spec fn just_finished_spec(&self) -> bool {
        self.just_finished@
    }

    /// The model's invariant: a positive duration that fits in a `u64`; a repeating timer
    /// has less than its duration elapsed; a one-shot timer has less than its duration
    /// elapsed until it finishes, and exactly its duration after.
    pub open spec fn wf(&self) -> bool {
        &&& 0 < self.duration() <= u64::MAX
        &&& if self.repeating() {
            self.elapsed() < self.duration()
        } else if self.finished() {
            self.elapsed() == self.duration()
        } else {
            self.elapsed() < self.duration()
        }
    }

    /// Relies on `bevy_time::Timer::new`: the given duration and mode, nothing elapsed, not
    /// finished, not paused.
    #[verifier::external_body]
    pub(crate) fn new(duration_nanos: u64, mode: TimerMode) -> (r: Self)
        requires
            duration_nanos > 0,
        ensures
            r.duration() == duration_nanos,
            r.elapsed() == 0,
            r.repeating() == (mode == TimerMode::Repeating),
            !r.finished(),
            !r.just_finished_spec(),
    {
        Clock {
            timer: Timer::new(Duration::from_nanos(duration_nanos), mode),
            duration: Ghost(duration_nanos as nat),
            elapsed: Ghost(0),
            repeating: Ghost(mode == TimerMode::Repeating),
            finished: Ghost(false),
            just_finished: Ghost(false),
        }
    }

    /// Relies on `bevy_time::Timer::tick` on a timer that is never paused. A finished one-shot
    /// timer stays as it is and does not fire again. Otherwise the elapsed time grows by
    /// `delta_nanos`; when it reaches the duration the tick fires, a repeating timer keeps
    /// the remainder, and a one-shot timer stops at its duration. A repeating timer counts the
    /// periods of one tick in a `u32`, so a tick may span fewer than `u32::MAX` of them.
    #[verifier::external_body]
    pub(crate) fn tick(&mut self, delta_nanos: u64)
        requires
            old(self).wf(),
            old(self).repeating() ==> delta_nanos <= (u32::MAX - 1) * old(self).duration(),
        ensures
            final(self).duration() == old(self).duration(),
            final(self).repeating() == old(self).repeating(),
            if !old(self).repeating() && old(self).finished() {
                &&& final(self).elapsed() == old(self).elapsed()
                &&& final(self).finished()
                &&& !final(self).just_finished_spec()
            } else if old(self).elapsed() + delta_nanos >= old(self).duration() {
                &&& final(self).just_finished_spec()
                &&& final(self).finished()
                &&& final(self).elapsed() == if old(self).repeating() {
                    (old(self).elapsed() + delta_nanos) % (old(self).duration() as int)
                } else {
                    old(self).duration() as int
                }
            } else {
                &&& !final(self).just_finished_spec()
                &&& !final(self).finished()
                &&& final(self).elapsed() == old(self).elapsed() + delta_nanos
            },
    {
        self.timer.tick(Duration::from_nanos(delta_nanos));
    }

    /// Relies on `bevy_time::Timer::just_finished`: whether the last tick reached the duration.
    #[verifier::external_body]
    pub(crate) fn just_finished(&self) -> (r: bool)
        ensures
            r == self.just_finished_spec(),
    {
        self.timer.just_finished()
    }

    /// Relies on `bevy_time::Timer::reset`: nothing elapsed, not finished, and the last tick
    /// no longer counts as reaching the duration.
    #[verifier::external_body]
    pub(crate) fn reset(&mut self)
        ensures
            final(self).duration() == old(self).duration(),
            final(self).repeating() == old(self).repeating(),
            final(self).elapsed() == 0,
            !final(self).finished(),
            !final(self).just_finished_spec(),
    {
        self.timer.reset();
    }

    /// Lets `delta_nanos` pass and tells whether the timer reached its duration on this tick.
    pub fn advance(&mut self, delta_nanos: u64) -> (fired: bool)
        requires
            old(self).wf(),
            old(self).repeating() ==> delta_nanos <= (u32::MAX - 1) * old(self).duration(),
        ensures
            final(self).wf(),
            final(self).duration() == old(self).duration(),
            final(self).repeating() == old(self).repeating(),
            fired == final(self).just_finished_spec(),
            old(self).repeating() ==> {
                &&& fired == (old(self).elapsed() + delta_nanos >= old(self).duration())
                &&& final(self).elapsed() == (old(self).elapsed() + delta_nanos) % (old(
                    self,
                ).duration() as int)
            },
            !old(self).repeating() && !old(self).finished() ==> {
                &&& fired == (old(self).elapsed() + delta_nanos >= old(self).duration())
                &&& final(self).finished() == fired
                &&& !fired ==> final(self).elapsed() == old(self).elapsed() + delta_nanos
            },
    {
        self.tick(delta_nanos);
        proof {
            let e = old(self).elapsed() + delta_nanos;
            let d = old(self).duration() as int;
            if old(self).repeating() {
                vstd::arithmetic::div_mod::lemma_mod_pos_bound(e as int, d);
                if e < d {
                    vstd::arithmetic::div_mod::lemma_small_mod(e as nat, d as nat);
                }
            }
        }
        self.just_finished()
    }
}

} // verus!
