//! The player's automatic fire.
use crate::clock::Clock;
use bevy::time::TimerMode;
use vstd::prelude::*;

verus! {

/// Whether fire held for `delta_nanos` more shoots: it is held, and it was just pressed or the
/// period runs out during this time.
pub open spec fn volley_fires(a: AutoFire, delta_nanos: nat) -> bool {
    a.active_spec() && (a.just_started_spec() || a.elapsed_spec() + delta_nanos >= a.gap_spec())
}

/// Fire held down shoots at once, then once per period while it stays held.
pub struct AutoFire {
    active: bool,
    just_started: bool,
    timer: Clock,
}

impl AutoFire {
    /// Whether fire is held down.
    pub closed spec fn active_spec(&self) -> bool {
        self.active
    }

    /// Whether fire was pressed since the last shot was decided.
    pub closed spec fn just_started_spec(&self) -> bool {
        self.just_started
    }

    /// The period between two shots.
    pub closed spec fn gap_spec(&self) -> nat {
        self.timer.duration()
    }

    /// Time since fire was pressed or the period last ran out.
    pub closed spec fn elapsed_spec(&self) -> nat {
        self.timer.elapsed()
    }

    /// Whether the period ran out on the last tick.
    pub closed spec fn period_done_spec(&self) -> bool {
        self.timer.just_finished_spec()
    }

    /// The period repeats and is positive.
    pub closed spec fn wf(&self) -> bool {
        self.timer.wf() && self.timer.repeating()
    }

    /// Less time has elapsed than one period.
    pub proof fn lemma_wf(&self)
        requires
            self.wf(),
        ensures
            0 < self.gap_spec() <= u64::MAX,
            self.elapsed_spec() < self.gap_spec(),
    {
    }

    /// Automatic fire with `gap_nanos` between shots.
    pub fn new(gap_nanos: u64, active: bool) -> (r: Self)
        requires
            gap_nanos > 0,
        ensures
            r.wf(),
            r.active_spec() == active,
            r.just_started_spec(),
            r.gap_spec() == gap_nanos,
            r.elapsed_spec() == 0,
            !r.period_done_spec(),
    {
        AutoFire { active, just_started: true, timer: Clock::new(gap_nanos, TimerMode::Repeating) }
    }

    /// Whether a shot goes off now: while fire is held, right after it was pressed or when the
    /// period ran out on the last tick.
    pub fn just_triggered(&mut self) -> (r: bool)
        ensures
            r == (old(self).active_spec() && (old(self).just_started_spec()
                || old(self).period_done_spec())),
            final(self).active_spec() == old(self).active_spec(),
            !final(self).just_started_spec(),
            final(self).gap_spec() == old(self).gap_spec(),
            final(self).elapsed_spec() == old(self).elapsed_spec(),
            final(self).period_done_spec() == old(self).period_done_spec(),
            final(self).wf() == old(self).wf(),
    {
        let just_triggered = self.active && (self.just_started || self.timer.just_finished());
        self.just_started = false;
        just_triggered
    }

    /// Fire pressed: shoot on the next decision and restart the period.
    pub fn start(&mut self)
        requires
            old(self).wf(),
        ensures
            final(self).wf(),
            final(self).active_spec(),
            final(self).just_started_spec(),
            final(self).gap_spec() == old(self).gap_spec(),
            final(self).elapsed_spec() == 0,
            !final(self).period_done_spec(),
    {
        self.active = true;
        self.just_started = true;
        self.timer.reset();
    }

    /// Fire released.
    pub fn stop(&mut self)
        ensures
            !final(self).active_spec(),
            final(self).just_started_spec() == old(self).just_started_spec(),
            final(self).gap_spec() == old(self).gap_spec(),
            final(self).elapsed_spec() == old(self).elapsed_spec(),
            final(self).period_done_spec() == old(self).period_done_spec(),
            final(self).wf() == old(self).wf(),
    {
        self.active = false;
    }

    /// Lets `delta_nanos` pass. While fire is held the period runs: it is done when the
    /// elapsed time reaches the gap, and the remainder carries over. Otherwise nothing changes.
    pub fn tick(&mut self, delta_nanos: u64)
        requires
            old(self).wf(),
            delta_nanos <= (u32::MAX - 1) * old(self).gap_spec(),
        ensures
            final(self).wf(),
            final(self).active_spec() == old(self).active_spec(),
            final(self).just_started_spec() == old(self).just_started_spec(),
            final(self).gap_spec() == old(self).gap_spec(),
            old(self).active_spec() ==> {
                &&& final(self).period_done_spec() == (old(self).elapsed_spec() + delta_nanos
                    >= old(self).gap_spec())
                &&& final(self).elapsed_spec() == (old(self).elapsed_spec() + delta_nanos) % (
                old(self).gap_spec() as int)
            },
            !old(self).active_spec() ==> {
                &&& final(self).period_done_spec() == old(self).period_done_spec()
                &&& final(self).elapsed_spec() == old(self).elapsed_spec()
            },
    {
        if self.active {
            let _ = self.timer.advance(delta_nanos);
        }
    }
}

} // verus!
