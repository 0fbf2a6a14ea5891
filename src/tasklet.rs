//! A cooperative periodic task: "N actions every T milliseconds" without a
//! blocking sleep. The hardware countdown is driven by the caller; the task
//! decides when it is ready and what to do with the countdown.

use vstd::prelude::*;

verus! {

/// What a poll of the task found.
#[derive(Debug, Clone, Copy, PartialEq, Eq, Structural)]
pub enum TaskletStep {
    /// The first poll: the task is ready and the countdown must be started.
    FirstRun,
    /// All runs are done: not ready, and the countdown is not consulted.
    Exhausted,
    /// Ask the countdown whether the interval has elapsed, then call `on_timer`.
    CheckTimer,
}

/// A periodic task; `runs` of 0 runs it without end.
#[derive(Debug)]
pub struct Tasklet {
    pub interval_us: u32,
    pub initial_runs: u16,
    pub remaining_runs: u16,
    pub is_first_poll: bool,
}

impl Tasklet {
    pub open spec fn wf(&self) -> bool {
        self.remaining_runs <= self.initial_runs
    }

    /// Whether a bounded task has used all its runs.
    pub open spec fn exhausted(&self) -> bool {
        self.initial_runs != 0 && self.remaining_runs == 0
    }

    /// A task that fires every `interval_ms` milliseconds, `runs` times.
    pub fn new(interval_ms: u32, runs: u16) -> (r: Tasklet)
        requires
            interval_ms as int * 1000 <= u32::MAX,
        ensures
            r.wf(),
            r.interval_us == interval_ms * 1000,
            r.initial_runs == runs,
            r.remaining_runs == runs,
            r.is_first_poll,
    {
        Tasklet {
            interval_us: interval_ms * 1000,
            initial_runs: runs,
            remaining_runs: runs,
            is_first_poll: true,
        }
    }

    /// Polls the task. The first poll is always ready and starts the
    /// countdown; later polls consult the countdown until the runs are used up.
    pub fn is_ready(&mut self) -> (r: TaskletStep)
        requires
            old(self).wf(),
        ensures
            final(self).wf(),
            final(self).interval_us == old(self).interval_us,
            final(self).initial_runs == old(self).initial_runs,
            !final(self).is_first_poll,
            old(self).is_first_poll ==> r == TaskletStep::FirstRun && final(self).remaining_runs == (
            if old(self).initial_runs != 0 && old(self).remaining_runs > 0 {
                old(self).remaining_runs - 1
            } else {
                old(self).remaining_runs as int
            }),
            !old(self).is_first_poll ==> final(self).remaining_runs == old(self).remaining_runs && r
                == (if old(self).exhausted() {
                TaskletStep::Exhausted
            } else {
                TaskletStep::CheckTimer
            }),
    {
        if self.is_first_poll {
            self.is_first_poll = false;
            if self.initial_runs != 0 && self.remaining_runs > 0 {
                self.remaining_runs = self.remaining_runs - 1;
            }
            return TaskletStep::FirstRun;
        }
        if self.initial_runs != 0 && self.remaining_runs == 0 {
            return TaskletStep::Exhausted;
        }
        TaskletStep::CheckTimer
    }

    /// The countdown's answer after `CheckTimer`. Returns whether the task is
    /// ready now, and whether the countdown must be cancelled because the
    /// last run was used.
    pub fn on_timer(&mut self, elapsed: bool) -> (r: (bool, bool))
        requires
            old(self).wf(),
            !old(self).is_first_poll,
            !old(self).exhausted(),
        ensures
            final(self).wf(),
            final(self).interval_us == old(self).interval_us,
            final(self).initial_runs == old(self).initial_runs,
            final(self).is_first_poll == old(self).is_first_poll,
            r.0 == elapsed,
            !elapsed ==> final(self).remaining_runs == old(self).remaining_runs && !r.1,
            elapsed && old(self).initial_runs == 0 ==> final(self).remaining_runs == old(
                self,
            ).remaining_runs && !r.1,
            elapsed && old(self).initial_runs != 0 ==> final(self).remaining_runs == old(
                self,
            ).remaining_runs - 1 && r.1 == (final(self).remaining_runs == 0),
    {
        if !elapsed {
            return (false, false);
        }
        if self.initial_runs != 0 {
            self.remaining_runs = self.remaining_runs - 1;
            return (true, self.remaining_runs == 0);
        }
        (true, false)
    }

    /// Restores every run and makes the next poll a first poll again; the
    /// caller cancels the countdown.
    pub fn reset(&mut self)
        ensures
            final(self).wf(),
            final(self).interval_us == old(self).interval_us,
            final(self).initial_runs == old(self).initial_runs,
            final(self).remaining_runs == old(self).initial_runs,
            final(self).is_first_poll,
    {
        self.remaining_runs = self.initial_runs;
        self.is_first_poll = true;
    }

    /// Whether a bounded task has used all its runs.
    pub fn is_exhausted(&self) -> (r: bool)
        ensures
            r == self.exhausted(),
    {
        self.initial_runs != 0 && self.remaining_runs == 0
    }
}

} // verus!
