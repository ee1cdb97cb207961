use vstd::prelude::*;

use crate::model::Config;

verus! {

/// Seconds to wait between two passes over the job list.
pub const PAUSE_SECONDS: u64 = 1;

/// What the driver does next.
#[derive(Clone, Copy, Debug, PartialEq, Eq, Structural)]
pub enum Step {
    /// Send the job at this position, then save its images.
    Run(usize),
    /// Wait `PAUSE_SECONDS`, then start the next pass.
    Pause,
    /// Every pass is done: end successfully.
    Stop,
    /// A job failed: end with its error.
    Abort,
}

/// The decisions of the driver: one pass over `job_count` jobs, repeated while
/// `continuous` holds, stopped by the first failure.
#[derive(Clone, Copy, Debug, PartialEq, Eq, Structural)]
pub struct RunLoop {
    pub continuous: bool,
    pub job_count: usize,
}

impl RunLoop {
    /// The step a pass starts with.
    pub open spec fn spec_first(self) -> Step {
        if self.job_count > 0 {
            Step::Run(0)
        } else if self.continuous {
            Step::Pause
        } else {
            Step::Stop
        }
    }

    /// The step after `prev`, which went through when `succeeded`.
    pub open spec fn spec_next(self, prev: Step, succeeded: bool) -> Step {
        match prev {
            Step::Run(i) => if !succeeded {
                Step::Abort
            } else if i + 1 < self.job_count {
                Step::Run((i + 1) as usize)
            } else if self.continuous {
                Step::Pause
            } else {
                Step::Stop
            },
            Step::Pause => self.spec_first(),
            Step::Stop => Step::Stop,
            Step::Abort => Step::Abort,
        }
    }

    /// The `n`-th step of a run in which every job succeeds.
    pub open spec fn step_at(self, n: nat) -> Step
        decreases n,
    {
        if n == 0 {
            self.spec_first()
        } else {
            self.spec_next(self.step_at((n - 1) as nat), true)
        }
    }

    /// A step that can come out of this loop.
    pub open spec fn valid_step(self, s: Step) -> bool {
        match s {
            Step::Run(i) => i < self.job_count,
            _ => true,
        }
    }

    /// The loop for `config`.
    pub fn new(config: &Config) -> (r: RunLoop)
        ensures
            r.continuous == config.running_state,
            r.job_count == config.data.len(),
    {
        RunLoop { continuous: config.running_state, job_count: config.data.len() }
    }

    /// The first step of the run.
    pub fn first(&self) -> (r: Step)
        ensures
            r == self.spec_first(),
            self.valid_step(r),
    {
        if self.job_count > 0 {
            Step::Run(0)
        } else if self.continuous {
            Step::Pause
        } else {
            Step::Stop
        }
    }

    /// The step after `prev`; `succeeded` tells whether its job went through.
    pub fn next(&self, prev: Step, succeeded: bool) -> (r: Step)
        requires
            self.valid_step(prev),
        ensures
            r == self.spec_next(prev, succeeded),
            self.valid_step(r),
    {
        match prev {
            Step::Run(i) => if !succeeded {
                Step::Abort
            } else if i + 1 < self.job_count {
                Step::Run(i + 1)
            } else if self.continuous {
                Step::Pause
            } else {
                Step::Stop
            },
            Step::Pause => self.first(),
            Step::Stop => Step::Stop,
            Step::Abort => Step::Abort,
        }
    }
}

/// Once the run has stopped or aborted it stays so.
pub proof fn lemma_end_is_final(l: RunLoop, s: Step, succeeded: bool)
    requires
        s == Step::Stop || s == Step::Abort,
    ensures
        l.spec_next(s, succeeded) == s,
{
}

/// A failing job aborts the run at once, whatever follows it in the list.
pub proof fn lemma_failure_aborts(l: RunLoop, i: usize)
    requires
        i < l.job_count,
    ensures
        l.spec_next(Step::Run(i), false) == Step::Abort,
{
}

/// Without the continuous flag the run is one pass: the jobs in list order, then
/// `Stop` for good, with no pause anywhere.
pub proof fn lemma_single_pass(l: RunLoop)
    requires
        !l.continuous,
    ensures
        forall|n: nat| n < l.job_count ==> #[trigger] l.step_at(n) == Step::Run(n as usize),
        forall|n: nat| n >= l.job_count ==> #[trigger] l.step_at(n) == Step::Stop,
        forall|n: nat| #[trigger] l.step_at(n) != Step::Pause,
{
    assert forall|n: nat| #[trigger]
        l.step_at(n) == (if n < l.job_count {
            Step::Run(n as usize)
        } else {
            Step::Stop
        }) by {
        lemma_single_pass_at(l, n);
    }
}

proof fn lemma_single_pass_at(l: RunLoop, n: nat)
    requires
        !l.continuous,
    ensures
        l.step_at(n) == (if n < l.job_count {
            Step::Run(n as usize)
        } else {
            Step::Stop
        }),
    decreases n,
{
    if n > 0 {
        lemma_single_pass_at(l, (n - 1) as nat);
    }
}

/// With the continuous flag a pass runs the jobs in list order and ends in a pause,
/// and the whole pass then repeats without end while every job succeeds.
pub proof fn lemma_passes_repeat(l: RunLoop)
    requires
        l.continuous,
    ensures
        forall|n: nat| n < l.job_count ==> #[trigger] l.step_at(n) == Step::Run(n as usize),
        l.step_at(l.job_count as nat) == Step::Pause,
        forall|n: nat| #[trigger] l.step_at((n + l.job_count + 1) as nat) == l.step_at(n),
{
    assert forall|n: nat| n <= l.job_count implies #[trigger] l.step_at(n) == (if n < l.job_count {
        Step::Run(n as usize)
    } else {
        Step::Pause
    }) by {
        lemma_first_pass_at(l, n);
    }
    assert forall|n: nat| #[trigger] l.step_at((n + l.job_count + 1) as nat) == l.step_at(n) by {
        lemma_periodic_at(l, n);
    }
}

proof fn lemma_first_pass_at(l: RunLoop, n: nat)
    requires
        l.continuous,
        n <= l.job_count,
    ensures
        l.step_at(n) == (if n < l.job_count {
            Step::Run(n as usize)
        } else {
            Step::Pause
        }),
    decreases n,
{
    if n > 0 {
        lemma_first_pass_at(l, (n - 1) as nat);
    }
}

proof fn lemma_periodic_at(l: RunLoop, n: nat)
    requires
        l.continuous,
    ensures
        l.step_at((n + l.job_count + 1) as nat) == l.step_at(n),
    decreases n,
{
    if n == 0 {
        lemma_first_pass_at(l, l.job_count as nat);
        assert(l.step_at((l.job_count + 1) as nat) == l.spec_next(l.step_at(l.job_count as nat), true));
    } else {
        lemma_periodic_at(l, (n - 1) as nat);
        assert(l.step_at((n + l.job_count + 1) as nat) == l.spec_next(
            l.step_at((n - 1 + l.job_count + 1) as nat),
            true,
        ));
    }
}

} // verus!
