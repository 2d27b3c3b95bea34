use vstd::prelude::*;

verus! {

/// How long a service may take to stop after a termination request, in
/// milliseconds, before it is killed.
pub const GRACE_PERIOD_MS: u64 = 10000;

/// The terminal result of one service's run.
#[derive(Debug, Clone, PartialEq, Eq)]
pub enum RunOutcome {
    /// The process exited, with its exit code where one is known.
    Completed(Option<i32>),
    /// The process outlived its grace period and was killed.
    Killed,
    /// The process could not be started.
    Failed(String),
}

/// Where one service's run stands.
#[derive(Debug, Clone, PartialEq, Eq)]
pub enum RunnerPhase {
    Starting,
    Running,
    /// Shutting down; the deadline is set once the termination request is delivered.
    Stopping { deadline: Option<u64> },
    Completed(Option<i32>),
    Killed,
    Failed(String),
}

/// What the runner learned from the process, the clock or the group.
#[derive(Debug, Clone, PartialEq, Eq)]
pub enum RunnerEvent {
    Spawned,
    SpawnFailed(String),
    /// The process exited, with its exit code where one is known.
    Exited(Option<i32>),
    /// Its exit status could not be observed.
    WaitFailed,
    /// The group's cancellation signal is raised.
    Cancelled,
    /// The termination request reached the process at time `now`.
    TerminateDelivered { now: u64 },
    /// The process was already gone when the termination request was sent.
    TargetGone,
    /// The clock reads `now` while the runner waits for the process to stop.
    GraceTimer { now: u64 },
}

/// What the runner asks of the world next.
#[derive(Debug, Clone, PartialEq, Eq)]
pub enum RunnerAction {
    /// Nothing changes.
    Ignore,
    /// Drain the process's output and wait for its exit or for cancellation.
    Supervise,
    /// Send the process a termination request.
    Terminate,
    /// Wait for the process to exit until the deadline.
    AwaitExit { deadline: u64 },
    /// Kill the process; the run is over.
    Kill,
    /// The run is over.
    Finish,
}

/// The deadline of a grace period that starts at `now`, saturating at the
/// clock's largest reading.
pub open spec fn grace_deadline(now: u64) -> u64 {
    if now + GRACE_PERIOD_MS <= u64::MAX {
        (now + GRACE_PERIOD_MS) as u64
    } else {
        u64::MAX
    }
}

impl RunnerPhase {
    pub open spec fn is_terminal(self) -> bool {
        self is Completed || self is Killed || self is Failed
    }

    /// The next phase and action for an event.
    pub open spec fn next(self, e: RunnerEvent) -> (RunnerPhase, RunnerAction) {
        let unchanged = (self, RunnerAction::Ignore);
        match self {
            RunnerPhase::Starting => match e {
                RunnerEvent::Spawned => (RunnerPhase::Running, RunnerAction::Supervise),
                RunnerEvent::SpawnFailed(c) => (RunnerPhase::Failed(c), RunnerAction::Finish),
                _ => unchanged,
            },
            RunnerPhase::Running => match e {
                RunnerEvent::Exited(c) => (RunnerPhase::Completed(c), RunnerAction::Finish),
                RunnerEvent::Cancelled => (
                    RunnerPhase::Stopping { deadline: None },
                    RunnerAction::Terminate,
                ),
                RunnerEvent::WaitFailed => (
                    RunnerPhase::Stopping { deadline: None },
                    RunnerAction::Terminate,
                ),
                _ => unchanged,
            },
            RunnerPhase::Stopping { deadline } => match e {
                RunnerEvent::Exited(c) => (RunnerPhase::Completed(c), RunnerAction::Finish),
                RunnerEvent::WaitFailed => (RunnerPhase::Completed(None), RunnerAction::Finish),
                RunnerEvent::TerminateDelivered { now } => match deadline {
                    None => (
                        RunnerPhase::Stopping { deadline: Some(grace_deadline(now)) },
                        RunnerAction::AwaitExit { deadline: grace_deadline(now) },
                    ),
                    Some(_) => unchanged,
                },
                RunnerEvent::TargetGone => match deadline {
                    None => (RunnerPhase::Completed(None), RunnerAction::Finish),
                    Some(_) => unchanged,
                },
                RunnerEvent::GraceTimer { now } => match deadline {
                    Some(d) => if now >= d {
                        (RunnerPhase::Killed, RunnerAction::Kill)
                    } else {
                        (self, RunnerAction::AwaitExit { deadline: d })
                    },
                    None => unchanged,
                },
                _ => unchanged,
            },
            _ => unchanged,
        }
    }

    /// The outcome of a terminal phase.
    pub open spec fn outcome_of(self) -> Option<RunOutcome> {
        match self {
            RunnerPhase::Completed(c) => Some(RunOutcome::Completed(c)),
            RunnerPhase::Killed => Some(RunOutcome::Killed),
            RunnerPhase::Failed(c) => Some(RunOutcome::Failed(c)),
            _ => None,
        }
    }

    pub fn is_finished(&self) -> (r: bool)
        ensures
            r == self.is_terminal(),
    {
        match self {
            RunnerPhase::Completed(_) | RunnerPhase::Killed | RunnerPhase::Failed(_) => true,
            _ => false,
        }
    }

    pub fn outcome(&self) -> (r: Option<RunOutcome>)
        ensures
            r == self.outcome_of(),
    {
        match self {
            RunnerPhase::Completed(c) => Some(RunOutcome::Completed(*c)),
            RunnerPhase::Killed => Some(RunOutcome::Killed),
            RunnerPhase::Failed(c) => Some(RunOutcome::Failed(c.clone())),
            _ => None,
        }
    }

    /// Decides the runner's next phase and action for an event.
    pub fn step(self, e: RunnerEvent) -> (r: (RunnerPhase, RunnerAction))
        ensures
            r == self.next(e),
    {
        match self {
            RunnerPhase::Starting => match e {
                RunnerEvent::Spawned => (RunnerPhase::Running, RunnerAction::Supervise),
                RunnerEvent::SpawnFailed(c) => (RunnerPhase::Failed(c), RunnerAction::Finish),
                _ => (self, RunnerAction::Ignore),
            },
            RunnerPhase::Running => match e {
                RunnerEvent::Exited(c) => (RunnerPhase::Completed(c), RunnerAction::Finish),
                RunnerEvent::Cancelled | RunnerEvent::WaitFailed => (
                    RunnerPhase::Stopping { deadline: None },
                    RunnerAction::Terminate,
                ),
                _ => (self, RunnerAction::Ignore),
            },
            RunnerPhase::Stopping { deadline } => match e {
                RunnerEvent::Exited(c) => (RunnerPhase::Completed(c), RunnerAction::Finish),
                RunnerEvent::WaitFailed => (RunnerPhase::Completed(None), RunnerAction::Finish),
                RunnerEvent::TerminateDelivered { now } => match deadline {
                    None => {
                        let d = now.saturating_add(GRACE_PERIOD_MS);
                        (RunnerPhase::Stopping { deadline: Some(d) }, RunnerAction::AwaitExit { deadline: d })
                    },
                    Some(_) => (self, RunnerAction::Ignore),
                },
                RunnerEvent::TargetGone => match deadline {
                    None => (RunnerPhase::Completed(None), RunnerAction::Finish),
                    Some(_) => (self, RunnerAction::Ignore),
                },
                RunnerEvent::GraceTimer { now } => match deadline {
                    Some(d) => if now >= d {
                        (RunnerPhase::Killed, RunnerAction::Kill)
                    } else {
                        (self, RunnerAction::AwaitExit { deadline: d })
                    },
                    None => (self, RunnerAction::Ignore),
                },
                _ => (self, RunnerAction::Ignore),
            },
            _ => (self, RunnerAction::Ignore),
        }
    }
}

} // verus!

verus! {

/// Cancelling a runner twice has the same effect as cancelling it once.
pub proof fn lemma_cancel_idempotent(p: RunnerPhase)
    ensures
        p.next(RunnerEvent::Cancelled).0.next(RunnerEvent::Cancelled) == (
            p.next(RunnerEvent::Cancelled).0,
            RunnerAction::Ignore,
        ),
{
}

/// A terminal phase never changes again.
pub proof fn lemma_terminal_absorbing(p: RunnerPhase, e: RunnerEvent)
    requires
        p.is_terminal(),
    ensures
        p.next(e) == (p, RunnerAction::Ignore),
{
}

/// A runner is killed only by the clock of a stopping runner whose deadline
/// has passed.
pub proof fn lemma_killed_only_after_grace(p: RunnerPhase, e: RunnerEvent)
    requires
        p.next(e).0 is Killed,
        !(p is Killed),
    ensures
        p matches RunnerPhase::Stopping { deadline: Some(d) } && e matches RunnerEvent::GraceTimer {
            now,
        } && now >= d,
{
}

/// Once a termination request is delivered at `t`, the process is killed when
/// the clock reads `t` plus the grace period or later, and not before.
pub proof fn lemma_grace_period(t: u64, now: u64)
    requires
        t + GRACE_PERIOD_MS <= u64::MAX,
    ensures
        ({
            let stopping = RunnerPhase::Stopping { deadline: None }.next(
                RunnerEvent::TerminateDelivered { now: t },
            ).0;
            (stopping.next(RunnerEvent::GraceTimer { now }).0 is Killed) <==> now >= t
                + GRACE_PERIOD_MS
        }),
{
}

/// A running service that is cancelled reaches a terminal phase: at once if
/// it is already gone, else when the grace period after delivery runs out, or
/// earlier if it exits.
pub proof fn lemma_cancelled_runner_terminates(t: u64, now: u64, code: Option<i32>)
    requires
        now >= grace_deadline(t),
    ensures
        ({
            let stopping = RunnerPhase::Running.next(RunnerEvent::Cancelled).0;
            let waiting = stopping.next(RunnerEvent::TerminateDelivered { now: t }).0;
            &&& stopping.next(RunnerEvent::TargetGone).0.is_terminal()
            &&& waiting.next(RunnerEvent::Exited(code)).0.is_terminal()
            &&& waiting.next(RunnerEvent::GraceTimer { now }).0.is_terminal()
        }),
{
}

} // verus!
