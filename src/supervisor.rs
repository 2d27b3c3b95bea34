use vstd::prelude::*;
use crate::runner::RunOutcome;

verus! {

/// The group's shutdown decisions: how many runners are still going, whether
/// the cancellation signal is raised, and whether any runner failed.
#[derive(Debug, Clone, Copy, PartialEq, Eq)]
pub struct Supervisor {
    pub outstanding: usize,
    pub cancelled: bool,
    pub any_failed: bool,
}

/// What the supervisor waits on.
#[derive(Debug, Clone, PartialEq, Eq)]
pub enum SupervisorEvent {
    /// The operator asked the group to stop.
    Interrupt,
    /// One runner reached a terminal outcome.
    RunnerFinished(RunOutcome),
}

/// What the supervisor decides after an event.
#[derive(Debug, Clone, Copy, PartialEq, Eq)]
pub struct SupervisorDecision {
    /// Raise the cancellation signal now.
    pub raise_cancellation: bool,
    /// Every runner has finished: the run returns.
    pub all_finished: bool,
}

impl Supervisor {
    /// The state after an event and the decision it brings. The first
    /// interrupt or finished runner raises the cancellation signal.
    pub open spec fn next(self, e: SupervisorEvent) -> (Supervisor, SupervisorDecision) {
        let s = match e {
            SupervisorEvent::Interrupt => Supervisor { cancelled: true, ..self },
            SupervisorEvent::RunnerFinished(o) => if self.outstanding == 0 {
                self
            } else {
                Supervisor {
                    outstanding: (self.outstanding - 1) as usize,
                    cancelled: true,
                    any_failed: self.any_failed || o is Failed,
                }
            },
        };
        (
            s,
            SupervisorDecision {
                raise_cancellation: s.cancelled && !self.cancelled,
                all_finished: s.outstanding == 0,
            },
        )
    }

    /// The state after a sequence of events.
    pub open spec fn run(self, es: Seq<SupervisorEvent>) -> Supervisor
        decreases es.len(),
    {
        if es.len() == 0 {
            self
        } else {
            self.next(es[0]).0.run(es.skip(1))
        }
    }

    /// How many times a sequence of events raises the cancellation signal.
    pub open spec fn raises(self, es: Seq<SupervisorEvent>) -> nat
        decreases es.len(),
    {
        if es.len() == 0 {
            0
        } else {
            (if self.next(es[0]).1.raise_cancellation {
                1nat
            } else {
                0nat
            }) + self.next(es[0]).0.raises(es.skip(1))
        }
    }

    /// A supervisor of `count` runners, none finished, nothing cancelled.
    pub fn new(count: usize) -> (r: Supervisor)
        ensures
            r == (Supervisor { outstanding: count, cancelled: false, any_failed: false }),
    {
        Supervisor { outstanding: count, cancelled: false, any_failed: false }
    }

    pub fn all_finished(&self) -> (r: bool)
        ensures
            r == (self.outstanding == 0),
    {
        self.outstanding == 0
    }

    /// Takes in an event and decides what to do about it.
    pub fn step(&mut self, e: SupervisorEvent) -> (d: SupervisorDecision)
        ensures
            (*final(self), d) == old(self).next(e),
    {
        let before = *self;
        match e {
            SupervisorEvent::Interrupt => {
                self.cancelled = true;
            },
            SupervisorEvent::RunnerFinished(o) => {
                if self.outstanding > 0 {
                    self.outstanding = self.outstanding - 1;
                    self.cancelled = true;
                    self.any_failed = self.any_failed || matches!(o, RunOutcome::Failed(_));
                }
            },
        }
        SupervisorDecision {
            raise_cancellation: self.cancelled && !before.cancelled,
            all_finished: self.outstanding == 0,
        }
    }
}

/// An interrupt after an interrupt changes nothing and raises nothing.
pub proof fn lemma_interrupt_idempotent(s: Supervisor)
    ensures
        ({
            let (s1, d1) = s.next(SupervisorEvent::Interrupt);
            let (s2, d2) = s1.next(SupervisorEvent::Interrupt);
            s2 == s1 && !d2.raise_cancellation && d2.all_finished == d1.all_finished
        }),
{
}

/// Once raised, the cancellation signal stays raised.
pub proof fn lemma_cancelled_stays(s: Supervisor, es: Seq<SupervisorEvent>)
    requires
        s.cancelled,
    ensures
        s.run(es).cancelled,
    decreases es.len(),
{
    if es.len() > 0 {
        lemma_cancelled_stays(s.next(es[0]).0, es.skip(1));
    }
}

/// Whatever happens, the cancellation signal is raised at most once: exactly
/// once if it ends up raised and was not raised at the start.
pub proof fn lemma_raised_once(s: Supervisor, es: Seq<SupervisorEvent>)
    ensures
        s.raises(es) == (if !s.cancelled && s.run(es).cancelled {
            1nat
        } else {
            0nat
        }),
    decreases es.len(),
{
    if es.len() > 0 {
        let s1 = s.next(es[0]).0;
        lemma_raised_once(s1, es.skip(1));
        if s1.cancelled {
            lemma_cancelled_stays(s1, es.skip(1));
        }
    }
}

/// A runner that finishes while others are still going cancels the group,
/// raising the signal unless it already was.
pub proof fn lemma_fail_together(s: Supervisor, o: RunOutcome)
    requires
        s.outstanding > 0,
    ensures
        s.next(SupervisorEvent::RunnerFinished(o)).0.cancelled,
        s.next(SupervisorEvent::RunnerFinished(o)).1.raise_cancellation == !s.cancelled,
{
}

/// One finished event per outstanding runner brings the supervisor to the
/// end of the run, with the group cancelled if any runner was started.
pub proof fn lemma_converges(s: Supervisor, es: Seq<SupervisorEvent>)
    requires
        es.len() == s.outstanding,
        forall|i: int| 0 <= i < es.len() ==> (#[trigger] es[i]) is RunnerFinished,
    ensures
        s.run(es).outstanding == 0,
        s.outstanding > 0 ==> s.run(es).cancelled,
    decreases es.len(),
{
    if es.len() > 0 {
        let s1 = s.next(es[0]).0;
        assert forall|i: int| 0 <= i < es.skip(1).len() implies (#[trigger] es.skip(1)[i]) is RunnerFinished by {
            assert(es.skip(1)[i] == es[i + 1]);
        }
        lemma_converges(s1, es.skip(1));
        lemma_cancelled_stays(s1, es.skip(1));
    }
}

} // verus!
