//! The orchestrator's book-keeping: which pollers still run, and when the
//! process may end.
//!
//! Policy: the failure of one poller is recorded and reported, and touches no
//! other poller. The process goes on as long as one poller runs.

use crate::poller::Termination;
use vstd::prelude::*;

verus! {

/// What the supervisor knows of one poller.
#[derive(Clone, Copy, Debug, PartialEq, Eq, Structural)]
pub enum PollerStatus {
    /// The poller has not reported its end.
    Running,
    /// The poller has ended for the given cause.
    Finished { cause: Termination },
}

/// What the orchestrator must do after a poller has ended.
#[derive(Clone, Copy, Debug, PartialEq, Eq, Structural)]
pub enum Verdict {
    /// Go on: this many pollers still run.
    Continue { running: usize },
    /// No poller runs any more: end the process.
    Exit,
}

/// The number of pollers that still run.
pub open spec fn running_count(statuses: Seq<PollerStatus>) -> nat
    decreases statuses.len(),
{
    if statuses.len() == 0 {
        0
    } else {
        running_count(statuses.drop_last()) + if statuses.last() is Running {
            1nat
        } else {
            0nat
        }
    }
}

/// The statuses after poller `index` has reported that it ended for `cause`.
/// Only the first report of a poller counts, and a report for a poller that
/// does not exist changes nothing.
pub open spec fn record_spec(statuses: Seq<PollerStatus>, index: nat, cause: Termination) -> Seq<
    PollerStatus,
> {
    if index < statuses.len() && statuses[index as int] is Running {
        statuses.update(index as int, PollerStatus::Finished { cause })
    } else {
        statuses
    }
}

/// The verdict on a set of statuses.
pub open spec fn verdict_spec(statuses: Seq<PollerStatus>) -> Verdict {
    if running_count(statuses) == 0 {
        Verdict::Exit
    } else {
        Verdict::Continue { running: running_count(statuses) as usize }
    }
}

/// The status of every poller that was launched, by pool index.
pub struct Supervisor {
    statuses: Vec<PollerStatus>,
}

impl View for Supervisor {
    type V = Seq<PollerStatus>;

    closed spec fn view(&self) -> Seq<PollerStatus> {
        self.statuses@
    }
}

impl Supervisor {
    /// A supervisor of `pollers` pollers, all of them running.
    pub fn new(pollers: usize) -> (supervisor: Supervisor)
        ensures
            supervisor@.len() == pollers,
            forall|i: int| 0 <= i < pollers ==> supervisor@[i] is Running,
    {
        let mut statuses: Vec<PollerStatus> = Vec::new();
        let mut i: usize = 0;
        while i < pollers
            invariant
                i <= pollers,
                statuses@.len() == i,
                forall|j: int| 0 <= j < i ==> statuses@[j] is Running,
            decreases pollers - i,
        {
            statuses.push(PollerStatus::Running);
            i += 1;
        }
        Supervisor { statuses }
    }

    /// The number of pollers that were launched.
    pub fn len(&self) -> (n: usize)
        ensures
            n == self@.len(),
    {
        self.statuses.len()
    }

    /// The status of poller `index`, or `None` where no such poller exists.
    pub fn status(&self, index: usize) -> (status: Option<PollerStatus>)
        ensures
            index < self@.len() ==> status == Some(self@[index as int]),
            index >= self@.len() ==> status is None,
    {
        if index < self.statuses.len() {
            Some(self.statuses[index])
        } else {
            None
        }
    }

    /// The number of pollers that still run.
    pub fn running(&self) -> (n: usize)
        ensures
            n == running_count(self@),
    {
        let mut n: usize = 0;
        let mut i: usize = 0;
        while i < self.statuses.len()
            invariant
                i <= self.statuses@.len(),
                n <= i,
                n == running_count(self.statuses@.take(i as int)),
            decreases self.statuses@.len() - i,
        {
            assert(self.statuses@.take(i + 1).drop_last() == self.statuses@.take(i as int));
            match self.statuses[i] {
                PollerStatus::Running => {
                    n += 1;
                },
                PollerStatus::Finished { .. } => {},
            }
            i += 1;
        }
        assert(self.statuses@.take(i as int) == self.statuses@);
        n
    }

    /// Records that poller `index` has ended for `cause`, and says whether
    /// the process goes on. No other poller's status changes.
    pub fn record(&mut self, index: usize, cause: Termination) -> (verdict: Verdict)
        ensures
            final(self)@ == record_spec(old(self)@, index as nat, cause),
            verdict == verdict_spec(final(self)@),
    {
        if index < self.statuses.len() {
            match self.statuses[index] {
                PollerStatus::Running => {
                    self.statuses.set(index, PollerStatus::Finished { cause });
                },
                PollerStatus::Finished { .. } => {},
            }
        }
        let running = self.running();
        if running == 0 {
            Verdict::Exit
        } else {
            Verdict::Continue { running }
        }
    }
}

/// The running pollers are never more than the pollers.
pub proof fn lemma_running_count_bound(statuses: Seq<PollerStatus>)
    ensures
        running_count(statuses) <= statuses.len(),
        running_count(statuses) == 0 <==> forall|i: int|
            0 <= i < statuses.len() ==> (#[trigger] statuses[i]) is Finished,
    decreases statuses.len(),
{
    if statuses.len() > 0 {
        let front = statuses.drop_last();
        lemma_running_count_bound(front);
        assert forall|i: int| 0 <= i < front.len() implies front[i] == statuses[i] by {}
        if running_count(statuses) == 0 {
            assert forall|i: int| 0 <= i < statuses.len() implies (
            #[trigger] statuses[i]) is Finished by {
                if i < front.len() {
                    assert(front[i] is Finished);
                }
            }
        } else if statuses.last() is Finished {
            let i = choose|i: int| 0 <= i < front.len() && !((#[trigger] front[i]) is Finished);
            assert(!(statuses[i] is Finished));
        }
    }
}

/// Failures are isolated: the end of one poller leaves the status of every
/// other poller as it was, and takes exactly that one poller out of the
/// count of those that run.
pub proof fn lemma_record_is_isolated(statuses: Seq<PollerStatus>, index: nat, cause: Termination)
    ensures
        record_spec(statuses, index, cause).len() == statuses.len(),
        forall|other: int|
            0 <= other < statuses.len() && other != index ==> #[trigger] record_spec(
                statuses,
                index,
                cause,
            )[other] == statuses[other],
        index < statuses.len() && statuses[index as int] is Running ==> running_count(
            record_spec(statuses, index, cause),
        ) + 1 == running_count(statuses),
        !(index < statuses.len() && statuses[index as int] is Running) ==> record_spec(
            statuses,
            index,
            cause,
        ) == statuses,
    decreases statuses.len(),
{
    if index < statuses.len() && statuses[index as int] is Running {
        let after = record_spec(statuses, index, cause);
        if index + 1 == statuses.len() {
            assert(after.drop_last() == statuses.drop_last());
        } else {
            lemma_record_is_isolated(statuses.drop_last(), index, cause);
            assert(after.drop_last() == record_spec(statuses.drop_last(), index, cause));
        }
    }
}

/// The process ends exactly when the last running poller has ended.
pub proof fn lemma_exit_when_none_runs(statuses: Seq<PollerStatus>)
    ensures
        verdict_spec(statuses) is Exit <==> forall|i: int|
            0 <= i < statuses.len() ==> (#[trigger] statuses[i]) is Finished,
{
    lemma_running_count_bound(statuses);
}

} // verus!
