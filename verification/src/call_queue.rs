//! The order of calls on one connection.
//!
//! Pools that share a connection take turns: one call is in progress at a
//! time, and the calls that wait are served in the order in which they were
//! requested. The host asks for a turn before it starts a call and gives the
//! turn back when the call has ended.

use std::collections::VecDeque;
use vstd::prelude::*;

verus! {

/// The answer to a request for a turn.
#[derive(Clone, Copy, Debug, PartialEq, Eq, Structural)]
pub enum Grant {
    /// The connection is free: start the call now.
    Proceed,
    /// Another call is in progress: wait to be named by [`CallQueue::complete`].
    Wait,
}

/// The queue after `pool` has asked for a turn: it stands behind everyone
/// who asked before.
pub open spec fn request_spec(queue: Seq<usize>, pool: usize) -> Seq<usize> {
    queue.push(pool)
}

/// The queue after `pool` has reported the end of its call. Only the pool
/// whose call is in progress can end it; any other report changes nothing.
pub open spec fn complete_spec(queue: Seq<usize>, pool: usize) -> Seq<usize> {
    if queue.len() > 0 && queue[0] == pool {
        queue.drop_first()
    } else {
        queue
    }
}

/// The pool whose call is in progress, if there is one: the first of the
/// queue.
pub open spec fn in_progress_spec(queue: Seq<usize>) -> Option<usize> {
    if queue.len() > 0 {
        Some(queue[0])
    } else {
        None
    }
}

/// The queue after the first `served` calls have each been started and
/// ended in turn.
pub open spec fn after_serving(queue: Seq<usize>, served: nat) -> Seq<usize>
    decreases served,
{
    if served == 0 || queue.len() == 0 {
        queue
    } else {
        after_serving(complete_spec(queue, queue[0]), (served - 1) as nat)
    }
}

/// The pools that have asked for a turn on one connection and have not yet
/// given it back, in the order in which they asked. The first of them holds
/// the connection.
pub struct CallQueue {
    callers: VecDeque<usize>,
}

impl View for CallQueue {
    type V = Seq<usize>;

    closed spec fn view(&self) -> Seq<usize> {
        self.callers@
    }
}

impl CallQueue {
    /// The queue of a connection that nobody uses.
    pub fn new() -> (queue: CallQueue)
        ensures
            queue@ == Seq::<usize>::empty(),
    {
        CallQueue { callers: VecDeque::new() }
    }

    /// The pool whose call is in progress.
    pub fn in_progress(&self) -> (pool: Option<usize>)
        ensures
            pool == in_progress_spec(self@),
    {
        if self.callers.len() > 0 {
            Some(self.callers[0])
        } else {
            None
        }
    }

    /// The number of pools that wait for their turn.
    pub fn waiting(&self) -> (n: usize)
        ensures
            self@.len() == 0 ==> n == 0,
            self@.len() > 0 ==> n == self@.len() - 1,
    {
        let n = self.callers.len();
        if n == 0 {
            0
        } else {
            n - 1
        }
    }

    /// Asks for a turn for `pool`. The pool may start its call at once
    /// exactly when no other call is in progress.
    pub fn request(&mut self, pool: usize) -> (grant: Grant)
        ensures
            final(self)@ == request_spec(old(self)@, pool),
            grant is Proceed <==> old(self)@.len() == 0,
    {
        let free = self.callers.len() == 0;
        self.callers.push_back(pool);
        if free {
            Grant::Proceed
        } else {
            Grant::Wait
        }
    }

    /// Gives back the turn of `pool` when its call has ended, and names the
    /// pool that may start its call now. A report from a pool that does not
    /// hold the connection is ignored.
    pub fn complete(&mut self, pool: usize) -> (next: Option<usize>)
        ensures
            final(self)@ == complete_spec(old(self)@, pool),
            in_progress_spec(old(self)@) == Some(pool) ==> next == in_progress_spec(final(self)@),
            in_progress_spec(old(self)@) != Some(pool) ==> next is None,
    {
        if self.callers.len() > 0 && self.callers[0] == pool {
            let _ = self.callers.pop_front();
            assert(self.callers@ == old(self).callers@.drop_first());
            if self.callers.len() > 0 {
                Some(self.callers[0])
            } else {
                None
            }
        } else {
            None
        }
    }
}

/// Calls are served in the order in which they were requested: once the
/// first `served` calls have ended, the call in progress is the one that
/// was requested next, and the calls behind it wait in their order.
pub proof fn lemma_served_in_request_order(queue: Seq<usize>, served: nat)
    requires
        served <= queue.len(),
    ensures
        after_serving(queue, served) == queue.skip(served as int),
        served < queue.len() ==> in_progress_spec(after_serving(queue, served)) == Some(
            queue[served as int],
        ),
    decreases served,
{
    if served == 0 || queue.len() == 0 {
        assert(queue.skip(0) == queue);
    } else {
        let rest = complete_spec(queue, queue[0]);
        assert(rest == queue.drop_first());
        lemma_served_in_request_order(rest, (served - 1) as nat);
        assert(rest.skip(served - 1) == queue.skip(served as int));
    }
}

/// A later request never overtakes an earlier one: whenever it arrives, it
/// is served after every call that was requested before it.
pub proof fn lemma_request_keeps_order(queue: Seq<usize>, served: nat, pool: usize)
    requires
        served <= queue.len(),
    ensures
        after_serving(request_spec(queue, pool), served) == request_spec(
            after_serving(queue, served),
            pool,
        ),
        after_serving(request_spec(queue, pool), queue.len()) == seq![pool],
{
    lemma_served_in_request_order(queue, served);
    lemma_served_in_request_order(request_spec(queue, pool), served);
    lemma_served_in_request_order(request_spec(queue, pool), queue.len());
    assert(queue.push(pool).skip(served as int) == queue.skip(served as int).push(pool));
    assert(queue.push(pool).skip(queue.len() as int) == seq![pool]);
}

/// One call at a time, and none is disturbed: the report of a pool that
/// does not hold the connection leaves the call in progress and the whole
/// queue as they were.
pub proof fn lemma_foreign_report_changes_nothing(queue: Seq<usize>, pool: usize)
    requires
        in_progress_spec(queue) != Some(pool),
    ensures
        complete_spec(queue, pool) == queue,
{
}

} // verus!
