//! The bridge channel: the bounded hand-off through which background
//! tasks submit a continuation for execution on the frame-scheduler
//! thread.
//!
//! Submissions get consecutive message ids and wait in FIFO order. The
//! frame-scheduler thread drains a bounded number per tick; once a message
//! leaves the queue its id is retired and can never come out again —
//! `lemma_bridge_at_most_once` states that no two drains ever hand the
//! same message out twice. After shutdown begins, a submission fails with
//! `BridgeClosed` instead of waiting forever.

use vstd::prelude::*;

verus! {

/// The error a background task receives when it submits work after the
/// frame-scheduler domain has begun shutting down.
#[derive(Clone, Copy, PartialEq, Eq, Structural, Debug)]
pub struct BridgeClosed;

/// The work a bridged message asks the frame-scheduler thread to run.
/// The built-in request handler only ever needs a short touch of
/// frame-scheduler state; richer continuations extend this enum, and the
/// process code pairs each message id with the reply channel awaited by
/// the submitting task.
#[derive(Clone, Copy, PartialEq, Eq, Structural, Debug)]
pub enum Continuation {
    /// A bounded, O(1) touch of frame-scheduler-owned state.
    Touch,
}

/// One queued unit of work. `msg_id` is unique over the life of the
/// bridge and identifies the reply channel of the submitter.
#[derive(Clone, Copy, PartialEq, Eq, Structural, Debug)]
pub struct BridgeMsg {
    pub msg_id: u64,
    pub continuation: Continuation,
}

/// The frame-scheduler end of the bridge. `retired` counts the messages
/// that have left the queue (executed by a drain, or rejected by the
/// close); ids below it are spent for good. Ids from `retired` up to
/// `next_id` are pending, oldest first.
pub struct Bridge {
    pub closed: bool,
    pub retired: u64,
    pub next_id: u64,
    pub pending: Vec<BridgeMsg>,
}

/// What one drain did: it took the `count` oldest pending messages, in
/// order, retired exactly those, and touched nothing else.
pub open spec fn drain_post(pre: Bridge, post: Bridge, out: Seq<BridgeMsg>, budget: int) -> bool {
    let count = if budget < pre.pending@.len() {
        budget
    } else {
        pre.pending@.len() as int
    };
    &&& out.len() == count
    &&& out == pre.pending@.take(count)
    &&& post.pending@ == pre.pending@.skip(count)
    &&& post.retired == pre.retired + count
    &&& post.next_id == pre.next_id
    &&& post.closed == pre.closed
}

impl Bridge {
    /// Pending messages sit in submission order under consecutive ids:
    /// the queue is exactly the ids in `[retired, next_id)`.
    pub open spec fn wf(&self) -> bool {
        &&& self.retired <= self.next_id
        &&& self.pending@.len() == self.next_id - self.retired
        &&& forall|i: int|
            0 <= i < self.pending@.len() ==> (#[trigger] self.pending@[i]).msg_id == self.retired
                + i
    }

    pub fn new() -> (b: Bridge)
        ensures
            b.wf(),
            !b.closed,
            b.retired == 0,
            b.next_id == 0,
            b.pending@ == Seq::<BridgeMsg>::empty(),
    {
        Bridge { closed: false, retired: 0, next_id: 0, pending: Vec::new() }
    }

    /// Submit a continuation from a background task. While the bridge is
    /// open the message joins the back of the queue under the next id,
    /// which is returned so the submitter can await its reply; once
    /// shutdown has begun the submission is refused with `BridgeClosed`
    /// and the bridge is untouched.
    pub fn submit(&mut self, continuation: Continuation) -> (r: Result<u64, BridgeClosed>)
        requires
            old(self).wf(),
            old(self).next_id < u64::MAX,
        ensures
            final(self).wf(),
            old(self).closed ==> r == Result::<u64, BridgeClosed>::Err(BridgeClosed)
                && *final(self) == *old(self),
            !old(self).closed ==> {
                &&& r == Result::<u64, BridgeClosed>::Ok(old(self).next_id)
                &&& final(self).pending@ == old(self).pending@.push(
                    BridgeMsg { msg_id: old(self).next_id, continuation },
                )
                &&& final(self).next_id == old(self).next_id + 1
                &&& final(self).retired == old(self).retired
                &&& !final(self).closed
            },
    {
        if self.closed {
            return Err(BridgeClosed);
        }
        let id = self.next_id;
        self.pending.push(BridgeMsg { msg_id: id, continuation });
        self.next_id = id + 1;
        Ok(id)
    }

    /// Take up to `budget` messages off the front of the queue, oldest
    /// first, retiring their ids. The result never exceeds the budget,
    /// however much is queued behind it: this is the bound that keeps a
    /// frame-scheduler tick finite.
    pub fn drain(&mut self, budget: usize) -> (out: Vec<BridgeMsg>)
        requires
            old(self).wf(),
        ensures
            final(self).wf(),
            drain_post(*old(self), *final(self), out@, budget as int),
            out@.len() <= budget,
    {
        let count = if budget < self.pending.len() {
            budget
        } else {
            self.pending.len()
        };
        let mut out: Vec<BridgeMsg> = Vec::new();
        let mut i: usize = 0;
        while i < count
            invariant
                self.closed == old(self).closed,
                self.retired == old(self).retired,
                self.next_id == old(self).next_id,
                old(self).wf(),
                count <= old(self).pending@.len(),
                i <= count,
                out@ == old(self).pending@.take(i as int),
                self.pending@ == old(self).pending@.skip(i as int),
            decreases count - i,
        {
            let m = self.pending.remove(0);
            out.push(m);
            proof {
                assert(out@ =~= old(self).pending@.take(i as int + 1));
                assert(self.pending@ =~= old(self).pending@.skip(i as int + 1));
            }
            i += 1;
        }
        self.retired = self.retired + count as u64;
        proof {
            assert forall|k: int| 0 <= k < self.pending@.len() implies (#[trigger] self
                .pending@[k]).msg_id == self.retired + k by {
                assert(self.pending@[k] == old(self).pending@[k + count]);
            }
        }
        out
    }

    /// Begin shutdown: refuse all later submissions and hand back the
    /// still-pending messages so the process code can resolve each waiting
    /// submitter with `BridgeClosed` rather than leave it hanging. The
    /// rejected ids are retired: they were never executed and never will
    /// be.
    pub fn close(&mut self) -> (rejected: Vec<BridgeMsg>)
        requires
            old(self).wf(),
        ensures
            final(self).wf(),
            final(self).closed,
            rejected@ == old(self).pending@,
            final(self).pending@ == Seq::<BridgeMsg>::empty(),
            final(self).retired == old(self).next_id,
            final(self).next_id == old(self).next_id,
    {
        let n = self.pending.len();
        let rejected = self.drain(n);
        self.closed = true;
        proof {
            assert(rejected@ =~= old(self).pending@);
            assert(self.pending@ =~= Seq::<BridgeMsg>::empty());
        }
        rejected
    }
}

/// No admitted message is lost: a drain whose budget covers the whole
/// queue returns every pending message, so repeated draining delivers
/// each submission — together with `lemma_bridge_at_most_once`, exactly
/// once.
pub proof fn lemma_full_drain_returns_all(pre: Bridge, post: Bridge, out: Seq<BridgeMsg>, budget: int)
    requires
        pre.wf(),
        drain_post(pre, post, out, budget),
        budget >= pre.pending@.len(),
    ensures
        out == pre.pending@,
        post.pending@ == Seq::<BridgeMsg>::empty(),
{
    assert(out =~= pre.pending@);
    assert(post.pending@ =~= Seq::<BridgeMsg>::empty());
}

/// Submissions leave the bridge in arrival order: one drain's output
/// carries strictly increasing message ids, oldest first, so a task's
/// earlier submission is always executed before its later one.
pub proof fn lemma_drain_fifo(pre: Bridge, post: Bridge, out: Seq<BridgeMsg>, budget: int)
    requires
        pre.wf(),
        drain_post(pre, post, out, budget),
    ensures
        forall|i: int, j: int|
            #![trigger out[i], out[j]]
            0 <= i < j < out.len() ==> out[i].msg_id < out[j].msg_id,
{
    assert forall|i: int, j: int|
        #![trigger out[i], out[j]]
        0 <= i < j < out.len() implies out[i].msg_id < out[j].msg_id by {
        assert(out[i] == pre.pending@[i]);
        assert(out[j] == pre.pending@[j]);
    }
}

/// Bridge at-most-once: two drains never hand out the same message, and
/// the later drain's messages were all submitted after the earlier
/// drain's. The first drain retires everything it returns, and `retired`
/// never moves backwards between operations, so whatever the second drain
/// returns carries strictly larger ids.
pub proof fn lemma_bridge_at_most_once(
    pre_a: Bridge,
    post_a: Bridge,
    out_a: Seq<BridgeMsg>,
    budget_a: int,
    pre_b: Bridge,
    post_b: Bridge,
    out_b: Seq<BridgeMsg>,
    budget_b: int,
)
    requires
        pre_a.wf(),
        pre_b.wf(),
        drain_post(pre_a, post_a, out_a, budget_a),
        drain_post(pre_b, post_b, out_b, budget_b),
        post_a.retired <= pre_b.retired,
    ensures
        forall|i: int, j: int|
            #![trigger out_a[i], out_b[j]]
            0 <= i < out_a.len() && 0 <= j < out_b.len() ==> out_a[i].msg_id != out_b[j].msg_id,
        forall|i: int, j: int|
            #![trigger out_a[i], out_b[j]]
            0 <= i < out_a.len() && 0 <= j < out_b.len() ==> out_a[i].msg_id < out_b[j].msg_id,
{
    assert forall|i: int, j: int|
        #![trigger out_a[i], out_b[j]]
        0 <= i < out_a.len() && 0 <= j < out_b.len() implies out_a[i].msg_id
        != out_b[j].msg_id by {
        assert(out_a[i] == pre_a.pending@[i]);
        assert(out_b[j] == pre_b.pending@[j]);
        assert(out_a[i].msg_id == pre_a.retired + i);
        assert(out_b[j].msg_id == pre_b.retired + j);
        assert(out_a[i].msg_id < post_a.retired);
    }
}

} // verus!
