//! The frame-scheduler side of the bridge: the capability token for
//! frame-scheduler-owned state and the per-tick draining phase.
//!
//! `MainThreadContext` is the only value that grants access to
//! frame-scheduler state. It is created by the thread that runs the tick
//! loop, is passed into `run_tick` by mutable borrow for the duration of
//! one call, and is never handed to a background task — so a continuation
//! can only ever run where the token lives, on the frame-scheduler
//! thread.

use vstd::prelude::*;

use crate::bridge::drain_post;
use crate::bridge::Bridge;
use crate::bridge::BridgeMsg;
use crate::bridge::Continuation;
use crate::lifecycle::lifecycle_tick;
use crate::lifecycle::tick_orders;
use crate::lifecycle::tick_rows;
use crate::lifecycle::SpawnOrder;
use crate::lifecycle::TaskRuntime;
use crate::registry::requested_count;
use crate::registry::Registry;

verus! {

/// Capability over frame-scheduler-owned state, valid only for the
/// duration of one continuation call. `touches` counts the continuation
/// executions it has witnessed — the one piece of main-thread state the
/// built-in continuations touch.
pub struct MainThreadContext {
    pub touches: u64,
}

impl MainThreadContext {
    pub fn new() -> (c: MainThreadContext)
        ensures
            c.touches == 0,
    {
        MainThreadContext { touches: 0 }
    }
}

/// Proof that one bridged message was executed; the process code sends it
/// down the reply channel filed under `msg_id`, waking the submitter.
#[derive(Clone, Copy, PartialEq, Eq, Structural, Debug)]
pub struct Completion {
    pub msg_id: u64,
}

/// Run one continuation against the main-thread capability. Every
/// continuation is a bounded touch of frame-scheduler state; the
/// completion carries the id of the message that was run.
pub fn execute_continuation(ctx: &mut MainThreadContext, msg: &BridgeMsg) -> (done: Completion)
    requires
        old(ctx).touches < u64::MAX,
    ensures
        final(ctx).touches == old(ctx).touches + 1,
        done.msg_id == msg.msg_id,
{
    match msg.continuation {
        Continuation::Touch => {
            ctx.touches = ctx.touches + 1;
        },
    }
    Completion { msg_id: msg.msg_id }
}

/// The task-draining phase of one tick: take at most `budget` pending
/// messages off the bridge, oldest first, execute each exactly once on
/// this thread, and return their completions in execution order. At most
/// `budget` continuations run, each a bounded touch, however many
/// background tasks exist or submit — the tick's cost is bounded by the
/// budget alone.
pub fn run_tick(bridge: &mut Bridge, ctx: &mut MainThreadContext, budget: usize) -> (done: Vec<
    Completion,
>)
    requires
        old(bridge).wf(),
        old(ctx).touches + budget <= u64::MAX,
    ensures
        final(bridge).wf(),
        done@.len() <= budget,
        done@.len() == if budget < old(bridge).pending@.len() {
            budget as int
        } else {
            old(bridge).pending@.len() as int
        },
        forall|k: int|
            0 <= k < done@.len() ==> (#[trigger] done@[k]).msg_id == old(
                bridge,
            ).pending@[k].msg_id,
        final(bridge).pending@ == old(bridge).pending@.skip(done@.len() as int),
        final(bridge).retired == old(bridge).retired + done@.len(),
        final(bridge).next_id == old(bridge).next_id,
        final(bridge).closed == old(bridge).closed,
        final(ctx).touches == old(ctx).touches + done@.len(),
{
    let msgs = bridge.drain(budget);
    let mut done: Vec<Completion> = Vec::new();
    let n = msgs.len();
    let mut i: usize = 0;
    while i < n
        invariant
            n == msgs@.len(),
            n <= budget,
            i <= n,
            old(ctx).touches + budget <= u64::MAX,
            ctx.touches == old(ctx).touches + i,
            done@.len() == i,
            forall|k: int| 0 <= k < i ==> (#[trigger] done@[k]).msg_id == msgs@[k].msg_id,
        decreases n - i,
    {
        let c = execute_continuation(ctx, &msgs[i]);
        done.push(c);
        i += 1;
    }
    proof {
        assert(drain_post(*old(bridge), *bridge, msgs@, budget as int));
        assert forall|k: int| 0 <= k < done@.len() implies (#[trigger] done@[k]).msg_id == old(
            bridge,
        ).pending@[k].msg_id by {
            assert(msgs@[k] == old(bridge).pending@[k]);
        }
    }
    done
}

/// What one whole frame-scheduler tick did.
pub struct TickReport {
    /// Background tasks to start, one per job promoted this tick.
    pub orders: Vec<SpawnOrder>,
    /// Bridged continuations executed this tick, in queue order.
    pub completions: Vec<Completion>,
}

/// One whole frame-scheduler tick: run the lifecycle system, then drain
/// at most `budget` bridged continuations. Both phases run on the one
/// frame-scheduler thread, serialized by construction; the tick's work is
/// bounded by the table size and the budget, never by the number of
/// background tasks.
pub fn frame_tick(
    reg: &mut Registry,
    rt: &mut TaskRuntime,
    bridge: &mut Bridge,
    ctx: &mut MainThreadContext,
    budget: usize,
) -> (report: TickReport)
    requires
        old(reg).wf(),
        old(rt).next_handle + requested_count(old(reg)@) <= u64::MAX,
        old(bridge).wf(),
        old(ctx).touches + budget <= u64::MAX,
    ensures
        final(reg).wf(),
        final(bridge).wf(),
        final(reg)@ == tick_rows(old(reg)@, old(rt).next_handle),
        report.orders@ == tick_orders(old(reg)@, old(rt).next_handle),
        requested_count(final(reg)@) == 0,
        final(rt).next_handle == old(rt).next_handle + requested_count(old(reg)@),
        report.completions@.len() <= budget,
        report.completions@.len() == if budget < old(bridge).pending@.len() {
            budget as int
        } else {
            old(bridge).pending@.len() as int
        },
        forall|k: int|
            0 <= k < report.completions@.len() ==> (#[trigger] report.completions@[k]).msg_id
                == old(bridge).pending@[k].msg_id,
        final(bridge).pending@ == old(bridge).pending@.skip(report.completions@.len() as int),
        final(bridge).retired == old(bridge).retired + report.completions@.len(),
        final(bridge).next_id == old(bridge).next_id,
        final(bridge).closed == old(bridge).closed,
        final(ctx).touches == old(ctx).touches + report.completions@.len(),
{
    let orders = lifecycle_tick(reg, rt);
    let completions = run_tick(bridge, ctx, budget);
    TickReport { orders, completions }
}

} // verus!
