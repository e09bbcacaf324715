//! The listener lifecycle system: once per frame-scheduler tick it scans
//! the registry for newly requested jobs, draws a fresh handle from the
//! background task runtime for each, and replaces the `Requested` row with
//! a `Running` row in the same pass.
//!
//! `tick_rows` and `tick_orders` are the exact functional description of
//! one scan; `lemma_lifecycle_idempotent` states that a second scan with
//! no new requests in between changes nothing and spawns nothing.

use vstd::prelude::*;

use crate::registry::lemma_req_prefix_mono;
use crate::registry::req_in_prefix;
use crate::registry::requested_count;
use crate::registry::Entry;
use crate::registry::JobState;
use crate::registry::Registry;
use crate::registry::TaskHandle;

verus! {

/// The frame-scheduler-side face of the background task runtime: it hands
/// out fresh task handles, one per spawned job. The worker threads that
/// actually run the spawned futures live outside this crate and key them
/// by `handle_id`; spawning is only reachable from the frame-scheduler
/// thread, which keeps the registry consistent.
pub struct TaskRuntime {
    pub next_handle: u64,
}

impl TaskRuntime {
    pub fn new() -> (r: TaskRuntime)
        ensures
            r.next_handle == 0,
    {
        TaskRuntime { next_handle: 0 }
    }

    /// Allocate a handle never handed out before.
    pub fn fresh_handle(&mut self) -> (h: TaskHandle)
        requires
            old(self).next_handle < u64::MAX,
        ensures
            h.handle_id == old(self).next_handle,
            final(self).next_handle == old(self).next_handle + 1,
    {
        let h = TaskHandle { handle_id: self.next_handle };
        self.next_handle = self.next_handle + 1;
        h
    }
}

/// An instruction to the surrounding process: start the long-lived server
/// task for job `id` on `port`, and file its real join handle under
/// `task.handle_id`.
#[derive(Clone, Copy, PartialEq, Eq, Structural, Debug)]
pub struct SpawnOrder {
    pub id: u64,
    pub port: u16,
    pub task: TaskHandle,
}

/// Row `i` after one scan: a `Requested` row is promoted to `Running`
/// under the next unused handle (`base` plus the number of requested rows
/// before it); a `Running` row is untouched.
pub open spec fn tick_row(rows: Seq<Entry>, base: u64, i: int) -> Entry {
    let e = rows[i];
    match e.state {
        JobState::Requested { port: _ } => Entry {
            id: e.id,
            state: JobState::Running {
                task: TaskHandle { handle_id: (base + req_in_prefix(rows, i)) as u64 },
            },
        },
        JobState::Running { task: _ } => e,
    }
}

/// The whole table after one scan.
pub open spec fn tick_rows(rows: Seq<Entry>, base: u64) -> Seq<Entry> {
    Seq::new(rows.len(), |i: int| tick_row(rows, base, i))
}

/// The spawn orders produced by scanning the first `n` rows, in row order.
pub open spec fn orders_in_prefix(rows: Seq<Entry>, base: u64, n: int) -> Seq<SpawnOrder>
    decreases n,
{
    if n <= 0 {
        Seq::empty()
    } else {
        let pre = orders_in_prefix(rows, base, n - 1);
        match rows[n - 1].state {
            JobState::Requested { port } => pre.push(
                SpawnOrder {
                    id: rows[n - 1].id,
                    port,
                    task: TaskHandle { handle_id: (base + req_in_prefix(rows, n - 1)) as u64 },
                },
            ),
            JobState::Running { task: _ } => pre,
        }
    }
}

/// The spawn orders of one whole scan.
pub open spec fn tick_orders(rows: Seq<Entry>, base: u64) -> Seq<SpawnOrder> {
    orders_in_prefix(rows, base, rows.len() as int)
}

pub proof fn lemma_orders_len(rows: Seq<Entry>, base: u64, n: int)
    requires
        0 <= n,
    ensures
        orders_in_prefix(rows, base, n).len() == req_in_prefix(rows, n),
    decreases n,
{
    if n > 0 {
        lemma_orders_len(rows, base, n - 1);
    }
}

/// A prefix without `Requested` rows counts zero requested rows.
proof fn lemma_req_prefix_none(rows: Seq<Entry>, n: int)
    requires
        0 <= n <= rows.len(),
        forall|i: int| 0 <= i < n ==> !((#[trigger] rows[i]).state is Requested),
    ensures
        req_in_prefix(rows, n) == 0,
    decreases n,
{
    if n > 0 {
        lemma_req_prefix_none(rows, n - 1);
    }
}

/// A `Requested` row makes the whole count positive.
proof fn lemma_requested_gives_count(rows: Seq<Entry>, i: int)
    requires
        0 <= i < rows.len(),
        rows[i].state is Requested,
    ensures
        requested_count(rows) >= 1,
{
    lemma_req_prefix_mono(rows, 0, i);
    lemma_req_prefix_mono(rows, i + 1, rows.len() as int);
}

/// After one scan every row is `Running`, so none is left requested.
pub proof fn lemma_tick_all_running(rows: Seq<Entry>, base: u64)
    ensures
        requested_count(tick_rows(rows, base)) == 0,
{
    let post = tick_rows(rows, base);
    assert forall|i: int| 0 <= i < post.len() implies !((#[trigger] post[i]).state is Requested) by {
        assert(post[i] == tick_row(rows, base, i));
    }
    lemma_req_prefix_none(post, post.len() as int);
}

/// A scan of a table with nothing requested changes nothing and spawns
/// nothing.
pub proof fn lemma_tick_identity(rows: Seq<Entry>, base: u64)
    requires
        requested_count(rows) == 0,
    ensures
        tick_rows(rows, base) == rows,
        tick_orders(rows, base) == Seq::<SpawnOrder>::empty(),
{
    assert forall|i: int| 0 <= i < rows.len() implies !((#[trigger] rows[i]).state is Requested) by {
        if rows[i].state is Requested {
            lemma_requested_gives_count(rows, i);
        }
    }
    assert forall|i: int| 0 <= i < rows.len() implies tick_rows(rows, base)[i] == rows[i] by {
        assert(!(rows[i].state is Requested));
    }
    assert(tick_rows(rows, base) =~= rows);
    lemma_orders_prefix_empty(rows, base, rows.len() as int);
}

proof fn lemma_orders_prefix_empty(rows: Seq<Entry>, base: u64, n: int)
    requires
        0 <= n <= rows.len(),
        forall|i: int| 0 <= i < rows.len() ==> !((#[trigger] rows[i]).state is Requested),
    ensures
        orders_in_prefix(rows, base, n) == Seq::<SpawnOrder>::empty(),
    decreases n,
{
    if n > 0 {
        lemma_orders_prefix_empty(rows, base, n - 1);
    }
}

/// Single-scan idempotence: whatever handle counter the runtime has
/// reached by then, a second scan straight after a first one leaves the
/// table as the first scan left it and spawns nothing, because the first
/// scan left nothing requested.
pub proof fn lemma_lifecycle_idempotent(rows: Seq<Entry>, base1: u64, base2: u64)
    ensures
        tick_rows(tick_rows(rows, base1), base2) == tick_rows(rows, base1),
        tick_orders(tick_rows(rows, base1), base2) == Seq::<SpawnOrder>::empty(),
{
    lemma_tick_all_running(rows, base1);
    lemma_tick_identity(tick_rows(rows, base1), base2);
}

/// One run of the lifecycle system: promote every `Requested` row to
/// `Running` under a fresh handle and return the spawn orders, one per
/// promoted row, in row order. Rows already `Running` are untouched, and
/// a run that finds nothing requested is a no-op.
pub fn lifecycle_tick(reg: &mut Registry, rt: &mut TaskRuntime) -> (orders: Vec<SpawnOrder>)
    requires
        old(reg).wf(),
        old(rt).next_handle + requested_count(old(reg)@) <= u64::MAX,
    ensures
        final(reg).wf(),
        final(reg)@ == tick_rows(old(reg)@, old(rt).next_handle),
        orders@ == tick_orders(old(reg)@, old(rt).next_handle),
        orders@.len() == requested_count(old(reg)@),
        final(rt).next_handle == old(rt).next_handle + requested_count(old(reg)@),
        requested_count(final(reg)@) == 0,
        requested_count(old(reg)@) == 0 ==> final(reg)@ == old(reg)@,
{
    let ghost base: u64 = old(rt).next_handle;
    let n = reg.entries.len();
    let mut new_entries: Vec<Entry> = Vec::new();
    let mut orders: Vec<SpawnOrder> = Vec::new();
    let mut i: usize = 0;
    while i < n
        invariant
            reg@ == old(reg)@,
            reg.wf(),
            n == reg@.len(),
            i <= n,
            base == old(rt).next_handle,
            base + requested_count(reg@) <= u64::MAX,
            rt.next_handle == base + req_in_prefix(reg@, i as int),
            new_entries@.len() == i,
            forall|j: int| 0 <= j < i ==> new_entries@[j] == tick_row(reg@, base, j),
            orders@ == orders_in_prefix(reg@, base, i as int),
        decreases n - i,
    {
        let e = reg.entries[i];
        match e.state {
            JobState::Requested { port } => {
                proof {
                    lemma_req_prefix_mono(reg@, i as int + 1, n as int);
                }
                let task = rt.fresh_handle();
                new_entries.push(Entry { id: e.id, state: JobState::Running { task } });
                orders.push(SpawnOrder { id: e.id, port, task });
            },
            JobState::Running { task: _ } => {
                new_entries.push(e);
            },
        }
        i += 1;
    }
    proof {
        assert(new_entries@ =~= tick_rows(reg@, base));
        lemma_req_prefix_mono(reg@, 0, n as int);
        lemma_orders_len(reg@, base, n as int);
        lemma_tick_all_running(reg@, base);
        assert forall|a: int, b: int|
            0 <= a < b < tick_rows(reg@, base).len() implies (#[trigger] tick_rows(
            reg@,
            base,
        )[a]).id != (#[trigger] tick_rows(reg@, base)[b]).id by {
            assert(tick_rows(reg@, base)[a].id == reg@[a].id);
            assert(tick_rows(reg@, base)[b].id == reg@[b].id);
        }
        if requested_count(reg@) == 0 {
            lemma_tick_identity(reg@, base);
        }
    }
    reg.entries = new_entries;
    orders
}

} // verus!
