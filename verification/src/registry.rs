//! The task registry: the frame-scheduler-owned table mapping a logical
//! job id to its lifecycle state.
//!
//! A job id is in at most one lifecycle state at a time: either a listener
//! on some port was requested and no task runs yet (`Requested`), or a
//! background task was spawned for it (`Running`). `lemma_registry_exclusivity`
//! states that guarantee; every operation preserves `wf`, which carries it.

use vstd::prelude::*;

verus! {

/// Opaque reference to a spawned background task. The process code that
/// owns the executor pairs each `handle_id` with the real join handle;
/// inside the registry the handle is inert: it is stored, never polled.
#[derive(Clone, Copy, PartialEq, Eq, Structural, Debug)]
pub struct TaskHandle {
    pub handle_id: u64,
}

/// Lifecycle state of one logical job id.
#[derive(Clone, Copy, PartialEq, Eq, Structural, Debug)]
pub enum JobState {
    /// A listener on this port was requested; no task runs yet.
    Requested { port: u16 },
    /// A background task was spawned for this job. Terminal: the current
    /// design has no stop or reap transition.
    Running { task: TaskHandle },
}

/// One registry row: a job id together with its single lifecycle state.
#[derive(Clone, Copy, PartialEq, Eq, Structural, Debug)]
pub struct Entry {
    pub id: u64,
    pub state: JobState,
}

/// No two rows carry the same job id.
pub open spec fn distinct_ids(rows: Seq<Entry>) -> bool {
    forall|i: int, j: int|
        #![trigger rows[i], rows[j]]
        0 <= i < j < rows.len() ==> rows[i].id != rows[j].id
}

/// Some row carries this job id.
pub open spec fn has_id(rows: Seq<Entry>, id: u64) -> bool {
    exists|k: int| 0 <= k < rows.len() && (#[trigger] rows[k]).id == id
}

/// Number of `Requested` rows among the first `n`.
pub open spec fn req_in_prefix(rows: Seq<Entry>, n: int) -> nat
    decreases n,
{
    if n <= 0 {
        0
    } else {
        req_in_prefix(rows, n - 1) + (if rows[n - 1].state is Requested {
            1nat
        } else {
            0nat
        })
    }
}

/// Number of `Requested` rows in the whole table.
pub open spec fn requested_count(rows: Seq<Entry>) -> nat {
    req_in_prefix(rows, rows.len() as int)
}

/// The requested-row count grows with the prefix it is taken over.
pub proof fn lemma_req_prefix_mono(rows: Seq<Entry>, a: int, b: int)
    requires
        0 <= a <= b,
    ensures
        req_in_prefix(rows, a) <= req_in_prefix(rows, b),
    decreases b,
{
    if a < b {
        lemma_req_prefix_mono(rows, a, b - 1);
    }
}

/// The frame-scheduler-owned table of jobs. Only the frame-scheduler
/// thread may hold it mutably; that serializes every transition.
pub struct Registry {
    pub entries: Vec<Entry>,
}

impl View for Registry {
    type V = Seq<Entry>;

    open spec fn view(&self) -> Seq<Entry> {
        self.entries@
    }
}

/// Registry exclusivity: two distinct rows never share a job id, so a
/// given id is never both `Requested` and `Running` at once — it owns at
/// most one row, and a row holds exactly one state.
pub proof fn lemma_registry_exclusivity(rows: Seq<Entry>, i: int, j: int)
    requires
        distinct_ids(rows),
        0 <= i < rows.len(),
        0 <= j < rows.len(),
        i != j,
    ensures
        rows[i].id != rows[j].id,
{
    if i < j {
        assert(rows[i].id != rows[j].id);
    } else {
        assert(rows[j].id != rows[i].id);
    }
}

impl Registry {
    pub open spec fn wf(&self) -> bool {
        distinct_ids(self@)
    }

    pub fn new() -> (r: Registry)
        ensures
            r@ == Seq::<Entry>::empty(),
            r.wf(),
    {
        Registry { entries: Vec::new() }
    }

    /// Create a job request: a new row `Requested { port }` under a fresh
    /// id. Rejected (no change, `false`) when the id is already taken, in
    /// whatever state — keeping a single lifecycle state per id.
    pub fn submit_request(&mut self, id: u64, port: u16) -> (ok: bool)
        requires
            old(self).wf(),
        ensures
            final(self).wf(),
            ok == !has_id(old(self)@, id),
            ok ==> final(self)@ == old(self)@.push(
                Entry { id, state: JobState::Requested { port } },
            ),
            !ok ==> final(self)@ == old(self)@,
    {
        let n = self.entries.len();
        let mut i: usize = 0;
        while i < n
            invariant
                self@ == old(self)@,
                self.wf(),
                n == self@.len(),
                i <= n,
                forall|j: int| 0 <= j < i ==> (#[trigger] self@[j]).id != id,
            decreases n - i,
        {
            if self.entries[i].id == id {
                return false;
            }
            i += 1;
        }
        let e = Entry { id, state: JobState::Requested { port } };
        self.entries.push(e);
        proof {
            assert(!has_id(old(self)@, id));
            assert forall|a: int, b: int|
                0 <= a < b < self@.len() implies (#[trigger] self@[a]).id
                != (#[trigger] self@[b]).id by {
                if b == self@.len() - 1 {
                    assert(self@[a] == old(self)@[a]);
                } else {
                    assert(self@[a] == old(self)@[a]);
                    assert(self@[b] == old(self)@[b]);
                }
            }
        }
        true
    }

    /// Current lifecycle state of a job id, or `None` when the id holds
    /// no row.
    pub fn state_of(&self, id: u64) -> (r: Option<JobState>)
        ensures
            match r {
                Some(s) => exists|k: int|
                    0 <= k < self@.len() && (#[trigger] self@[k]).id == id && self@[k].state == s,
                None => !has_id(self@, id),
            },
    {
        let n = self.entries.len();
        let mut i: usize = 0;
        while i < n
            invariant
                n == self@.len(),
                i <= n,
                forall|j: int| 0 <= j < i ==> (#[trigger] self@[j]).id != id,
            decreases n - i,
        {
            if self.entries[i].id == id {
                return Some(self.entries[i].state);
            }
            i += 1;
        }
        None
    }

    /// Number of rows still in the `Requested` state.
    pub fn count_requested(&self) -> (n: usize)
        ensures
            n == requested_count(self@),
    {
        let total = self.entries.len();
        let mut i: usize = 0;
        let mut n: usize = 0;
        while i < total
            invariant
                total == self@.len(),
                i <= total,
                n <= i,
                n == req_in_prefix(self@, i as int),
            decreases total - i,
        {
            match self.entries[i].state {
                JobState::Requested { .. } => {
                    n += 1;
                },
                JobState::Running { .. } => {},
            }
            i += 1;
        }
        n
    }

    pub fn len(&self) -> (n: usize)
        ensures
            n == self@.len(),
    {
        self.entries.len()
    }
}

} // verus!
