use vstd::prelude::*;

verus! {

/// Where a worker stands in the search protocol.
#[derive(Clone, Copy, Debug, PartialEq, Eq, Structural)]
pub enum WorkerPhase {
    /// Between rounds: it must look at the stop condition before generating.
    Idle,
    /// It saw the target unmet and is generating and reporting a batch.
    Searching,
    /// It has stopped for good.
    Done,
}

/// One worker's entry: its phase, and how many candidates it generated in the
/// current round that have not yet been reported as matches.
#[derive(Clone, Copy, Debug)]
pub struct WorkerSlot {
    pub phase: WorkerPhase,
    pub unmatched: u64,
}

/// Candidates generated and not yet reported, over all workers.
pub open spec fn unmatched_total(slots: Seq<WorkerSlot>) -> int
    decreases slots.len(),
{
    if slots.len() == 0 {
        0
    } else {
        unmatched_total(slots.drop_last()) + slots.last().unmatched
    }
}

/// How many workers have stopped.
pub open spec fn done_count(slots: Seq<WorkerSlot>) -> int
    decreases slots.len(),
{
    if slots.len() == 0 {
        0
    } else {
        done_count(slots.drop_last()) + if slots.last().phase == WorkerPhase::Done {
            1int
        } else {
            0int
        }
    }
}

proof fn lemma_update_slot(slots: Seq<WorkerSlot>, i: int, s: WorkerSlot)
    requires
        0 <= i < slots.len(),
    ensures
        unmatched_total(slots.update(i, s)) == unmatched_total(slots) - slots[i].unmatched
            + s.unmatched,
        done_count(slots.update(i, s)) == done_count(slots) - (if slots[i].phase
            == WorkerPhase::Done {
            1int
        } else {
            0int
        }) + (if s.phase == WorkerPhase::Done {
            1int
        } else {
            0int
        }),
    decreases slots.len(),
{
    let u = slots.update(i, s);
    if i < slots.len() - 1 {
        lemma_update_slot(slots.drop_last(), i, s);
        assert(u.drop_last() =~= slots.drop_last().update(i, s));
    } else {
        assert(u.drop_last() =~= slots.drop_last());
    }
}

proof fn lemma_counts_bounded(slots: Seq<WorkerSlot>)
    ensures
        0 <= done_count(slots) <= slots.len(),
        0 <= unmatched_total(slots),
    decreases slots.len(),
{
    if slots.len() > 0 {
        lemma_counts_bounded(slots.drop_last());
    }
}

/// The counters that all workers of a run share: keypairs generated, matches
/// found, the target, and each worker's progress through the protocol.
///
/// A worker runs rounds: `begin_round` looks at the stop condition, then
/// `record_generated` counts a batch, `record_match` counts each match that
/// was handed to the sink, and `end_round` closes the round. A worker whose
/// match reaches the target stops at once. The stop condition is read once per
/// round, so workers racing for the last matches may overshoot the target,
/// each by at most one match.
pub struct SearchState {
    generated: u64,
    found: u64,
    target: u64,
    slots: Vec<WorkerSlot>,
}

impl SearchState {
    pub closed spec fn generated(&self) -> int {
        self.generated as int
    }

    pub closed spec fn found(&self) -> int {
        self.found as int
    }

    pub closed spec fn target(&self) -> int {
        self.target as int
    }

    pub closed spec fn slots(&self) -> Seq<WorkerSlot> {
        self.slots@
    }

    pub open spec fn thread_count(&self) -> int {
        self.slots().len() as int
    }

    pub open spec fn phase(&self, worker: int) -> WorkerPhase {
        self.slots()[worker].phase
    }

    pub open spec fn unmatched(&self, worker: int) -> int {
        self.slots()[worker].unmatched as int
    }

    /// The one-way stop signal.
    pub open spec fn stop_reached(&self) -> bool {
        self.found() >= self.target()
    }

    /// `later` is a state this one can move to: the counters never go down,
    /// the target is fixed, the worker count is fixed, and the stop signal,
    /// once on, stays on.
    pub open spec fn advances_to(&self, later: SearchState) -> bool {
        &&& self.generated() <= later.generated()
        &&& self.found() <= later.found()
        &&& self.target() == later.target()
        &&& self.thread_count() == later.thread_count()
        &&& self.stop_reached() ==> later.stop_reached()
    }

    pub closed spec fn wf(&self) -> bool {
        &&& self.found + unmatched_total(self.slots@) <= self.generated
        &&& self.found == 0 || self.found < self.target + done_count(self.slots@)
        &&& forall|i: int|
            0 <= i < self.slots@.len() && #[trigger] self.slots@[i].phase
                == WorkerPhase::Searching ==> self.target >= 1
    }

    /// A fresh run: nothing generated or found, every worker idle.
    pub fn new(target: u64, thread_count: usize) -> (s: SearchState)
        ensures
            s.wf(),
            s.generated() == 0,
            s.found() == 0,
            s.target() == target,
            s.thread_count() == thread_count,
            forall|i: int|
                0 <= i < thread_count ==> #[trigger] s.phase(i) == WorkerPhase::Idle && s.unmatched(
                    i,
                ) == 0,
    {
        let mut slots: Vec<WorkerSlot> = Vec::new();
        let mut i: usize = 0;
        while i < thread_count
            invariant
                i <= thread_count,
                slots@.len() == i,
                forall|j: int|
                    0 <= j < i ==> #[trigger] slots@[j].phase == WorkerPhase::Idle
                        && slots@[j].unmatched == 0,
                unmatched_total(slots@) == 0,
                done_count(slots@) == 0,
            decreases thread_count - i,
        {
            let ghost prev = slots@;
            slots.push(WorkerSlot { phase: WorkerPhase::Idle, unmatched: 0 });
            assert(slots@.drop_last() =~= prev);
            i = i + 1;
        }
        SearchState { generated: 0, found: 0, target, slots }
    }

    pub fn generated_count(&self) -> (r: u64)
        ensures
            r == self.generated(),
    {
        self.generated
    }

    pub fn found_count(&self) -> (r: u64)
        ensures
            r == self.found(),
    {
        self.found
    }

    pub fn target_count(&self) -> (r: u64)
        ensures
            r == self.target(),
    {
        self.target
    }

    pub fn worker_count(&self) -> (r: usize)
        ensures
            r == self.thread_count(),
    {
        self.slots.len()
    }

    pub fn worker_phase(&self, worker: usize) -> (r: WorkerPhase)
        requires
            worker < self.thread_count(),
        ensures
            r == self.phase(worker as int),
    {
        self.slots[worker].phase
    }

    pub fn worker_unmatched(&self, worker: usize) -> (r: u64)
        requires
            worker < self.thread_count(),
        ensures
            r == self.unmatched(worker as int),
    {
        self.slots[worker].unmatched
    }

    /// Whether the target has been reached; once true it stays true.
    pub fn should_stop(&self) -> (r: bool)
        ensures
            r == self.stop_reached(),
    {
        self.found >= self.target
    }

    fn set_slot(&mut self, worker: usize, slot: WorkerSlot)
        requires
            worker < old(self).slots@.len(),
        ensures
            final(self).slots@ == old(self).slots@.update(worker as int, slot),
            final(self).generated == old(self).generated,
            final(self).found == old(self).found,
            final(self).target == old(self).target,
    {
        self.slots.set(worker, slot);
    }

    /// An idle worker looks at the stop condition: it searches on while the
    /// target is unmet, and stops otherwise.
    pub fn begin_round(&mut self, worker: usize) -> (go: bool)
        requires
            old(self).wf(),
            worker < old(self).thread_count(),
            old(self).phase(worker as int) == WorkerPhase::Idle,
        ensures
            final(self).wf(),
            old(self).advances_to(*final(self)),
            go == !old(self).stop_reached(),
            final(self).slots() == old(self).slots().update(
                worker as int,
                WorkerSlot {
                    phase: if go {
                        WorkerPhase::Searching
                    } else {
                        WorkerPhase::Done
                    },
                    unmatched: 0,
                },
            ),
            final(self).generated() == old(self).generated(),
            final(self).found() == old(self).found(),
            final(self).target() == old(self).target(),
    {
        let go = self.found < self.target;
        let phase = if go {
            WorkerPhase::Searching
        } else {
            WorkerPhase::Done
        };
        proof {
            lemma_update_slot(self.slots@, worker as int, WorkerSlot { phase, unmatched: 0 });
        }
        self.set_slot(worker, WorkerSlot { phase, unmatched: 0 });
        go
    }

    /// A searching worker counts a batch of `n` freshly generated keypairs.
    pub fn record_generated(&mut self, worker: usize, n: u64)
        requires
            old(self).wf(),
            worker < old(self).thread_count(),
            old(self).phase(worker as int) == WorkerPhase::Searching,
            old(self).generated() + n <= u64::MAX,
        ensures
            final(self).wf(),
            old(self).advances_to(*final(self)),
            final(self).generated() == old(self).generated() + n,
            final(self).slots() == old(self).slots().update(
                worker as int,
                WorkerSlot {
                    phase: WorkerPhase::Searching,
                    unmatched: (old(self).unmatched(worker as int) + n) as u64,
                },
            ),
            final(self).found() == old(self).found(),
            final(self).target() == old(self).target(),
    {
        let slot = self.slots[worker];
        proof {
            lemma_counts_bounded(self.slots@);
            lemma_unmatched_le_total(self.slots@, worker as int);
        }
        let updated = WorkerSlot { phase: WorkerPhase::Searching, unmatched: slot.unmatched + n };
        self.generated = self.generated + n;
        proof {
            lemma_update_slot(self.slots@, worker as int, updated);
        }
        self.set_slot(worker, updated);
    }

    /// A searching worker counts one match that it has handed to the sink.
    /// It stops, and `stop` is true, when the count reaches the target.
    pub fn record_match(&mut self, worker: usize) -> (stop: bool)
        requires
            old(self).wf(),
            worker < old(self).thread_count(),
            old(self).phase(worker as int) == WorkerPhase::Searching,
            old(self).unmatched(worker as int) >= 1,
        ensures
            final(self).wf(),
            old(self).advances_to(*final(self)),
            final(self).found() == old(self).found() + 1,
            stop == final(self).stop_reached(),
            final(self).slots() == old(self).slots().update(
                worker as int,
                WorkerSlot {
                    phase: if stop {
                        WorkerPhase::Done
                    } else {
                        WorkerPhase::Searching
                    },
                    unmatched: (old(self).unmatched(worker as int) - 1) as u64,
                },
            ),
            final(self).generated() == old(self).generated(),
            final(self).target() == old(self).target(),
    {
        let slot = self.slots[worker];
        proof {
            lemma_counts_bounded(self.slots@);
            lemma_unmatched_le_total(self.slots@, worker as int);
        }
        self.found = self.found + 1;
        let stop = self.found >= self.target;
        let phase = if stop {
            WorkerPhase::Done
        } else {
            WorkerPhase::Searching
        };
        let updated = WorkerSlot { phase, unmatched: slot.unmatched - 1 };
        proof {
            lemma_update_slot(self.slots@, worker as int, updated);
        }
        self.set_slot(worker, updated);
        proof {
            assert forall|i: int|
                0 <= i < self.slots@.len() && #[trigger] self.slots@[i].phase
                    == WorkerPhase::Searching implies self.target >= 1 by {
                if i != worker {
                    assert(old(self).slots@[i].phase == WorkerPhase::Searching);
                }
            }
        }
        stop
    }

    /// A searching worker closes its round; what it generated and did not
    /// report is dropped from its account.
    pub fn end_round(&mut self, worker: usize)
        requires
            old(self).wf(),
            worker < old(self).thread_count(),
            old(self).phase(worker as int) == WorkerPhase::Searching,
        ensures
            final(self).wf(),
            old(self).advances_to(*final(self)),
            final(self).slots() == old(self).slots().update(
                worker as int,
                WorkerSlot { phase: WorkerPhase::Idle, unmatched: 0 },
            ),
            final(self).generated() == old(self).generated(),
            final(self).found() == old(self).found(),
            final(self).target() == old(self).target(),
    {
        proof {
            lemma_update_slot(
                self.slots@,
                worker as int,
                WorkerSlot { phase: WorkerPhase::Idle, unmatched: 0 },
            );
        }
        self.set_slot(worker, WorkerSlot { phase: WorkerPhase::Idle, unmatched: 0 });
    }
}

proof fn lemma_unmatched_le_total(slots: Seq<WorkerSlot>, i: int)
    requires
        0 <= i < slots.len(),
    ensures
        slots[i].unmatched <= unmatched_total(slots),
    decreases slots.len(),
{
    lemma_counts_bounded(slots.drop_last());
    if i < slots.len() - 1 {
        lemma_unmatched_le_total(slots.drop_last(), i);
    }
}

/// Bounded overshoot: with at least one worker, the matches found never exceed
/// the target by more than the number of workers less one.
pub proof fn lemma_bounded_overshoot(s: SearchState)
    requires
        s.wf(),
        s.thread_count() >= 1,
    ensures
        s.found() <= s.target() + s.thread_count() - 1,
{
    lemma_counts_bounded(s.slots());
}

/// With a single worker there is no overshoot: once the stop signal is on,
/// exactly the target number of matches has been found.
pub proof fn lemma_single_worker_exact(s: SearchState)
    requires
        s.wf(),
        s.thread_count() == 1,
        s.stop_reached(),
    ensures
        s.found() == s.target(),
{
    lemma_bounded_overshoot(s);
}

/// Every match found was first counted as generated.
pub proof fn lemma_generated_covers_found(s: SearchState)
    requires
        s.wf(),
    ensures
        s.found() <= s.generated(),
{
    lemma_counts_bounded(s.slots());
}

/// Over a whole run, made of any number of steps, the counters never go
/// down and the stop signal never turns off.
pub proof fn lemma_advances_transitive(a: SearchState, b: SearchState, c: SearchState)
    requires
        a.advances_to(b),
        b.advances_to(c),
    ensures
        a.advances_to(c),
{
}

} // verus!
