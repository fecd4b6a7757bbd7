use vstd::prelude::*;
use crate::frontier::{Frontier, FrontierResult};
use crate::ringbuffer::MultiThreadedRingBuffer;
use crate::tasks::{worker_step, WorkerAction};

verus! {

/// The external per-identifier operation a worker performs: trash a message,
/// fetch and record one, or whatever the caller of the pipeline chooses.
/// Nothing is assumed of it; the pipeline's guarantees hold whatever each
/// call returns.
pub trait WorkOp {
    /// Performs the operation; an error message reports a failure.
    fn apply(&mut self, id: &String) -> Result<(), String>;
}

/// The totals a finished run reports.
#[derive(Debug, PartialEq, Eq, Structural)]
pub struct RunReport {
    /// Identifiers moved from the frontier into the ring buffer.
    pub fed: usize,
    /// Operations that succeeded.
    pub processed: usize,
    /// Operations that failed; the item is dropped, never retried.
    pub failed: usize,
}

/// The work-distribution pipeline: one deduplicating frontier feeding one
/// bounded ring buffer drained by a pool of workers.
pub struct Pipeline {
    frontier: Frontier,
    buffer: MultiThreadedRingBuffer<String>,
    workers: usize,
}

impl Pipeline {
    /// The identifiers pending in the frontier.
    pub closed spec fn pending(&self) -> Seq<Seq<char>> {
        self.frontier.ids_seq()
    }

    /// The pending identifiers as a set.
    pub open spec fn id_set(&self) -> Set<Seq<char>> {
        self.pending().to_set()
    }

    /// Whether discovery has been declared finished.
    pub closed spec fn spec_done(&self) -> bool {
        self.frontier.spec_done()
    }

    /// The ring buffer's contents.
    pub closed spec fn buffer_view(&self) -> Seq<Option<String>> {
        self.buffer@
    }

    /// The ring buffer's capacity.
    pub closed spec fn spec_capacity(&self) -> int {
        self.buffer.spec_capacity()
    }

    /// The size of the worker pool.
    pub closed spec fn spec_workers(&self) -> int {
        self.workers as int
    }

    /// Structural invariant. The pool never outnumbers the buffer's slots:
    /// that is the caller-side rule under which poisoning stops every worker.
    pub closed spec fn wf(&self) -> bool {
        &&& self.frontier.wf()
        &&& self.buffer.wf()
        &&& 1 <= self.workers
        &&& self.workers as int <= self.buffer.spec_capacity()
    }

    /// Builds a pipeline with the given buffer capacity and worker pool size.
    pub fn new(capacity: usize, workers: usize) -> (r: Self)
        requires
            1 <= workers <= capacity,
        ensures
            r.wf(),
            r.pending() =~= Seq::<Seq<char>>::empty(),
            !r.spec_done(),
            r.buffer_view() =~= Seq::<Option<String>>::empty(),
            r.spec_capacity() == capacity,
            r.spec_workers() == workers,
    {
        Pipeline {
            frontier: Frontier::new(),
            buffer: MultiThreadedRingBuffer::new(capacity),
            workers,
        }
    }

    /// Records a discovered identifier in the frontier; duplicates collapse.
    pub fn feed(&mut self, id: String)
        requires
            old(self).wf(),
        ensures
            final(self).wf(),
            final(self).id_set() =~= old(self).id_set().insert(id@),
            final(self).pending().len() == old(self).pending().len() + (
            if old(self).id_set().contains(id@) {
                0int
            } else {
                1int
            }),
            final(self).spec_done() == old(self).spec_done(),
            final(self).buffer_view() == old(self).buffer_view(),
            final(self).spec_capacity() == old(self).spec_capacity(),
            final(self).spec_workers() == old(self).spec_workers(),
    {
        self.frontier.insert(id);
    }

    /// How many identifiers are pending in the frontier.
    pub fn pending_count(&self) -> (n: usize)
        ensures
            n == self.pending().len(),
    {
        self.frontier.pending_count()
    }

    /// Declares discovery finished: after this, a run drains every pending
    /// identifier and then shuts the pool down.
    pub fn signal_done(&mut self)
        requires
            old(self).wf(),
        ensures
            final(self).wf(),
            final(self).spec_done(),
            final(self).pending() =~= old(self).pending(),
            final(self).buffer_view() == old(self).buffer_view(),
            final(self).spec_capacity() == old(self).spec_capacity(),
            final(self).spec_workers() == old(self).spec_workers(),
    {
        self.frontier.signal_done();
    }

    /// Drains the frontier through the ring buffer, applies the operation to
    /// each identifier exactly once, then poisons the buffer and stops every
    /// worker.
    ///
    /// Each outcome of the operation is classified by `tally_outcome`: a
    /// success raises the processed count, a failure the failed count. The
    /// totals always reconcile: every identifier fed into the buffer was
    /// taken out and either processed or recorded as failed, none lost, none
    /// duplicated. The buffer is left holding the poison tokens the workers
    /// did not consume.
    pub fn run<Op: WorkOp>(&mut self, op: &mut Op) -> (r: RunReport)
        requires
            old(self).wf(),
            old(self).spec_done(),
            old(self).buffer_view().len() == 0,
        ensures
            final(self).wf(),
            r.fed == old(self).pending().len(),
            r.fed == r.processed + r.failed,
            final(self).pending().len() == 0,
            final(self).spec_done(),
            final(self).spec_capacity() == old(self).spec_capacity(),
            final(self).spec_workers() == old(self).spec_workers(),
            final(self).buffer_view() =~= Seq::new(
                (old(self).spec_capacity() - old(self).spec_workers()) as nat,
                |i: int| None::<String>,
            ),
    {
        let total = self.frontier.pending_count();
        let mut fed: usize = 0;
        let mut processed: usize = 0;
        let mut failed: usize = 0;
        loop
            invariant
                self.wf(),
                self.spec_done(),
                self.buffer_view().len() == 0,
                self.spec_capacity() == old(self).spec_capacity(),
                self.spec_workers() == old(self).spec_workers(),
                fed + self.pending().len() == total,
                fed == processed + failed,
            ensures
                self.wf(),
                self.spec_done(),
                self.buffer_view().len() == 0,
                self.spec_capacity() == old(self).spec_capacity(),
                self.spec_workers() == old(self).spec_workers(),
                self.pending().len() == 0,
                fed == total,
                fed == processed + failed,
            decreases self.pending().len(),
        {
            let r = self.frontier.take_one();
            match r {
                FrontierResult::Identifier(id) => {
                    self.buffer.enqueue(id);
                    fed = fed + 1;
                    let item = self.buffer.dequeue();
                    match worker_step(item) {
                        WorkerAction::Apply(job) => {
                            let outcome = op.apply(&job);
                            let counts = tally_outcome(&outcome, processed, failed);
                            processed = counts.0;
                            failed = counts.1;
                        },
                        WorkerAction::Stop => {
                            proof {
                                assert(false);
                            }
                        },
                    }
                },
                FrontierResult::Done => {
                    break ;
                },
                FrontierResult::Empty => {
                    proof {
                        assert(false);
                    }
                    break ;
                },
            }
        }
        self.buffer.poison();
        let mut stopped: usize = 0;
        let workers = self.workers;
        while stopped < workers
            invariant
                self.wf(),
                self.spec_done(),
                stopped <= workers,
                workers as int == self.spec_workers(),
                self.spec_capacity() == old(self).spec_capacity(),
                self.spec_workers() == old(self).spec_workers(),
                self.pending().len() == 0,
                fed == processed + failed,
                fed == total,
                self.buffer_view().len() == self.spec_capacity() - stopped,
                forall|i: int| 0 <= i < self.buffer_view().len() ==> self.buffer_view()[i] is None,
            decreases workers - stopped,
        {
            let item = self.buffer.dequeue();
            match worker_step(item) {
                WorkerAction::Stop => {
                    stopped = stopped + 1;
                },
                WorkerAction::Apply(_) => {
                    proof {
                        assert(false);
                    }
                },
            }
        }
        RunReport { fed, processed, failed }
    }
}

/// The accounting of one outcome of the per-item operation: a success and
/// nothing else raises the processed count, a failure and nothing else the
/// failed count. Workers feed every outcome through here, so the processed
/// total counts exactly the successful operations.
pub fn tally_outcome(outcome: &Result<(), String>, processed: usize, failed: usize) -> (r: (
    usize,
    usize,
))
    requires
        processed + failed < usize::MAX,
    ensures
        outcome is Ok ==> r == (((processed + 1) as usize), failed),
        outcome is Err ==> r == (processed, ((failed + 1) as usize)),
{
    match outcome {
        Ok(_) => (processed + 1, failed),
        Err(_) => (processed, failed + 1),
    }
}

/// The shutdown reconciliation: the count of identifiers the feeders moved
/// into the buffer must equal what the workers took out, split into
/// successes and failures. A mismatch means an item was lost or duplicated
/// somewhere; the caller treats it as fatal instead of reporting a wrong
/// total.
pub fn reconcile_counts(fed: usize, processed: usize, failed: usize) -> (r: Option<usize>)
    ensures
        r == (if fed == processed + failed {
            Some(processed)
        } else {
            None::<usize>
        }),
{
    if failed <= fed && processed == fed - failed {
        Some(processed)
    } else {
        None
    }
}

} // verus!
