//! The worker pool: a fixed set of workers, a shared first-in-first-out task
//! queue with a closable sending side, and a teardown that drains the queue
//! and joins every worker exactly once.
//!
//! Tasks are opaque to the pool, so they appear here as `u64` labels chosen by
//! the caller; the embedding program keeps the label-to-callable pairing and
//! runs the callable whenever the pool decides a task is taken.

use crate::tally::lemma_occurrences_concat;
use crate::tally::occurrences;
use vstd::prelude::*;

verus! {

/// What one attempt to take a task from the shared queue came back with:
/// either the next task, or the report that the sending side is closed and
/// the queue empty.
#[derive(Debug, PartialEq, Eq, Structural)]
pub enum Received {
    Job(u64),
    Closed,
}

/// What a worker does after one such attempt: run the task it was handed, or
/// leave its loop for good.
#[derive(Debug, PartialEq, Eq, Structural)]
pub enum Action {
    Run(u64),
    Exit,
}

/// Why a submission was refused.
#[derive(Debug, PartialEq, Eq, Structural)]
pub enum PoolError {
    /// The sending side of the queue is already closed: shutdown has begun and
    /// no further task is accepted.
    ShutDown,
}

/// One worker of the pool. `running` says whether its thread is still inside
/// the worker loop; `handle_present` says whether the pool still holds the
/// thread's join handle, which teardown takes exactly once.
#[derive(Debug, PartialEq, Eq, Structural)]
pub struct Worker {
    pub id: usize,
    pub running: bool,
    pub handle_present: bool,
}

impl Worker {
    /// A freshly spawned worker: in its loop, join handle still held.
    fn new(id: usize) -> (w: Worker)
        ensures
            w.id == id,
            w.running,
            w.handle_present,
    {
        Worker { id, running: true, handle_present: true }
    }

    /// The decision at the heart of the worker loop: run whatever job was
    /// received, and exit the loop exactly when the queue reports itself
    /// closed.
    pub fn step(msg: Received) -> (a: Action)
        ensures
            (match msg {
                Received::Job(t) => a == Action::Run(t),
                Received::Closed => a == Action::Exit,
            }),
    {
        match msg {
            Received::Job(t) => Action::Run(t),
            Received::Closed => Action::Exit,
        }
    }
}

/// The pool itself: the workers in construction order, whether the sending
/// side of the shared queue is still open, the tasks sent but not yet taken
/// (`pending`, front first), and the tasks already taken and run
/// (`completed`, in the order they were taken). The ghost `submitted` records
/// every task `execute` ever accepted, in submission order.
pub struct ThreadPool {
    pub workers: Vec<Worker>,
    pub sender_open: bool,
    pub pending: Vec<u64>,
    pub completed: Vec<u64>,
    pub submitted: Ghost<Seq<u64>>,
}

impl ThreadPool {
    /// Well-formedness: every submitted task is either still pending or
    /// already completed, in submission order; worker ids are their positions;
    /// and a worker whose join handle is gone is no longer running.
    pub open spec fn wf(self) -> bool {
        &&& self.completed@ + self.pending@ == self.submitted@
        &&& forall|i: int|
            0 <= i < self.workers@.len() ==> (#[trigger] self.workers@[i]).id == i
        &&& forall|i: int|
            0 <= i < self.workers@.len() ==> !(#[trigger] self.workers@[i]).handle_present
                ==> !self.workers@[i].running
    }

    /// Create a pool of exactly `count` live workers, with an open, empty
    /// queue. A pool of zero workers is a configuration error and is ruled
    /// out up front.
    pub fn new(count: usize) -> (pool: ThreadPool)
        requires
            count >= 1,
        ensures
            pool.wf(),
            pool.workers@.len() == count,
            forall|i: int|
                0 <= i < count ==> (#[trigger] pool.workers@[i]).id == i
                    && pool.workers@[i].running && pool.workers@[i].handle_present,
            pool.sender_open,
            pool.pending@ == Seq::<u64>::empty(),
            pool.completed@ == Seq::<u64>::empty(),
            pool.submitted@ == Seq::<u64>::empty(),
    {
        let mut workers: Vec<Worker> = Vec::new();
        let mut id: usize = 0;
        while id < count
            invariant
                id <= count,
                workers@.len() == id,
                forall|i: int|
                    0 <= i < id ==> (#[trigger] workers@[i]).id == i && workers@[i].running
                        && workers@[i].handle_present,
            decreases count - id,
        {
            workers.push(Worker::new(id));
            id = id + 1;
        }
        let pool = ThreadPool {
            workers,
            sender_open: true,
            pending: Vec::new(),
            completed: Vec::new(),
            submitted: Ghost(Seq::empty()),
        };
        proof {
            assert(pool.completed@ + pool.pending@ =~= pool.submitted@);
        }
        pool
    }

    /// Submit a task. It is accepted, and queued behind every task submitted
    /// before it, exactly when shutdown has not begun; once the sending side
    /// is closed the task is refused, never silently dropped. The caller is
    /// not blocked and nothing else about the pool changes.
    pub fn execute(&mut self, task: u64) -> (r: Result<(), PoolError>)
        requires
            old(self).wf(),
        ensures
            final(self).wf(),
            old(self).sender_open ==> r == Ok::<(), PoolError>(())
                && final(self).pending@ == old(self).pending@.push(task)
                && final(self).submitted@ == old(self).submitted@.push(task),
            !old(self).sender_open ==> r == Err::<(), PoolError>(PoolError::ShutDown)
                && final(self).pending@ == old(self).pending@
                && final(self).submitted@ == old(self).submitted@,
            final(self).completed@ == old(self).completed@,
            final(self).workers@ == old(self).workers@,
            final(self).sender_open == old(self).sender_open,
    {
        if self.sender_open {
            self.pending.push(task);
            self.submitted = Ghost(self.submitted@.push(task));
            proof {
                assert(self.completed@ + self.pending@ =~= (old(self).completed@
                    + old(self).pending@).push(task));
            }
            Ok(())
        } else {
            Err(PoolError::ShutDown)
        }
    }

    /// One scheduling step: worker `wid`, idle and still in its loop, takes
    /// the task at the front of the queue, if any, and runs it to completion.
    /// The front task is removed whichever worker takes it — delivery is at
    /// most once — and which worker was picked changes nothing observable.
    #[allow(unused_variables)]
    pub fn run_one(&mut self, wid: usize) -> (r: Option<u64>)
        requires
            old(self).wf(),
            wid < old(self).workers@.len(),
            old(self).workers@[wid as int].running,
        ensures
            final(self).wf(),
            old(self).pending@.len() > 0 ==> r == Some(old(self).pending@[0])
                && final(self).pending@ == old(self).pending@.drop_first()
                && final(self).completed@ == old(self).completed@.push(old(self).pending@[0]),
            old(self).pending@.len() == 0 ==> r == None::<u64>
                && final(self).pending@ == old(self).pending@
                && final(self).completed@ == old(self).completed@,
            final(self).workers@ == old(self).workers@,
            final(self).sender_open == old(self).sender_open,
            final(self).submitted@ == old(self).submitted@,
    {
        if self.pending.len() > 0 {
            let t = self.pending.remove(0);
            self.completed.push(t);
            proof {
                assert(old(self).pending@.remove(0) =~= old(self).pending@.drop_first());
                assert(self.completed@ + self.pending@ =~= old(self).completed@
                    + old(self).pending@);
            }
            Some(t)
        } else {
            None
        }
    }

    /// Teardown. Closes the sending side — the one signal the workers get
    /// that no further task will arrive — then lets the workers drain every
    /// task submitted before the close, and joins each worker in
    /// construction order, taking each join handle exactly once. When it
    /// returns, no task accepted by `execute` has been abandoned and no
    /// worker thread is left running or unjoined. Calling it on a pool that
    /// is already torn down finds nothing pending and no handle left, and
    /// changes nothing.
    pub fn shutdown(&mut self)
        requires
            old(self).wf(),
        ensures
            final(self).wf(),
            !final(self).sender_open,
            final(self).pending@.len() == 0,
            final(self).completed@ == old(self).completed@ + old(self).pending@,
            final(self).completed@ == old(self).submitted@,
            final(self).submitted@ == old(self).submitted@,
            final(self).workers@.len() == old(self).workers@.len(),
            forall|i: int|
                0 <= i < old(self).workers@.len() ==> (#[trigger] final(self).workers@[i]).id
                    == old(self).workers@[i].id && !final(self).workers@[i].running
                    && !final(self).workers@[i].handle_present,
    {
        self.sender_open = false;
        while self.pending.len() > 0
            invariant
                self.completed@ + self.pending@ == old(self).completed@ + old(self).pending@,
                self.workers@ == old(self).workers@,
                !self.sender_open,
                self.submitted == old(self).submitted,
            decreases self.pending@.len(),
        {
            let t = self.pending.remove(0);
            self.completed.push(t);
            proof {
                assert(self.completed@ + self.pending@ =~= old(self).completed@
                    + old(self).pending@);
            }
        }
        let mut i: usize = 0;
        while i < self.workers.len()
            invariant
                old(self).wf(),
                i <= self.workers@.len(),
                self.workers@.len() == old(self).workers@.len(),
                forall|j: int|
                    0 <= j < i ==> (#[trigger] self.workers@[j]).id == old(self).workers@[j].id
                        && !self.workers@[j].running && !self.workers@[j].handle_present,
                forall|j: int|
                    i <= j < self.workers@.len() ==> #[trigger] self.workers@[j]
                        == old(self).workers@[j],
                self.completed@ == old(self).completed@ + old(self).pending@,
                self.pending@.len() == 0,
                !self.sender_open,
                self.submitted == old(self).submitted,
            decreases self.workers@.len() - i,
        {
            if self.workers[i].handle_present {
                // take the handle out, once, and join: with the queue closed
                // and drained the thread leaves its loop, so the join returns
                self.workers[i].handle_present = false;
                self.workers[i].running = false;
            }
            i = i + 1;
        }
        proof {
            assert(self.completed@ =~= self.submitted@);
            assert(self.completed@ + self.pending@ =~= self.submitted@);
        }
    }
}

/// At-most-once delivery: in any well-formed pool, the tasks already run and
/// the tasks still pending together account for each submitted task exactly
/// once. In particular, a task submitted once is never run twice.
pub proof fn lemma_at_most_once_delivery(p: ThreadPool)
    requires
        p.wf(),
    ensures
        p.completed@ + p.pending@ == p.submitted@,
        forall|t: u64|
            #[trigger] occurrences(p.completed@, t) + occurrences(p.pending@, t)
                == occurrences(p.submitted@, t),
        forall|t: u64|
            occurrences(p.submitted@, t) <= 1 ==> #[trigger] occurrences(p.completed@, t) <= 1,
{
    assert forall|t: u64|
        #[trigger] occurrences(p.completed@, t) + occurrences(p.pending@, t)
            == occurrences(p.submitted@, t) by {
        lemma_occurrences_concat(p.completed@, p.pending@, t);
    }
}

/// First-in, first-out delivery: the tasks already run are exactly the
/// earliest submitted ones, in submission order, and the pending tasks are
/// the rest, still in submission order.
pub proof fn lemma_fifo_delivery(p: ThreadPool)
    requires
        p.wf(),
    ensures
        p.completed@ == p.submitted@.take(p.completed@.len() as int),
        p.pending@ == p.submitted@.skip(p.completed@.len() as int),
{
    assert(p.completed@ =~= p.submitted@.take(p.completed@.len() as int));
    assert(p.pending@ =~= p.submitted@.skip(p.completed@.len() as int));
}

/// No lost work: once the queue is drained — as it is whenever `shutdown` has
/// returned — every task ever accepted by `execute` has been run, each
/// exactly once, in submission order.
pub proof fn lemma_drained_runs_all(p: ThreadPool)
    requires
        p.wf(),
        p.pending@.len() == 0,
    ensures
        p.completed@ == p.submitted@,
        forall|t: u64|
            #[trigger] occurrences(p.completed@, t) == occurrences(p.submitted@, t),
{
    assert(p.completed@ =~= p.submitted@);
}

} // verus!
