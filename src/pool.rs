use vstd::prelude::*;

use crate::message::{
    jobs_before_signals, jobs_of, lemma_all_jobs, lemma_all_signals, lemma_front, lemma_push,
    terminate_count, Message,
};
use crate::worker::{
    is_live, lemma_all_live, lemma_live_update, lemma_no_live_counts_zero,
    lemma_some_live, live_count,
    WorkerState,
};

verus! {

/// Why the pool refused a request.
#[derive(Clone, Copy, Debug, PartialEq, Eq, Structural)]
pub enum PoolError {
    /// A pool needs at least one worker.
    ZeroSize,
    /// Shutdown has begun: no job is taken any more.
    Closed,
}

/// The abstract state of a pool.
pub struct PoolView<J> {
    /// The dispatch queue, front first.
    pub queue: Seq<Message<J>>,
    /// The state of each worker; a worker's identity is its index.
    pub workers: Seq<WorkerState>,
    /// Whether shutdown has begun.
    pub closed: bool,
    /// Every job accepted so far, in the order of acceptance.
    pub submitted: Seq<J>,
    /// Every job handed to a worker so far, in the order of delivery.
    pub delivered: Seq<J>,
}

impl<J> PoolView<J> {
    /// The pool is well formed: it has a worker; every job waits in front of
    /// every signal; before shutdown there is no signal and no worker has
    /// left; after it there is one signal per worker still in its loop; once
    /// any worker has left, only signals remain; and each accepted job has
    /// either been delivered or is waiting, in the order of acceptance.
    pub open spec fn inv(self) -> bool {
        &&& self.workers.len() > 0
        &&& jobs_before_signals(self.queue)
        &&& !self.closed ==> forall|i: int|
            0 <= i < self.queue.len() ==> (#[trigger] self.queue[i]) is NewJob
        &&& !self.closed ==> forall|w: int|
            0 <= w < self.workers.len() ==> is_live(#[trigger] self.workers[w])
        &&& self.closed ==> terminate_count(self.queue) == live_count(self.workers)
        &&& forall|w: int, i: int|
            0 <= w < self.workers.len() && 0 <= i < self.queue.len() && (
            #[trigger] self.workers[w]) is Terminated ==> (#[trigger] self.queue[i]) is Terminate
        &&& self.submitted == self.delivered + jobs_of(self.queue)
    }
}

/// The decisions of a fixed-size worker pool: one FIFO dispatch queue shared
/// by all workers, the state of each worker, and the shutdown protocol. The
/// threads that run the jobs hold it behind a lock and report to it.
pub struct PoolState<J> {
    queue: std::collections::VecDeque<Message<J>>,
    workers: Vec<WorkerState>,
    closed: bool,
    submitted: Ghost<Seq<J>>,
    delivered: Ghost<Seq<J>>,
}

impl<J> View for PoolState<J> {
    type V = PoolView<J>;

    closed spec fn view(&self) -> PoolView<J> {
        PoolView {
            queue: self.queue@,
            workers: self.workers@,
            closed: self.closed,
            submitted: self.submitted@,
            delivered: self.delivered@,
        }
    }
}

/// The identities that shutdown joins, in order: every worker's index once.
pub open spec fn join_ids(n: nat) -> Seq<usize> {
    Seq::new(n, |i: int| i as usize)
}

impl<J> PoolState<J> {
    pub open spec fn wf(&self) -> bool {
        self@.inv()
    }

    /// A pool of `size` idle workers with an empty queue; no pool without workers.
    pub fn new(size: usize) -> (r: Result<Self, PoolError>)
        ensures
            size == 0 ==> r == Err::<Self, PoolError>(PoolError::ZeroSize),
            size > 0 ==> r is Ok,
            r matches Ok(p) ==> {
                &&& p.wf()
                &&& p@.workers == Seq::new(size as nat, |w: int| WorkerState::Idle)
                &&& p@.queue == Seq::<Message<J>>::empty()
                &&& !p@.closed
                &&& p@.submitted == Seq::<J>::empty()
                &&& p@.delivered == Seq::<J>::empty()
            },
    {
        if size == 0 {
            return Err(PoolError::ZeroSize);
        }
        let mut workers: Vec<WorkerState> = Vec::with_capacity(size);
        let mut i: usize = 0;
        while i < size
            invariant
                i <= size,
                workers@ == Seq::new(i as nat, |w: int| WorkerState::Idle),
            decreases size - i,
        {
            workers.push(WorkerState::Idle);
            i = i + 1;
            assert(workers@ =~= Seq::new(i as nat, |w: int| WorkerState::Idle));
        }
        let p = PoolState {
            queue: std::collections::VecDeque::new(),
            workers,
            closed: false,
            submitted: Ghost(Seq::empty()),
            delivered: Ghost(Seq::empty()),
        };
        proof {
            assert(p@.submitted =~= p@.delivered + jobs_of(p@.queue));
        }
        Ok(p)
    }

    /// Queues `job` behind every message already waiting; refused once
    /// shutdown has begun. It never waits for a worker: acceptance depends on
    /// nothing but whether the pool is still open.
    pub fn execute(&mut self, job: J) -> (r: Result<(), PoolError>)
        requires
            old(self).wf(),
        ensures
            final(self).wf(),
            old(self)@.closed ==> r == Err::<(), PoolError>(PoolError::Closed),
            !old(self)@.closed ==> r == Ok::<(), PoolError>(()),
            old(self)@.closed ==> final(self)@ == old(self)@,
            !old(self)@.closed ==> {
                &&& final(self)@.queue == old(self)@.queue.push(Message::NewJob(job))
                &&& final(self)@.submitted == old(self)@.submitted.push(job)
                &&& final(self)@.workers == old(self)@.workers
                &&& final(self)@.delivered == old(self)@.delivered
                &&& !final(self)@.closed
            },
    {
        if self.closed {
            return Err(PoolError::Closed);
        }
        proof {
            lemma_push(self.queue@, Message::NewJob(job));
        }
        let ghost j = job;
        self.queue.push_back(Message::NewJob(job));
        self.submitted = Ghost(self.submitted@.push(j));
        proof {
            assert(self@.submitted =~= self@.delivered + jobs_of(self@.queue));
        }
        Ok(())
    }

    /// Worker `id`, idle, takes the front message if there is one. A job
    /// makes it `Executing`; `Terminate` makes it `Terminated`. With the queue
    /// empty nothing changes and the worker has to wait.
    pub fn receive(&mut self, id: usize) -> (r: Option<Message<J>>)
        requires
            old(self).wf(),
            id < old(self)@.workers.len(),
            old(self)@.workers[id as int] is Idle,
        ensures
            final(self).wf(),
            old(self)@.queue.len() == 0 <==> r is None,
            r is None ==> final(self)@ == old(self)@,
            r is Some ==> {
                &&& r == Some(old(self)@.queue[0])
                &&& final(self)@.queue == old(self)@.queue.subrange(1, old(self)@.queue.len() as int)
                &&& final(self)@.closed == old(self)@.closed
                &&& final(self)@.submitted == old(self)@.submitted
            },
            r matches Some(Message::NewJob(j)) ==> {
                &&& final(self)@.workers == old(self)@.workers.update(id as int, WorkerState::Executing)
                &&& final(self)@.delivered == old(self)@.delivered.push(j)
            },
            r matches Some(Message::Terminate) ==> {
                &&& final(self)@.workers == old(self)@.workers.update(id as int, WorkerState::Terminated)
                &&& final(self)@.delivered == old(self)@.delivered
            },
    {
        let ghost q = self.queue@;
        let ghost ws = self.workers@;
        let m = self.queue.pop_front();
        match m {
            None => None,
            Some(Message::NewJob(job)) => {
                proof {
                    lemma_front(q);
                    lemma_live_update(ws, id as int, WorkerState::Executing);
                }
                let ghost j = job;
                self.workers.set(id, WorkerState::Executing);
                self.delivered = Ghost(self.delivered@.push(j));
                proof {
                    assert(self@.submitted =~= self@.delivered + jobs_of(self@.queue));
                    assert forall|w: int, i: int|
                        0 <= w < self@.workers.len() && 0 <= i < self@.queue.len() && (
                        #[trigger] self@.workers[w]) is Terminated implies (
                        #[trigger] self@.queue[i]) is Terminate by {
                        assert(ws[w] is Terminated);
                        assert(q[i + 1] == self@.queue[i]);
                    }
                }
                Some(Message::NewJob(job))
            },
            Some(Message::Terminate) => {
                proof {
                    lemma_front(q);
                    lemma_live_update(ws, id as int, WorkerState::Terminated);
                }
                self.workers.set(id, WorkerState::Terminated);
                proof {
                    assert(self@.submitted =~= self@.delivered + jobs_of(self@.queue));
                    assert forall|w: int, i: int|
                        0 <= w < self@.workers.len() && 0 <= i < self@.queue.len() && (
                        #[trigger] self@.workers[w]) is Terminated implies (
                        #[trigger] self@.queue[i]) is Terminate by {
                        assert(q[0] is Terminate);
                        assert(q[i + 1] == self@.queue[i]);
                    }
                }
                Some(Message::Terminate)
            },
        }
    }

    /// Worker `id` reports that the job it was running has returned; it is
    /// idle again.
    pub fn finish(&mut self, id: usize)
        requires
            old(self).wf(),
            id < old(self)@.workers.len(),
            old(self)@.workers[id as int] is Executing,
        ensures
            final(self).wf(),
            final(self)@.workers == old(self)@.workers.update(id as int, WorkerState::Idle),
            final(self)@.queue == old(self)@.queue,
            final(self)@.closed == old(self)@.closed,
            final(self)@.submitted == old(self)@.submitted,
            final(self)@.delivered == old(self)@.delivered,
    {
        proof {
            lemma_live_update(self.workers@, id as int, WorkerState::Idle);
        }
        self.workers.set(id, WorkerState::Idle);
    }

    /// Begins shutdown: queues exactly one `Terminate` per worker behind every
    /// job already waiting, closes the pool to new jobs, and returns the
    /// identities of the workers to join, each once. The signals are all
    /// queued before the caller gets a single identity to join. Once closed,
    /// a further call changes nothing and returns no identity.
    pub fn shutdown(&mut self) -> (r: Vec<usize>)
        requires
            old(self).wf(),
        ensures
            final(self).wf(),
            final(self)@.closed,
            final(self)@.workers == old(self)@.workers,
            final(self)@.submitted == old(self)@.submitted,
            final(self)@.delivered == old(self)@.delivered,
            old(self)@.closed ==> final(self)@ == old(self)@ && r@ == Seq::<usize>::empty(),
            !old(self)@.closed ==> {
                &&& final(self)@.queue == old(self)@.queue + Seq::new(
                    old(self)@.workers.len(),
                    |i: int| Message::<J>::Terminate,
                )
                &&& r@ == join_ids(old(self)@.workers.len())
            },
    {
        if self.closed {
            return Vec::new();
        }
        let ghost q0 = self.queue@;
        let ghost before = self@;
        let n = self.workers.len();
        proof {
            lemma_all_jobs(q0);
            lemma_all_live(self.workers@);
        }
        let mut ids: Vec<usize> = Vec::with_capacity(n);
        let mut i: usize = 0;
        while i < n
            invariant
                i <= n,
                n == self.workers@.len(),
                self.workers@ == before.workers,
                self.submitted@ == before.submitted,
                self.delivered@ == before.delivered,
                !self.closed,
                self.queue@ == q0 + Seq::new(i as nat, |k: int| Message::<J>::Terminate),
                terminate_count(self.queue@) == i,
                jobs_of(self.queue@) == jobs_of(q0),
                ids@ == join_ids(i as nat),
            decreases n - i,
        {
            proof {
                lemma_push(self.queue@, Message::Terminate);
            }
            self.queue.push_back(Message::Terminate);
            ids.push(i);
            i = i + 1;
            assert(self.queue@ =~= q0 + Seq::new(i as nat, |k: int| Message::<J>::Terminate));
            assert(ids@ =~= join_ids(i as nat));
        }
        self.closed = true;
        proof {
            let q = self.queue@;
            assert forall|a: int, b: int|
                0 <= a < b < q.len() && (#[trigger] q[a]) is Terminate implies (
                #[trigger] q[b]) is Terminate by {
                if b < q0.len() {
                    assert(q0[a] is NewJob);
                }
            }
        }
        ids
    }

    /// The number of workers, fixed for the pool's life.
    pub fn size(&self) -> (r: usize)
        ensures
            r == self@.workers.len(),
    {
        self.workers.len()
    }

    /// Whether shutdown has begun.
    pub fn is_closed(&self) -> (r: bool)
        ensures
            r == self@.closed,
    {
        self.closed
    }

    /// The number of messages waiting in the queue.
    pub fn pending(&self) -> (r: usize)
        ensures
            r == self@.queue.len(),
    {
        self.queue.len()
    }

    /// The state of worker `id`.
    pub fn worker_state(&self, id: usize) -> (r: WorkerState)
        requires
            id < self@.workers.len(),
        ensures
            r == self@.workers[id as int],
    {
        self.workers[id]
    }
}

/// A pool of `size` workers joins each of its workers exactly once at shutdown:
/// the identities that shutdown hands out are `size` in number, distinct, and
/// cover every worker.
pub proof fn lemma_join_each_worker_once(size: usize)
    requires
        size > 0,
    ensures
        join_ids(size as nat).len() == size,
        join_ids(size as nat).no_duplicates(),
        forall|w: int| 0 <= w < size ==> join_ids(size as nat)[w] == w,
        forall|w: usize| w < size ==> join_ids(size as nat).contains(w),
{
    let ids = join_ids(size as nat);
    assert forall|w: int| 0 <= w < size implies ids[w] == w by {}
    assert forall|w: usize| w < size implies ids.contains(w) by {
        assert(ids[w as int] == w);
    }
}

/// Jobs reach workers in the order in which they were accepted, each at most
/// once, however the calls of the callers and the workers interleave: what has
/// been delivered is a prefix of what was submitted, and the rest is waiting
/// in the queue.
pub proof fn lemma_delivered_in_order<J>(p: &PoolState<J>)
    requires
        p.wf(),
    ensures
        p@.delivered.len() <= p@.submitted.len(),
        p@.delivered == p@.submitted.subrange(0, p@.delivered.len() as int),
        p@.submitted.subrange(p@.delivered.len() as int, p@.submitted.len() as int) == jobs_of(
            p@.queue,
        ),
{
    let v = p@;
    assert(v.delivered =~= v.submitted.subrange(0, v.delivered.len() as int));
    assert(v.submitted.subrange(v.delivered.len() as int, v.submitted.len() as int) =~= jobs_of(
        v.queue,
    ));
}

/// Once shutdown has begun, the queue holds exactly one `Terminate` for each
/// worker still in its loop, so no such worker can wait on an empty queue.
pub proof fn lemma_no_worker_left_blocked<J>(p: &PoolState<J>)
    requires
        p.wf(),
        p@.closed,
    ensures
        terminate_count(p@.queue) == live_count(p@.workers),
        forall|w: int|
            0 <= w < p@.workers.len() && is_live(#[trigger] p@.workers[w]) ==> p@.queue.len() > 0,
{
    assert forall|w: int|
        0 <= w < p@.workers.len() && is_live(#[trigger] p@.workers[w]) implies p@.queue.len()
        > 0 by {
        lemma_some_live(p@.workers, w);
    }
}

/// When every worker has left its loop, every accepted job has been handed to
/// a worker exactly once, in the order of acceptance, and the queue is empty.
pub proof fn lemma_all_jobs_run_once<J>(p: &PoolState<J>)
    requires
        p.wf(),
        forall|w: int| 0 <= w < p@.workers.len() ==> (#[trigger] p@.workers[w]) is Terminated,
    ensures
        p@.queue.len() == 0,
        p@.delivered == p@.submitted,
{
    let v = p@;
    assert(v.workers[0] is Terminated);
    assert(v.closed);
    assert forall|i: int| 0 <= i < v.queue.len() implies (#[trigger] v.queue[i]) is Terminate by {
        assert(v.workers[0] is Terminated);
    }
    lemma_all_signals(v.queue);
    assert forall|w: int| 0 <= w < v.workers.len() implies !is_live(#[trigger] v.workers[w]) by {}
    lemma_no_live_counts_zero(v.workers);
    assert(v.submitted =~= v.delivered);
}

} // verus!
