//! The bounded worker pool: jobs, the dispatch queue, workers and the pool.
//!
//! A `WorkerPool` owns between `WORKER_POOL_MIN_SIZE` and
//! `WORKER_POOL_MAX_SIZE` workers and one FIFO queue of `JobMessage`s.
//! `execute` appends a job to the queue; dispatching hands each queued job
//! to exactly one running worker, in submission order; `shutdown` enqueues
//! one `Terminate` sentinel per worker and drains the queue, after which
//! every worker has terminated and no further job is accepted.
//!
//! Two ghost logs record the history: `submitted` holds the ids of all jobs
//! the queue ever accepted, `dispatched` the ids of all jobs handed to a
//! worker, both in order. The pool invariant says that `submitted` is
//! exactly `dispatched` followed by the ids still waiting in the queue,
//! which is the exactly-once and FIFO guarantee in one line.

use vstd::prelude::*;

verus! {

use vstd::string::StringExecFns;

/// A one-shot unit of work. Any concrete job type implements this; the
/// pool never looks inside and makes no promise about what `run` does.
pub trait JobAction: Sized {
    fn run(self);
}

/// An opaque unit of work with a diagnostic identity.
pub struct Job<A: JobAction> {
    /// Diagnostic identity, drawn at random on construction.
    pub id: u128,
    /// The one-shot action a worker executes.
    pub action: A,
}

/// Relies on `uuid::Uuid::new_v4` (and `as_u128` to read its bits): the
/// value is 128 random bits, so nothing is assumed of it.
#[verifier::external_body]
fn fresh_job_id() -> u128 {
    uuid::Uuid::new_v4().as_u128()
}

impl<A: JobAction> Job<A> {
    /// Wrap an action as a job with a fresh diagnostic id.
    pub fn new(action: A) -> (j: Job<A>)
        ensures
            j.action == action,
    {
        Job { id: fresh_job_id(), action }
    }
}

/// One entry of the dispatch queue: either work, or the shutdown sentinel
/// that tells exactly one worker to terminate after receipt.
pub enum JobMessage<A: JobAction> {
    NewJob(Job<A>),
    Terminate,
}

/// The ids of the jobs in a queue fragment, in queue order; `Terminate`
/// sentinels carry no job and contribute nothing.
pub open spec fn queue_job_ids<A: JobAction>(q: Seq<JobMessage<A>>) -> Seq<u128>
    decreases q.len(),
{
    if q.len() == 0 {
        Seq::empty()
    } else {
        match q[0] {
            JobMessage::NewJob(job) => seq![job.id] + queue_job_ids(q.drop_first()),
            JobMessage::Terminate => queue_job_ids(q.drop_first()),
        }
    }
}

/// Appending one message to a queue appends that message's job id (or
/// nothing, for a sentinel) to the queue's job ids.
pub proof fn lemma_queue_job_ids_push<A: JobAction>(q: Seq<JobMessage<A>>, m: JobMessage<A>)
    ensures
        queue_job_ids(q.push(m)) == queue_job_ids(q) + match m {
            JobMessage::NewJob(job) => seq![job.id],
            JobMessage::Terminate => Seq::<u128>::empty(),
        },
    decreases q.len(),
{
    if q.len() == 0 {
        assert(q.push(m)[0] == m);
        assert(q.push(m).drop_first() =~= Seq::<JobMessage<A>>::empty());
        assert(queue_job_ids(Seq::<JobMessage<A>>::empty()) == Seq::<u128>::empty());
        assert(queue_job_ids(q) == Seq::<u128>::empty());
        assert(queue_job_ids(q.push(m)) =~= queue_job_ids(q) + match m {
            JobMessage::NewJob(job) => seq![job.id],
            JobMessage::Terminate => Seq::<u128>::empty(),
        });
    } else {
        assert(q.push(m)[0] == q[0]);
        assert(q.push(m).drop_first() =~= q.drop_first().push(m));
        lemma_queue_job_ids_push(q.drop_first(), m);
        assert(queue_job_ids(q.push(m)) =~= queue_job_ids(q) + match m {
            JobMessage::NewJob(job) => seq![job.id],
            JobMessage::Terminate => Seq::<u128>::empty(),
        });
    }
}

/// A worker is either pulling messages or has consumed its sentinel.
#[derive(Debug)]
pub enum WorkerState {
    Running,
    Terminated,
}

/// One pool slot: a small integer identity and the slot's state. It lives
/// for the pool's lifetime and leaves `Running` only on a sentinel.
pub struct Worker {
    pub id: u16,
    pub state: WorkerState,
}

impl Worker {
    /// A fresh worker starts in `Running`, blocking on the next message.
    pub fn new(id: u16) -> (w: Worker)
        ensures
            w.id == id,
            w.state is Running,
    {
        Worker { id, state: WorkerState::Running }
    }

    /// Consume one dispatch message: run a job to completion and keep
    /// pulling, or consume the sentinel and terminate.
    pub fn handle<A: JobAction>(&mut self, msg: JobMessage<A>)
        requires
            old(self).state is Running,
        ensures
            final(self).id == old(self).id,
            msg is NewJob ==> final(self).state is Running,
            msg is Terminate ==> final(self).state is Terminated,
    {
        match msg {
            JobMessage::NewJob(job) => {
                job.action.run();
            },
            JobMessage::Terminate => {
                self.state = WorkerState::Terminated;
            },
        }
    }
}

/// The fewest workers a pool may have.
pub const WORKER_POOL_MIN_SIZE: usize = 1;

/// The most workers a pool may have.
pub const WORKER_POOL_MAX_SIZE: usize = 16;

/// Why constructing a pool failed.
#[derive(Debug)]
pub enum WorkerPoolNewErrorKind {
    /// The requested size lies outside `[WORKER_POOL_MIN_SIZE, WORKER_POOL_MAX_SIZE]`.
    InvalidSize,
    /// A failure reported by a caller through `new` (the generic constructor).
    Unspecified,
}

/// Error returned when a pool cannot be constructed.
#[derive(Debug)]
pub struct WorkerPoolNewError {
    pub kind: WorkerPoolNewErrorKind,
    pub msg: String,
}

impl WorkerPoolNewError {
    pub fn new(msg: String) -> (e: WorkerPoolNewError)
        ensures
            e.msg@ == msg@,
            e.kind is Unspecified,
    {
        WorkerPoolNewError { kind: WorkerPoolNewErrorKind::Unspecified, msg }
    }

    fn invalid_size() -> (e: WorkerPoolNewError)
        ensures
            e.kind is InvalidSize,
    {
        WorkerPoolNewError {
            kind: WorkerPoolNewErrorKind::InvalidSize,
            msg: String::from_str("invalid worker pool size"),
        }
    }
}

/// Why a submission failed.
#[derive(Debug)]
pub enum WorkerPoolExecuteErrorKind {
    /// The queue's receiving side is gone: the pool has shut down.
    QueueClosed,
    /// A failure reported by a caller through `new` (the generic constructor).
    Unspecified,
}

/// Error returned when a job cannot be submitted.
#[derive(Debug)]
pub struct WorkerPoolExecuteError {
    pub kind: WorkerPoolExecuteErrorKind,
    pub msg: String,
}

impl WorkerPoolExecuteError {
    pub fn new(msg: String) -> (e: WorkerPoolExecuteError)
        ensures
            e.msg@ == msg@,
            e.kind is Unspecified,
    {
        WorkerPoolExecuteError { kind: WorkerPoolExecuteErrorKind::Unspecified, msg }
    }

    fn queue_closed() -> (e: WorkerPoolExecuteError)
        ensures
            e.kind is QueueClosed,
    {
        WorkerPoolExecuteError {
            kind: WorkerPoolExecuteErrorKind::QueueClosed,
            msg: String::from_str("worker pool is shut down"),
        }
    }
}

/// A fixed set of workers sharing one FIFO dispatch queue.
pub struct WorkerPool<A: JobAction> {
    /// The pool's slots, in slot order; the count is fixed at construction.
    pub workers: Vec<Worker>,
    /// The shared FIFO queue: producers append, dispatch consumes the front.
    pub queue: Vec<JobMessage<A>>,
    /// Whether the queue still accepts work; cleared exactly once, by `shutdown`.
    pub open: bool,
    /// Ghost log: ids of all jobs ever accepted, in submission order.
    pub submitted: Ghost<Seq<u128>>,
    /// Ghost log: ids of all jobs handed to a worker, in dispatch order.
    pub dispatched: Ghost<Seq<u128>>,
    /// Ghost count of `Terminate` sentinels ever enqueued: zero while the
    /// pool is open, exactly one per worker once it has shut down.
    pub stops_enqueued: Ghost<nat>,
}

impl<A: JobAction> WorkerPool<A> {
    /// The pool invariant. Its last line is the heart of the design: what
    /// was submitted is exactly what was dispatched followed by what still
    /// waits, so no job is lost, none is dispatched twice, and dispatch
    /// order is submission order.
    pub open spec fn wf(self) -> bool {
        &&& WORKER_POOL_MIN_SIZE <= self.workers@.len() <= WORKER_POOL_MAX_SIZE
        &&& forall|i: int|
            0 <= i < self.workers@.len() ==> (#[trigger] self.workers@[i]).id == i as u16
        &&& forall|i: int|
            0 <= i < self.workers@.len() ==> (#[trigger] self.workers@[i]).state == (
            if self.open {
                WorkerState::Running
            } else {
                WorkerState::Terminated
            })
        &&& self.open ==> forall|i: int|
            0 <= i < self.queue@.len() ==> (#[trigger] self.queue@[i]) is NewJob
        &&& !self.open ==> self.queue@.len() == 0
        &&& self.stops_enqueued@ == if self.open {
            0nat
        } else {
            self.workers@.len()
        }
        &&& self.submitted@ == self.dispatched@ + queue_job_ids(self.queue@)
    }

    /// How many workers the pool owns.
    pub fn worker_count(&self) -> (n: usize)
        ensures
            n == self.workers@.len(),
    {
        self.workers.len()
    }

    /// Build a pool of exactly `size` workers, all running, sharing an
    /// empty queue. Sizes outside `[WORKER_POOL_MIN_SIZE,
    /// WORKER_POOL_MAX_SIZE]` are rejected, and nothing is constructed.
    pub fn new(size: usize) -> (r: Result<WorkerPool<A>, WorkerPoolNewError>)
        ensures
            r is Ok <==> WORKER_POOL_MIN_SIZE <= size <= WORKER_POOL_MAX_SIZE,
            r matches Ok(p) ==> {
                &&& p.wf()
                &&& p.open
                &&& p.workers@.len() == size
                &&& p.queue@.len() == 0
                &&& p.submitted@ == Seq::<u128>::empty()
                &&& p.dispatched@ == Seq::<u128>::empty()
            },
            r matches Err(e) ==> e.kind is InvalidSize,
    {
        if size < WORKER_POOL_MIN_SIZE || size > WORKER_POOL_MAX_SIZE {
            return Err(WorkerPoolNewError::invalid_size());
        }
        let mut workers: Vec<Worker> = Vec::new();
        let mut i: usize = 0;
        while i < size
            invariant
                i <= size,
                size <= WORKER_POOL_MAX_SIZE,
                workers@.len() == i,
                forall|k: int|
                    0 <= k < i ==> (#[trigger] workers@[k]).id == k as u16
                        && workers@[k].state is Running,
            decreases size - i,
        {
            workers.push(Worker::new(i as u16));
            i = i + 1;
        }
        let pool = WorkerPool {
            workers,
            queue: Vec::new(),
            open: true,
            submitted: Ghost(Seq::empty()),
            dispatched: Ghost(Seq::empty()),
            stops_enqueued: Ghost(0nat),
        };
        assert(queue_job_ids(pool.queue@) =~= Seq::<u128>::empty());
        assert(pool.submitted@ =~= pool.dispatched@ + queue_job_ids(pool.queue@));
        Ok(pool)
    }

    /// Enqueue `Work(job)` on the shared queue. Never blocks for capacity
    /// (the queue is unbounded); fails, changing nothing, exactly when the
    /// pool has shut down. An accepted job's id enters the submission log
    /// at the back: it will be dispatched after everything before it.
    pub fn execute(&mut self, job: Job<A>) -> (r: Result<(), WorkerPoolExecuteError>)
        requires
            old(self).wf(),
        ensures
            final(self).wf(),
            final(self).open == old(self).open,
            final(self).workers@ == old(self).workers@,
            final(self).dispatched@ == old(self).dispatched@,
            final(self).stops_enqueued@ == old(self).stops_enqueued@,
            r is Ok <==> old(self).open,
            old(self).open ==> {
                &&& final(self).queue@ == old(self).queue@.push(JobMessage::NewJob(job))
                &&& final(self).submitted@ == old(self).submitted@.push(job.id)
            },
            !old(self).open ==> {
                &&& r matches Err(e) && e.kind is QueueClosed
                &&& final(self).queue@ == old(self).queue@
                &&& final(self).submitted@ == old(self).submitted@
            },
    {
        if !self.open {
            return Err(WorkerPoolExecuteError::queue_closed());
        }
        let ghost jid = job.id;
        let ghost msg = JobMessage::NewJob(job);
        self.queue.push(JobMessage::NewJob(job));
        proof {
            self.submitted@ = self.submitted@.push(jid);
            lemma_queue_job_ids_push(old(self).queue@, msg);
            assert(self.submitted@ =~= self.dispatched@ + queue_job_ids(self.queue@));
        }
        Ok(())
    }

    /// Dispatch every queued job, in queue (that is, submission) order,
    /// rotating over the running workers; each job is handed to exactly one
    /// worker and run to completion before the next is dequeued. Afterwards
    /// the queue is empty and the dispatch log has caught up with the
    /// submission log. A driver calls this between submissions to make
    /// progress; `shutdown` calls it to drain outstanding work.
    pub fn run_pending(&mut self)
        requires
            old(self).wf(),
        ensures
            final(self).wf(),
            final(self).open == old(self).open,
            final(self).workers@ == old(self).workers@,
            final(self).submitted@ == old(self).submitted@,
            final(self).stops_enqueued@ == old(self).stops_enqueued@,
            final(self).queue@.len() == 0,
            final(self).dispatched@ == old(self).submitted@,
    {
        let n = self.workers.len();
        let mut idx: usize = 0;
        while self.queue.len() > 0
            invariant
                self.wf(),
                idx < n,
                n == self.workers@.len(),
                self.open == old(self).open,
                self.workers@ == old(self).workers@,
                self.submitted@ == old(self).submitted@,
            decreases self.queue@.len(),
        {
            let ghost q0 = self.queue@;
            let ghost ws0 = self.workers@;
            let ghost d0 = self.dispatched@;
            let msg = self.queue.remove(0);
            let ghost gm = msg;
            let mut w = self.workers.remove(idx);
            w.handle(msg);
            self.workers.insert(idx, w);
            proof {
                // The queue was nonempty, so the pool is open and the
                // front message is a job, not a sentinel.
                assert(gm is NewJob);
                let jid = gm->0.id;
                self.dispatched@ = self.dispatched@.push(jid);
                assert(q0.remove(0) =~= q0.drop_first());
                assert(queue_job_ids(q0) == seq![jid] + queue_job_ids(q0.drop_first()));
                assert(self.dispatched@ + queue_job_ids(self.queue@)
                    =~= d0 + queue_job_ids(q0));
                assert(self.workers@ =~= ws0);
            }
            idx = if idx + 1 == n {
                0
            } else {
                idx + 1
            };
        }
        proof {
            assert(queue_job_ids(self.queue@) == Seq::<u128>::empty());
            assert(self.dispatched@ =~= self.dispatched@ + queue_job_ids(self.queue@));
        }
    }

    /// Tear the pool down: drain the outstanding work, enqueue exactly one
    /// `Terminate` sentinel per worker, close the queue, and consume the
    /// sentinels until every worker has terminated. When this returns, no
    /// worker is running, every job accepted before the call has been
    /// dispatched exactly once and in submission order, and `execute`
    /// refuses all further work. Calling it on a pool that is already shut
    /// down is a no-op.
    pub fn shutdown(&mut self)
        requires
            old(self).wf(),
        ensures
            final(self).wf(),
            !final(self).open,
            final(self).workers@.len() == old(self).workers@.len(),
            forall|i: int|
                0 <= i < final(self).workers@.len()
                    ==> (#[trigger] final(self).workers@[i]).state is Terminated,
            final(self).queue@.len() == 0,
            final(self).submitted@ == old(self).submitted@,
            final(self).dispatched@ == old(self).submitted@,
            final(self).stops_enqueued@ == final(self).workers@.len(),
    {
        if !self.open {
            proof {
                assert(queue_job_ids(self.queue@) == Seq::<u128>::empty());
                assert(self.dispatched@ =~= self.dispatched@ + queue_job_ids(self.queue@));
            }
            return;
        }
        self.run_pending();
        let n = self.workers.len();
        self.open = false;
        let mut k: usize = 0;
        while k < n
            invariant
                k <= n,
                n == self.workers@.len(),
                WORKER_POOL_MIN_SIZE <= n <= WORKER_POOL_MAX_SIZE,
                !self.open,
                self.workers@ == old(self).workers@,
                forall|i: int|
                    0 <= i < n ==> (#[trigger] self.workers@[i]).id == i as u16
                        && self.workers@[i].state is Running,
                self.submitted@ == old(self).submitted@,
                self.dispatched@ == old(self).submitted@,
                self.queue@.len() == k,
                self.stops_enqueued@ == k as nat,
                forall|i: int| 0 <= i < k ==> (#[trigger] self.queue@[i]) is Terminate,
            decreases n - k,
        {
            self.queue.push(JobMessage::Terminate);
            proof {
                self.stops_enqueued@ = self.stops_enqueued@ + 1;
            }
            k = k + 1;
        }
        let mut t: usize = 0;
        while t < n
            invariant
                t <= n,
                n == self.workers@.len(),
                WORKER_POOL_MIN_SIZE <= n <= WORKER_POOL_MAX_SIZE,
                !self.open,
                self.workers@.len() == old(self).workers@.len(),
                forall|i: int|
                    0 <= i < n ==> (#[trigger] self.workers@[i]).id == i as u16,
                forall|i: int|
                    0 <= i < t ==> (#[trigger] self.workers@[i]).state is Terminated,
                forall|i: int|
                    t <= i < n ==> (#[trigger] self.workers@[i]).state is Running,
                self.submitted@ == old(self).submitted@,
                self.dispatched@ == old(self).submitted@,
                self.stops_enqueued@ == n as nat,
                self.queue@.len() == n - t,
                forall|i: int| 0 <= i < self.queue@.len() ==> (#[trigger] self.queue@[i]) is Terminate,
            decreases n - t,
        {
            let ghost q0 = self.queue@;
            let msg = self.queue.remove(0);
            let mut w = self.workers.remove(t);
            w.handle(msg);
            self.workers.insert(t, w);
            t = t + 1;
        }
        proof {
            assert(queue_job_ids(self.queue@) == Seq::<u128>::empty());
            assert(self.submitted@ =~= self.dispatched@ + queue_job_ids(self.queue@));
        }
    }
}

/// Dispatch order is FIFO with respect to submission: in every reachable
/// pool state the log of dispatched job ids is a prefix of the log of
/// submitted job ids, so a job submitted strictly before another is
/// dispatched before it, and nothing is dispatched that was not submitted.
pub proof fn lemma_dispatch_is_fifo<A: JobAction>(p: WorkerPool<A>)
    requires
        p.wf(),
    ensures
        p.dispatched@.is_prefix_of(p.submitted@),
        forall|i: int|
            0 <= i < p.dispatched@.len() ==> #[trigger] p.dispatched@[i] == p.submitted@[i],
{
    assert(p.dispatched@ =~= p.submitted@.subrange(0, p.dispatched@.len() as int));
}

/// Exactly-once delivery: in any pool state whose queue has drained (as it
/// has once `shutdown` returns), the dispatch log equals the submission
/// log — every accepted job was handed to a worker exactly once, in
/// submission order, and no other job was ever dispatched.
pub proof fn lemma_drained_pool_dispatched_exactly_once<A: JobAction>(p: WorkerPool<A>)
    requires
        p.wf(),
        p.queue@.len() == 0,
    ensures
        p.dispatched@ == p.submitted@,
{
    assert(queue_job_ids(p.queue@) == Seq::<u128>::empty());
    assert(p.dispatched@ =~= p.dispatched@ + queue_job_ids(p.queue@));
}

} // verus!
