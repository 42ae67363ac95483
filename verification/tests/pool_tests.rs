use std::cell::{Cell, RefCell};
use std::rc::Rc;

use workpool::pool::{
    Job, JobAction, JobMessage, Worker, WorkerPool, WorkerPoolExecuteErrorKind,
    WorkerPoolNewErrorKind, WorkerState, WORKER_POOL_MAX_SIZE, WORKER_POOL_MIN_SIZE,
};

struct CountJob {
    counter: Rc<Cell<u64>>,
}

impl JobAction for CountJob {
    fn run(self) {
        self.counter.set(self.counter.get() + 1);
    }
}

struct FlagJob {
    flag: Rc<Cell<bool>>,
}

impl JobAction for FlagJob {
    fn run(self) {
        self.flag.set(true);
    }
}

struct TagJob {
    log: Rc<RefCell<Vec<u32>>>,
    tag: u32,
}

impl JobAction for TagJob {
    fn run(self) {
        self.log.borrow_mut().push(self.tag);
    }
}

#[test]
fn create_accepts_every_size_in_bounds() {
    for size in WORKER_POOL_MIN_SIZE..=WORKER_POOL_MAX_SIZE {
        let pool = WorkerPool::<CountJob>::new(size).unwrap();
        assert_eq!(pool.worker_count(), size);
        for w in pool.workers.iter() {
            assert!(matches!(w.state, WorkerState::Running));
        }
    }
}

#[test]
fn create_zero_is_invalid_size() {
    let r = WorkerPool::<CountJob>::new(0);
    match r {
        Ok(_) => panic!("size 0 must be rejected"),
        Err(e) => assert!(matches!(e.kind, WorkerPoolNewErrorKind::InvalidSize)),
    }
}

#[test]
fn create_twenty_is_invalid_size() {
    let r = WorkerPool::<CountJob>::new(20);
    match r {
        Ok(_) => panic!("size 20 must be rejected"),
        Err(e) => assert!(matches!(e.kind, WorkerPoolNewErrorKind::InvalidSize)),
    }
}

#[test]
fn three_jobs_on_one_worker_all_run() {
    let counter = Rc::new(Cell::new(0u64));
    let mut pool = WorkerPool::<CountJob>::new(1).unwrap();
    for _ in 0..3 {
        pool.execute(Job::new(CountJob { counter: Rc::clone(&counter) })).unwrap();
    }
    pool.shutdown();
    assert_eq!(counter.get(), 3);
}

#[test]
fn shutdown_runs_pending_work_before_returning() {
    let flag = Rc::new(Cell::new(false));
    let mut pool = WorkerPool::<FlagJob>::new(2).unwrap();
    pool.execute(Job::new(FlagJob { flag: Rc::clone(&flag) })).unwrap();
    pool.shutdown();
    assert!(flag.get());
    for w in pool.workers.iter() {
        assert!(matches!(w.state, WorkerState::Terminated));
    }
}

#[test]
fn submit_after_shutdown_is_queue_closed_and_job_never_runs() {
    let counter = Rc::new(Cell::new(0u64));
    let mut pool = WorkerPool::<CountJob>::new(4).unwrap();
    pool.shutdown();
    let r = pool.execute(Job::new(CountJob { counter: Rc::clone(&counter) }));
    match r {
        Ok(()) => panic!("submission after shutdown must fail"),
        Err(e) => assert!(matches!(e.kind, WorkerPoolExecuteErrorKind::QueueClosed)),
    }
    assert_eq!(counter.get(), 0);
}

#[test]
fn dispatch_is_fifo_in_submission_order() {
    let log = Rc::new(RefCell::new(Vec::new()));
    let mut pool = WorkerPool::<TagJob>::new(3).unwrap();
    for tag in 0..10u32 {
        pool.execute(Job::new(TagJob { log: Rc::clone(&log), tag })).unwrap();
    }
    pool.shutdown();
    assert_eq!(*log.borrow(), (0..10u32).collect::<Vec<u32>>());
}

#[test]
fn run_pending_dispatches_between_submissions() {
    let log = Rc::new(RefCell::new(Vec::new()));
    let mut pool = WorkerPool::<TagJob>::new(2).unwrap();
    pool.execute(Job::new(TagJob { log: Rc::clone(&log), tag: 1 })).unwrap();
    pool.execute(Job::new(TagJob { log: Rc::clone(&log), tag: 2 })).unwrap();
    pool.run_pending();
    assert_eq!(*log.borrow(), vec![1, 2]);
    pool.execute(Job::new(TagJob { log: Rc::clone(&log), tag: 3 })).unwrap();
    pool.shutdown();
    assert_eq!(*log.borrow(), vec![1, 2, 3]);
}

#[test]
fn many_producers_lose_no_jobs_and_run_none_twice() {
    let counters: Vec<Rc<Cell<u64>>> = (0..8).map(|_| Rc::new(Cell::new(0u64))).collect();
    let mut pool = WorkerPool::<CountJob>::new(4).unwrap();
    for round in 0..125 {
        for producer in 0..8 {
            pool.execute(Job::new(CountJob { counter: Rc::clone(&counters[producer]) }))
                .unwrap();
            if round % 3 == 0 {
                pool.run_pending();
            }
        }
    }
    pool.shutdown();
    let mut total = 0u64;
    for c in counters.iter() {
        assert_eq!(c.get(), 125);
        total += c.get();
    }
    assert_eq!(total, 1000);
}

#[test]
fn shutdown_twice_is_a_no_op() {
    let counter = Rc::new(Cell::new(0u64));
    let mut pool = WorkerPool::<CountJob>::new(2).unwrap();
    pool.execute(Job::new(CountJob { counter: Rc::clone(&counter) })).unwrap();
    pool.shutdown();
    pool.shutdown();
    assert_eq!(counter.get(), 1);
    assert!(!pool.open);
}

#[test]
fn worker_new_starts_running() {
    let w = Worker::new(3);
    assert_eq!(w.id, 3);
    assert!(matches!(w.state, WorkerState::Running));
}

#[test]
fn worker_runs_jobs_and_exits_on_the_sentinel() {
    let mut w = Worker::new(0);
    let flag = Rc::new(Cell::new(false));
    w.handle(JobMessage::NewJob(Job::new(FlagJob { flag: Rc::clone(&flag) })));
    assert!(flag.get());
    assert!(matches!(w.state, WorkerState::Running));
    w.handle::<FlagJob>(JobMessage::Terminate);
    assert!(matches!(w.state, WorkerState::Terminated));
}

#[test]
fn worker_pool_new_error_new_keeps_message() {
    let e = workpool::pool::WorkerPoolNewError::new(String::from("boom"));
    assert_eq!(e.msg, "boom");
    assert!(matches!(e.kind, WorkerPoolNewErrorKind::Unspecified));
}

#[test]
fn worker_pool_execute_error_new_keeps_message() {
    let e = workpool::pool::WorkerPoolExecuteError::new(String::from("boom"));
    assert_eq!(e.msg, "boom");
    assert!(matches!(e.kind, WorkerPoolExecuteErrorKind::Unspecified));
}
