use worker_pool::message::Message;
use worker_pool::pool::{PoolError, PoolState};
use worker_pool::worker::WorkerState;

type Log = Vec<String>;
type Job = Box<dyn FnOnce(&mut Log)>;

fn record(name: &str) -> Job {
    let name = name.to_string();
    Box::new(move |log: &mut Log| log.push(name))
}

/// Lets worker `id` take one message; runs a job at once and reports it done.
/// Returns what the worker saw: `Some(true)` for a job, `Some(false)` for the
/// signal to stop, `None` for an empty queue.
fn step(pool: &mut PoolState<Job>, id: usize, log: &mut Log) -> Option<bool> {
    match pool.receive(id) {
        None => None,
        Some(Message::NewJob(job)) => {
            job(log);
            pool.finish(id);
            Some(true)
        }
        Some(Message::Terminate) => Some(false),
    }
}

#[test]
fn zero_size_is_refused() {
    let r: Result<PoolState<Job>, PoolError> = PoolState::new(0);
    assert!(matches!(r, Err(PoolError::ZeroSize)));
}

#[test]
fn new_pool_has_idle_workers() {
    let pool: PoolState<Job> = PoolState::new(4).unwrap();
    assert_eq!(pool.size(), 4);
    assert!(!pool.is_closed());
    assert_eq!(pool.pending(), 0);
    for id in 0..4 {
        assert_eq!(pool.worker_state(id), WorkerState::Idle);
    }
}

#[test]
fn shutdown_joins_every_worker_once() {
    let mut pool: PoolState<Job> = PoolState::new(4).unwrap();
    let ids = pool.shutdown();
    assert_eq!(ids, vec![0, 1, 2, 3]);
    assert_eq!(pool.pending(), 4);
    assert!(pool.is_closed());
    let again = pool.shutdown();
    assert!(again.is_empty());
    assert_eq!(pool.pending(), 4);
}

#[test]
fn every_job_runs_exactly_once() {
    let mut pool: PoolState<Job> = PoolState::new(2).unwrap();
    let mut log: Log = Vec::new();
    for k in 0..10 {
        assert_eq!(pool.execute(record(&format!("job{}", k))), Ok(()));
    }
    let ids = pool.shutdown();
    assert_eq!(ids.len(), 2);
    let mut stopped = [false, false];
    let mut turn: usize = 0;
    while !(stopped[0] && stopped[1]) {
        if !stopped[turn] {
            match step(&mut pool, turn, &mut log) {
                Some(false) => stopped[turn] = true,
                Some(true) => {}
                None => panic!("a live worker found the queue empty"),
            }
        }
        turn = 1 - turn;
    }
    let expected: Log = (0..10).map(|k| format!("job{}", k)).collect();
    assert_eq!(log, expected);
    assert_eq!(pool.pending(), 0);
    assert_eq!(pool.worker_state(0), WorkerState::Terminated);
    assert_eq!(pool.worker_state(1), WorkerState::Terminated);
}

#[test]
fn shutdown_leaves_no_worker_blocked() {
    let mut pool: PoolState<Job> = PoolState::new(3).unwrap();
    let mut log: Log = Vec::new();
    assert_eq!(pool.execute(record("x")), Ok(()));
    // worker 1 is busy with the job when shutdown begins
    assert!(matches!(pool.receive(1), Some(Message::NewJob(_))));
    assert_eq!(pool.worker_state(1), WorkerState::Executing);
    pool.shutdown();
    assert_eq!(pool.pending(), 3);
    assert_eq!(step(&mut pool, 0, &mut log), Some(false));
    assert_eq!(step(&mut pool, 2, &mut log), Some(false));
    assert_eq!(pool.pending(), 1);
    pool.finish(1);
    assert_eq!(step(&mut pool, 1, &mut log), Some(false));
    assert_eq!(pool.pending(), 0);
    for id in 0..3 {
        assert_eq!(pool.worker_state(id), WorkerState::Terminated);
    }
}

#[test]
fn interleaved_callers_each_job_once() {
    let mut pool: PoolState<Job> = PoolState::new(2).unwrap();
    let mut log: Log = Vec::new();
    // two callers take turns; the workers take jobs in between
    assert_eq!(pool.execute(record("a1")), Ok(()));
    assert_eq!(pool.execute(record("b1")), Ok(()));
    assert_eq!(step(&mut pool, 0, &mut log), Some(true));
    assert_eq!(pool.execute(record("a2")), Ok(()));
    assert_eq!(step(&mut pool, 1, &mut log), Some(true));
    assert_eq!(pool.execute(record("b2")), Ok(()));
    assert_eq!(pool.execute(record("a3")), Ok(()));
    pool.shutdown();
    assert_eq!(step(&mut pool, 1, &mut log), Some(true));
    assert_eq!(step(&mut pool, 0, &mut log), Some(true));
    assert_eq!(step(&mut pool, 0, &mut log), Some(true));
    assert_eq!(step(&mut pool, 0, &mut log), Some(false));
    assert_eq!(step(&mut pool, 1, &mut log), Some(false));
    assert_eq!(log, vec!["a1", "b1", "a2", "b2", "a3"]);
    assert_eq!(pool.pending(), 0);
}

#[test]
fn submission_never_waits_for_workers() {
    let mut pool: PoolState<Job> = PoolState::new(1).unwrap();
    assert_eq!(pool.execute(record("slow")), Ok(()));
    assert!(matches!(pool.receive(0), Some(Message::NewJob(_))));
    // the only worker is busy: submissions still return at once
    for k in 0..100 {
        assert_eq!(pool.execute(record(&format!("n{}", k))), Ok(()));
    }
    assert_eq!(pool.pending(), 100);
    assert_eq!(pool.worker_state(0), WorkerState::Executing);
}

#[test]
fn single_worker_runs_jobs_in_order() {
    let mut pool: PoolState<Job> = PoolState::new(1).unwrap();
    let mut log: Log = Vec::new();
    assert_eq!(pool.execute(record("A")), Ok(()));
    // the worker takes A and is still busy with it when B arrives
    let a = match pool.receive(0) {
        Some(Message::NewJob(job)) => job,
        _ => panic!("the worker should have taken A"),
    };
    assert_eq!(pool.execute(record("B")), Ok(()));
    a(&mut log);
    pool.finish(0);
    let ids = pool.shutdown();
    assert_eq!(ids, vec![0]);
    assert_eq!(step(&mut pool, 0, &mut log), Some(true));
    assert_eq!(step(&mut pool, 0, &mut log), Some(false));
    assert_eq!(log, vec!["A", "B"]);
}

#[test]
fn three_workers_start_together() {
    let mut pool: PoolState<Job> = PoolState::new(3).unwrap();
    let mut log: Log = Vec::new();
    for name in ["j0", "j1", "j2"] {
        assert_eq!(pool.execute(record(name)), Ok(()));
    }
    let mut held: Vec<Job> = Vec::new();
    for id in 0..3 {
        match pool.receive(id) {
            Some(Message::NewJob(job)) => held.push(job),
            _ => panic!("each worker should take one job"),
        }
    }
    // all three have started before any finishes
    for id in 0..3 {
        assert_eq!(pool.worker_state(id), WorkerState::Executing);
    }
    for (id, job) in held.into_iter().enumerate() {
        job(&mut log);
        pool.finish(id);
    }
    let ids = pool.shutdown();
    assert_eq!(ids, vec![0, 1, 2]);
    for id in 0..3 {
        assert_eq!(step(&mut pool, id, &mut log), Some(false));
    }
    assert_eq!(log, vec!["j0", "j1", "j2"]);
    assert_eq!(pool.pending(), 0);
}

#[test]
fn execute_after_shutdown_is_refused() {
    let mut pool: PoolState<Job> = PoolState::new(2).unwrap();
    pool.shutdown();
    assert_eq!(pool.execute(record("late")), Err(PoolError::Closed));
    assert_eq!(pool.pending(), 2);
}

#[test]
fn idle_worker_on_empty_queue_waits() {
    let mut pool: PoolState<Job> = PoolState::new(2).unwrap();
    assert!(pool.receive(0).is_none());
    assert_eq!(pool.worker_state(0), WorkerState::Idle);
}
