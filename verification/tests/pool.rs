use worker_pool::Action;
use worker_pool::PoolError;
use worker_pool::Received;
use worker_pool::ThreadPool;
use worker_pool::Worker;

#[test]
fn create_threadpool() {
    let pool = ThreadPool::new(4);
    assert_eq!(4, pool.workers.len());
    assert_eq!(pool.sender_open, true);
}

#[test]
fn sizing_one_worker() {
    let pool = ThreadPool::new(1);
    assert_eq!(1, pool.workers.len());
    assert_eq!(pool.workers[0].id, 0);
    assert!(pool.workers[0].running);
    assert!(pool.workers[0].handle_present);
}

#[test]
fn worker_ids_are_positions() {
    let pool = ThreadPool::new(6);
    for (i, w) in pool.workers.iter().enumerate() {
        assert_eq!(w.id, i);
        assert!(w.running);
    }
}

#[test]
fn worker_runs_received_job() {
    assert_eq!(Worker::step(Received::Job(5)), Action::Run(5));
}

#[test]
fn worker_exits_on_closed_queue() {
    assert_eq!(Worker::step(Received::Closed), Action::Exit);
}

#[test]
fn each_task_delivered_once() {
    let mut pool = ThreadPool::new(2);
    assert_eq!(pool.execute(10), Ok(()));
    assert_eq!(pool.execute(20), Ok(()));
    assert_eq!(pool.execute(30), Ok(()));
    // whichever worker asks, the front task is handed out and removed
    assert_eq!(pool.run_one(1), Some(10));
    assert_eq!(pool.run_one(0), Some(20));
    assert_eq!(pool.run_one(0), Some(30));
    assert_eq!(pool.run_one(1), None);
    assert_eq!(pool.completed, vec![10, 20, 30]);
}

#[test]
fn no_lost_work_on_shutdown() {
    let mut pool = ThreadPool::new(3);
    for t in 0..5 {
        assert_eq!(pool.execute(t), Ok(()));
    }
    pool.shutdown();
    assert_eq!(pool.completed.len(), 5);
    assert_eq!(pool.completed, vec![0, 1, 2, 3, 4]);
    assert_eq!(pool.pending.len(), 0);
}

#[test]
fn clean_teardown_joins_every_worker() {
    let mut pool = ThreadPool::new(3);
    assert_eq!(pool.execute(7), Ok(()));
    pool.shutdown();
    assert!(!pool.sender_open);
    assert_eq!(pool.workers.len(), 3);
    for w in pool.workers.iter() {
        assert!(!w.running);
        assert!(!w.handle_present);
    }
}

#[test]
fn shutdown_twice_is_a_no_op() {
    let mut pool = ThreadPool::new(2);
    assert_eq!(pool.execute(1), Ok(()));
    pool.shutdown();
    let completed = pool.completed.clone();
    pool.shutdown();
    assert_eq!(pool.completed, completed);
    assert_eq!(pool.workers.len(), 2);
    assert!(!pool.workers[0].handle_present);
}

#[test]
fn single_worker_preserves_submission_order() {
    let mut pool = ThreadPool::new(1);
    for i in 0..5 {
        assert_eq!(pool.execute(i), Ok(()));
    }
    pool.shutdown();
    assert_eq!(pool.completed, vec![0, 1, 2, 3, 4]);
}

#[test]
fn immediate_shutdown_with_no_tasks() {
    let mut pool = ThreadPool::new(2);
    pool.shutdown();
    assert_eq!(pool.completed, Vec::<u64>::new());
    assert_eq!(pool.pending.len(), 0);
    assert!(!pool.workers[0].handle_present);
    assert!(!pool.workers[1].handle_present);
}

#[test]
fn execute_after_shutdown_fails_observably() {
    let mut pool = ThreadPool::new(3);
    assert_eq!(pool.execute(1), Ok(()));
    pool.shutdown();
    assert_eq!(pool.execute(2), Err(PoolError::ShutDown));
    // the refused task was not silently queued or run
    assert_eq!(pool.pending.len(), 0);
    assert_eq!(pool.completed, vec![1]);
}

#[test]
fn run_one_on_empty_queue_runs_nothing() {
    let mut pool = ThreadPool::new(2);
    assert_eq!(pool.run_one(0), None);
    assert_eq!(pool.completed.len(), 0);
}

#[test]
fn occurrence_counts_in_the_log() {
    let mut pool = ThreadPool::new(2);
    assert_eq!(pool.execute(9), Ok(()));
    assert_eq!(pool.execute(9), Ok(()));
    assert_eq!(pool.execute(4), Ok(()));
    pool.shutdown();
    let nines = pool.completed.iter().filter(|t| **t == 9).count();
    let fours = pool.completed.iter().filter(|t| **t == 4).count();
    assert_eq!(nines, 2);
    assert_eq!(fours, 1);
}
