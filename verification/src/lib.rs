//! A fixed-size worker pool, verified.
//!
//! The pool's logic — sizing, task submission, work distribution, and graceful
//! teardown — lives here as a verified state machine over plain task labels.
//! The operating-system side of the pool (spawning a thread per worker,
//! blocking on the shared channel, joining at teardown) cannot be verified and
//! is left to the embedding program, which drives this state machine and
//! performs each decided action.

mod pool;
mod tally;

pub use pool::lemma_at_most_once_delivery;
pub use pool::lemma_drained_runs_all;
pub use pool::lemma_fifo_delivery;
pub use pool::Action;
pub use pool::PoolError;
pub use pool::Received;
pub use pool::ThreadPool;
pub use pool::Worker;
pub use tally::lemma_occurrences_concat;
pub use tally::occurrences;
