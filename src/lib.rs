//! A fixed-size worker pool's dispatch and shutdown decisions, verified: a
//! FIFO queue of jobs and stop signals shared by all workers, the state of each
//! worker, and a shutdown that queues one signal per worker before any join.
//! Also a small generic stack.
use vstd::prelude::*;

pub mod message;
pub mod pool;
pub mod stack;
pub mod worker;

verus! {

} // verus!
