use vstd::prelude::*;

verus! {

/// Worker threads of the task executor.
pub const NUM_WORKER_THREADS: usize = 1;

/// Period of the clock that drives time updates, in milliseconds.
pub const TIME_EVENT_INTERVAL_MS: u64 = 250;

/// How many recent reports a consumer is expected to keep in view.
pub const CANDIDATE_WINDOW_LENGTH_HINT: usize = 250;

/// Capacity of the best-seen table.
pub const BEST_SEEN_TABLE_SIZE_HINT: usize = 5;

} // verus!
