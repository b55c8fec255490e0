//! A schedule queue: items, each with the time at which it falls due, handed
//! out one at a time in order of due time.
//!
//! The queue itself never sleeps and never reads a clock. [`ScheduleQueue::next`]
//! is given the current time and answers with what a consumer has to do: take
//! the item that has fallen due, sleep for a stated time, or wait until
//! something is scheduled. [`ScheduleQueue::schedule`] says whether a sleeping
//! consumer has to be woken.

mod heap;
pub mod laws;
pub mod queue;
pub mod time;

pub use queue::{Next, ScheduleQueue, Scheduled};
pub use time::Timestamp;
