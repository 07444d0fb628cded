//! A deadline-ordered priority queue.
//!
//! Payloads are ordered by a three-tier deadline model: `Immediate` items come
//! first, time-bounded items follow in chronological order of their resolved
//! absolute deadline, and `Infinity` items come last. Items whose resolved
//! deadlines are equal come out in the order they were pushed.

pub mod clock;
pub mod deadline;
pub mod queue;
