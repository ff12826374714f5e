//! A deadline table for cooperatively scheduled sleepers.
//!
//! Deadlines are kept as epochs: whole milliseconds since a reference
//! instant. The [`timeheap::TimeHeap`] maps each pending epoch to one shared
//! one-shot event, fires every due entry in ascending order, and tells a
//! scheduler when its earliest deadline has moved forward.

pub mod epoch;
pub mod event;
pub mod queue;
pub mod slots;
pub mod timeheap;
pub mod schedule;
