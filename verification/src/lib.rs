//! Record and replay of timestamped input events.
//!
//! The crate provides a nanosecond timestamp/clock layer, elapsed-time
//! utilities, and a record/replay state machine that classifies, buffers,
//! condenses and replays batches of input events, one batch per host tick.

pub mod clock;
pub mod events;
pub mod manager;
pub mod merge;
pub mod timestamp;
