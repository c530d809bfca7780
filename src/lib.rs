//! Periodic health reminders: a parser for interval specifications such as
//! `20m` or `1h`, the fixed reminder messages, and the state machine that
//! decides when each reminder timer fires.

pub mod duration;
pub mod message;
pub mod timer;
