//! Message substrate of a byzantine-fault-tolerant node: a segmented binary
//! codec for signed consensus messages, the concrete consensus message
//! catalogue built on it, and the event aggregation and channel layer that
//! feeds a single-threaded reactor.

pub mod buffer;
pub mod crypto;
pub mod field;
pub mod messages;
pub mod consensus;
pub mod events;
pub mod channel;
