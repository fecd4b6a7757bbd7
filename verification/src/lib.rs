//! A mailbox management library built around a verified work-distribution
//! pipeline: a fixed-capacity multi-producer/multi-consumer ring buffer, a
//! deduplicating frontier of discovered work, the feeder and worker
//! decisions that move identifiers between them, and the orchestration that
//! drains everything and shuts the pool down with reconciled counts. Around
//! that core stand the query builder, the message-detail extraction, the
//! label directory and the send planning that the tool's commands use.

pub mod cmd_args;
pub mod frontier;
pub mod labels;
pub mod message;
pub mod pipeline;
pub mod query;
pub mod ringbuffer;
pub mod send;
pub mod tasks;
