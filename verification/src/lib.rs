//! Core of a durable, single-node message queue: the visibility index, the
//! id generator, the on-disk encodings and the operation state machines.
//!
//! The library performs no I/O. Each operation is split into steps around
//! the storage work: a step decides, the caller persists what the step
//! staged and waits for the durability barrier, and the next step publishes
//! the result in the visibility index.

pub mod bytes;
pub mod clock;
pub mod ctx;
pub mod digest;
pub mod id_gen;
pub mod index;
pub mod keyed;
pub mod metrics;
pub mod op;
pub mod slot;
pub mod suspension;
pub mod syncer;
pub mod tag;
pub mod vacant;
