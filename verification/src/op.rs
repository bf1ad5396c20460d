//! The operations: push, poll, update and delete.
//!
//! Every operation first consults its kill switch. Each is split around the
//! storage work it needs: the first step decides and stages what is to be
//! persisted, and the completing step, called once the staged writes are
//! durable, publishes the outcome in the visibility index. A message is
//! absent from the index between the two, so nothing else can deliver,
//! extend or delete it meanwhile.

pub mod delete;
pub mod healthz;
pub mod poll;
pub mod push;
pub mod result;
pub mod update;
