//! An application runtime that composes a single-writer model, a shared
//! bag of cloneable resources, and a dispatch pipeline of effects behind
//! a family of typed contexts, with a pub/sub event bus and structured
//! background tasks whose completions re-enter the effect pipeline.
//!
//! The drain loop's ordering discipline is captured by two ghost logs on
//! the runtime: every batch that arrives and every operation that
//! executes, related by one invariant. What has run plus what is still
//! queued is exactly what has arrived, flattened in order.

pub mod channel;
pub mod context;
pub mod dispatch;
pub mod event_bus;
pub mod model;
pub mod resource;
pub mod syzygy;
