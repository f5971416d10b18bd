//! Core of an event-sourced command and projection runtime over a
//! Dynamic Consistency Boundary (DCB) event store.
//!
//! The crate holds the decisions of the runtime as verified functions on
//! plain values: how a command's domain-ID bindings become a DCB query, how
//! emitted events are encoded for the store, and how a projection advances,
//! batches and checkpoints. Talking to the store and to the database is left
//! to the caller.

pub mod checkpoint;
pub mod command;
pub mod command_laws;
pub mod domain_id;
pub mod emit;
pub mod envelope;
pub mod error;
pub mod event;
pub mod plan_laws;
pub mod product;
pub mod projection;
pub mod projection_laws;
pub mod query;
pub mod schema;
pub mod signature;
pub mod status;
pub mod text;
