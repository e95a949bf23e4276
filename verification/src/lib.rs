//! Time-ordered 64-bit identifiers: a millisecond timestamp, a node number and
//! a per-millisecond sequence number packed into one `u64`.
//!
//! The crate holds the deterministic core of the generator. It never reads a
//! clock and never waits: the caller hands each clock reading in and is told
//! either which identifier was issued or that the millisecond is used up and
//! it has to wait for the next one.

pub mod generator;
pub mod laws;
pub mod layout;

pub use generator::{Error, Model, Outcome, Snowflake};
