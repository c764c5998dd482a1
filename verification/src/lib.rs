//! Fluent assertions over the records that a query gave back.
//!
//! An [`AssertQuery`] holds a snapshot of records and a one-shot negation flag.
//! Each assertion either hands the builder on, with the flag cleared, or gives
//! a [`Failure`] that says what did not hold and which record shows it.

pub mod failure;
pub mod laws;
pub mod query;
pub mod report;
pub mod search;

pub use failure::Failure;
pub use failure::Mismatch;
pub use failure::Shown;
pub use failure::Unexpected;
pub use query::AssertQuery;
pub use query::Snapshot;
