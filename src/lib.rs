//! A verified vote consistency engine: polls with ordered options and live
//! counters, a ledger holding at most one vote per user and poll, the
//! operations that cast, change, close and reset, and the decisions of a
//! live result stream.

pub mod error;
pub mod model;
pub mod creation;
pub mod ledger;
pub mod coordinator;
pub mod projector;
pub mod laws;
pub mod registration;
pub mod health;
