//! Lifecycle tracker for asynchronous marketplace product submissions.
//!
//! A submission is keyed by a content-derived identity, moves through a
//! strict state machine (uploaded, then finished or aborted), and carries
//! at most one terminal result. The store keeps every tracked entry in
//! exactly one state partition; the coordinator enforces at-most-once
//! submission and monotonic, one-directional state transitions.

pub mod canonical;
pub mod coordinator;
pub mod entities;
pub mod identity;
pub mod store;
pub mod text;
