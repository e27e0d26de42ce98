//! Proposals, one vote per identity, and a deterministic decision.
//!
//! `store` keeps the records by identifier, `service` holds the operations
//! that create, edit, end and vote on them under the ownership and single-vote
//! rules, and `status` turns a record's counts into a decision.

pub mod credential;
pub mod proposal;
pub mod service;
pub mod status;
pub mod store;
