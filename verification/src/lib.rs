//! Token-weighted governance for a Soroban contract.
//!
//! Accounts propose changes of parameters, payments from the treasury, feature switches and code
//! upgrades. Holders vote with the power that they had when the proposal was created, their own or
//! lent to them, counted as it is or by its square root. A proposal that meets the quorum and the
//! approval threshold of its category is carried out.
//!
//! A caller loads the state into a [`state::Governance`], serves a request with one of the
//! functions here, demands the authorizations and publishes the events that the request left in the
//! outbox, and stores the state. Where a request is refused, it stores and publishes nothing.
//!
//! Contracts speak of [`state::GovernanceModel`], the model of the state. What holds of every state
//! that requests lead to is in [`invariants`]; what requests keep, undo and leave alone is in
//! [`laws`]; what each of them is for, over the records alone, is in [`meaning`].

#![allow(unused_imports)]

pub mod bytes;
pub mod collections;
pub mod delegation;
pub mod deposits;
pub mod execution;
pub mod finalization;
pub mod invariants;
pub mod laws;
pub mod lifecycle;
pub mod math;
pub mod meaning;
pub mod proposals;
pub mod state;
pub mod statistics;
pub mod tables;
pub mod thresholds;
pub mod types;
pub mod validation;
pub mod voting;
