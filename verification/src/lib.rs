//! Reconciliation of a relational store's schema with a versioned set of
//! migration definitions: what is defined is compared with what the store's
//! ledger records as applied, and the steps that bring the two in line are
//! decided here. Running a script against the store is left to the caller.

pub mod cli;
pub mod global;
pub mod migrate;
pub mod settings;
