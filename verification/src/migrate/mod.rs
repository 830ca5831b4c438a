//! The migration reconciliation engine.

pub mod checksum;
pub mod definition;
pub mod engine;
pub mod error;
pub mod laws;
pub mod ledger;
pub mod plan;
pub mod source;
pub mod text;
