//! Content-addressed storage of compiled contract bytecode and its sources.

pub mod config;
pub mod content;
pub mod create;
pub mod domain_tokens;
pub mod hexcode;
pub mod ingestion;
pub mod json;
pub mod laws;
pub mod plan;
pub mod progress;
pub mod simulation;
pub mod protocol;
pub mod store;
pub mod types;
pub mod verified_contracts;
