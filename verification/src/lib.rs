//! Keeps a fleet of machines in step with one shared list of configuration
//! pieces. Each machine applies the pieces that are due on it and records what
//! it has done in a ledger; a version-controlled repository carries the ledger
//! from machine to machine.
//!
//! This crate holds the rules: when a piece must be executed or undone on a
//! machine, in which order and in which batches that happens, how the ledger is
//! edited, and what the repository protocol decides. Every side effect on the
//! host is handed to the caller as a value and its outcome is handed back.

pub mod cli;
pub mod data;
pub mod errors;
pub mod execution_data;
pub mod full_piece;
pub mod installation;
pub mod machine;
pub mod pieces;
pub mod repo;
pub mod schedule;
pub mod style;
pub mod text;
pub mod utils;
