//! Verified core of a backtest orchestrator for QuantConnect cloud nodes.
//!
//! The library holds the decisions of the orchestrator, each with a contract:
//! which queued job a slot claims and on which project, how the warm pool is
//! filled and drained, when an API call is retried, how requests are
//! authenticated, and the rules of the commands that grow, trim and
//! reconcile the shared project pool. The program around it (HTTP, SQLite,
//! logging, the command line) performs the effects these decisions ask for.

pub mod auth;
pub mod claim_scan;
pub mod cli;
pub mod config;
pub mod created_sort;
pub mod endpoints;
pub mod models;
pub mod numparse;
pub mod pool;
pub mod projects;
pub mod retention;
pub mod retry;
pub mod text;
pub mod trace;
pub mod transport;
pub mod warm;
