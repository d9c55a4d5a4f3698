//! Streaming ingestion and state reconciliation for the JSON event stream of
//! a build-and-test run.
pub mod framer;
pub mod json;
pub mod cargo;
pub mod compiler;
pub mod ui;
pub mod monitor;
