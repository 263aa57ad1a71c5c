//! A process supervisor library: declarative service specifications, a
//! per-service spawn/monitor/restart state machine, a shared registry of
//! runtime records, a coordinated shutdown protocol, and a single-instance
//! lock model.

pub mod config;
pub mod cli;
pub mod lock;
pub mod policy;
pub mod registry;
pub mod shutdown;
pub mod supervisor;
pub mod telemetry;
pub mod web;
