//! The command-line tool's decisions: its configuration, its errors, the
//! overrides of an evaluation spec, and the names of run artifacts.
pub mod artifacts;
pub mod config;
pub mod errors;
pub mod overrides;
pub mod run;
