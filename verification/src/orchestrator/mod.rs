//! Multi-participant run orchestration: the state a run keeps and the
//! decisions taken on it.
pub mod decide;
pub mod laws;
pub mod participant;
pub mod policy;
pub mod schedule;
pub mod state;
pub mod turn;
pub mod types;
