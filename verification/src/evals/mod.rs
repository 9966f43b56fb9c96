//! Evaluations of agent runs against a written scenario.
pub mod criteria;
pub mod document;
pub mod engine;
pub mod json;
pub mod participants;
pub mod sequence_laws;
pub mod spec;
pub mod trajectory;
