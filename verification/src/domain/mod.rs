//! Core domain types: identifiers, values, actions, code, runs and skills.
pub mod action;
pub mod code;
pub mod event;
pub mod ids;
pub mod interpreter;
pub mod run;
pub mod skill;
pub mod value;
