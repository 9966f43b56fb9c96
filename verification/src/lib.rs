//! Verified core of an agent orchestration toolkit.
use vstd::prelude::*;

pub mod agents;
pub mod assoc;
pub mod canonical;
pub mod cli;
pub mod domain;
pub mod evals;
pub mod llm;
pub mod orchestrator;
pub mod repl;
pub mod text;

verus! {
} // verus!
