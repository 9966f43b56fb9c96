//! Requests to run skill actions and what became of them.
use vstd::prelude::*;

use crate::domain::ids::{ActionId, ActionName, RunId};
use crate::domain::skill::SkillVersion;
use crate::domain::value::CanonicalValue;

verus! {

/// A call of a skill action in canonical form: its name and its arguments by
/// canonical parameter name (ascending, each once).
#[derive(Debug, Clone, PartialEq, Eq)]
pub struct CanonicalInvocation {
    pub action_name: ActionName,
    pub arguments: Vec<(String, CanonicalValue)>,
}

/// Which skill (and which version and profile of it) an action belongs to.
#[derive(Debug, Clone, PartialEq, Eq)]
pub struct ActionSkillRef {
    pub skill_name: String,
    pub skill_version: Option<SkillVersion>,
    pub profile_name: Option<String>,
}

/// A request to run one action on behalf of a run.
#[derive(Debug, Clone, PartialEq, Eq)]
pub struct ActionRequest {
    pub id: ActionId,
    pub run_id: RunId,
    pub skill: ActionSkillRef,
    pub invocation: CanonicalInvocation,
}

/// The value an action produced.
#[derive(Debug, Clone, PartialEq, Eq)]
pub struct ActionResult {
    pub action_id: ActionId,
    pub value: CanonicalValue,
}

/// How an action invocation went, for diagnosis.
#[derive(Debug, Clone, PartialEq, Eq)]
pub struct ActionInvocationDiagnostics {
    pub canonical_action_id: String,
    pub export_name: String,
    pub status: String,
    pub current_phase: String,
    pub elapsed_ms: u128,
    pub events: Vec<ActionInvocationEvent>,
    pub error: Option<ActionInvocationError>,
}

/// One step recorded while an action ran.
#[derive(Debug, Clone, PartialEq, Eq)]
pub struct ActionInvocationEvent {
    pub source: String,
    pub elapsed_ms: u128,
    pub message: String,
}

/// Why an action invocation failed.
#[derive(Debug, Clone, PartialEq, Eq)]
pub struct ActionInvocationError {
    pub source: String,
    pub message: String,
}

/// Where an action stands.
#[derive(Debug, Clone, PartialEq, Eq)]
pub enum ActionStatus {
    Pending,
    Completed(ActionResult),
    Failed { message: String },
}

/// An action request with its status.
#[derive(Debug, Clone, PartialEq, Eq)]
pub struct ActionRecord {
    pub request: ActionRequest,
    pub status: ActionStatus,
    pub diagnostics: Option<ActionInvocationDiagnostics>,
}

} // verus!
