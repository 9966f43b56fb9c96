//! What an agent sees of its workspace, the actions it can take there and
//! what they come to.
use vstd::prelude::*;

use crate::domain::value::Value;
use crate::evals::document::DocValue;

verus! {

/// An action of the agent on its workspace.
#[derive(Debug, Clone, PartialEq, Eq)]
pub enum WorkspaceAction {
    LoadSkill { skill_name: String },
    UnloadSkill { skill_name: String },
    ExecuteCode { language: String, source: String },
}

/// What a workspace action came to.
#[derive(Debug, Clone, PartialEq, Eq)]
pub enum WorkspaceOutcome {
    CodeExecuted { language: String, result: Option<Value> },
    SkillLoaded { skill_name: String },
    SkillUnloaded { skill_name: String },
}

/// A tool the workspace offers the agent.
#[derive(Debug, Clone)]
pub struct AgentWorkspaceTool {
    pub name: String,
    pub description: String,
    pub input_schema: DocValue,
}

/// A skill the agent may load.
#[derive(Debug, Clone)]
pub struct WorkspaceAvailableSkill {
    pub skill_name: String,
    pub description: String,
}

/// A loaded skill: its instructions and the Python stub of its functions.
#[derive(Debug, Clone)]
pub struct WorkspaceActiveSkill {
    pub skill_name: String,
    pub instructions: String,
    pub python_stub: String,
}

/// What the agent observes of its workspace.
#[derive(Debug, Clone)]
pub struct WorkspaceObservation {
    pub available_tools: Vec<AgentWorkspaceTool>,
    pub available_skills: Vec<WorkspaceAvailableSkill>,
    pub active_skills: Vec<WorkspaceActiveSkill>,
}

} // verus!
