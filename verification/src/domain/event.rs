//! Events published while a code execution run progresses.
use vstd::prelude::*;

use crate::domain::ids::{ActionId, RunId};
use crate::domain::value::Value;

verus! {

/// Something that happened to an execution run or one of its actions.
#[derive(Debug, Clone, PartialEq, Eq)]
pub enum ExecutionEvent {
    RunSubmitted { run_id: RunId },
    RunStarted { run_id: RunId },
    ActionEnqueued { run_id: RunId, action_id: ActionId, skill_name: String, action_name: String },
    ActionClaimed {
        run_id: RunId,
        action_id: ActionId,
        skill_name: String,
        action_name: String,
        worker_id: String,
    },
    ActionCompleted { run_id: RunId, action_id: ActionId, skill_name: String, action_name: String },
    ActionFailed {
        run_id: RunId,
        action_id: ActionId,
        skill_name: String,
        action_name: String,
        message: String,
    },
    RunResumed { run_id: RunId },
    RunCompleted { run_id: RunId, value: Value },
    RunFailed { run_id: RunId, message: String },
}

impl ExecutionEvent {
    /// The run every event belongs to.
    pub open spec fn run_of(self) -> RunId {
        match self {
            ExecutionEvent::RunSubmitted { run_id } => run_id,
            ExecutionEvent::RunStarted { run_id } => run_id,
            ExecutionEvent::ActionEnqueued { run_id, .. } => run_id,
            ExecutionEvent::ActionClaimed { run_id, .. } => run_id,
            ExecutionEvent::ActionCompleted { run_id, .. } => run_id,
            ExecutionEvent::ActionFailed { run_id, .. } => run_id,
            ExecutionEvent::RunResumed { run_id } => run_id,
            ExecutionEvent::RunCompleted { run_id, .. } => run_id,
            ExecutionEvent::RunFailed { run_id, .. } => run_id,
        }
    }

    /// The run this event belongs to.
    pub fn run_id(&self) -> (r: RunId)
        ensures
            r == self.run_of(),
    {
        match self {
            ExecutionEvent::RunSubmitted { run_id } => *run_id,
            ExecutionEvent::RunStarted { run_id } => *run_id,
            ExecutionEvent::ActionEnqueued { run_id, .. } => *run_id,
            ExecutionEvent::ActionClaimed { run_id, .. } => *run_id,
            ExecutionEvent::ActionCompleted { run_id, .. } => *run_id,
            ExecutionEvent::ActionFailed { run_id, .. } => *run_id,
            ExecutionEvent::RunResumed { run_id } => *run_id,
            ExecutionEvent::RunCompleted { run_id, .. } => *run_id,
            ExecutionEvent::RunFailed { run_id, .. } => *run_id,
        }
    }
}

} // verus!
