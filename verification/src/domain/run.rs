//! Code execution runs and the stores that keep them.
use vstd::prelude::*;

use crate::domain::action::ActionRecord;
use crate::domain::code::CodeArtifact;
use crate::domain::event::ExecutionEvent;
use crate::domain::ids::{ActionId, RunId};
use crate::domain::interpreter::{ExecutionOutput, ExecutionSnapshot, InputValues};

verus! {

/// A request to start running a code artifact.
#[derive(Debug, Clone, PartialEq, Eq)]
pub struct StartExecutionRequest {
    pub code: CodeArtifact,
    pub inputs: InputValues,
    pub repl_state: Option<ExecutionSnapshot>,
}

/// Where an execution run stands.
#[derive(Debug, Clone, PartialEq, Eq)]
pub enum ExecutionStatus {
    Running,
    WaitingForAction(ActionId),
    Completed(ExecutionOutput),
    Failed(String),
}

/// An execution run with its saved state.
#[derive(Debug, Clone, PartialEq, Eq)]
pub struct ExecutionSession {
    pub id: RunId,
    pub status: ExecutionStatus,
    pub snapshot: Option<ExecutionSnapshot>,
    pub repl_state: Option<ExecutionSnapshot>,
}

/// A store failure, with its message.
#[derive(Debug, Clone, PartialEq, Eq)]
pub struct StoreError {
    message: String,
}

impl StoreError {
    /// An error with the given message.
    pub fn new(message: String) -> (r: Self)
        ensures
            r.message() == message,
    {
        StoreError { message }
    }

    /// The message of this error.
    pub closed spec fn message(self) -> String {
        self.message
    }

    /// The message of this error, for display.
    pub fn message_str(&self) -> (r: &str)
        ensures
            r@ == self.message()@,
    {
        self.message.as_str()
    }
}

/// Where runs, code artifacts and actions are kept.
pub trait RunStore {
    fn create_run(&mut self, session: ExecutionSession) -> Result<(), StoreError>;

    fn save_run(&mut self, session: ExecutionSession) -> Result<(), StoreError>;

    fn load_run(&self, run_id: RunId) -> Result<ExecutionSession, StoreError>;

    fn list_runs(&self) -> Result<Vec<RunId>, StoreError>;

    /// Keeping code artifacts is optional: by default nothing is stored and
    /// saving succeeds.
    fn save_code_artifact(&mut self, run_id: RunId, artifact: &CodeArtifact) -> (r: Result<
        (),
        StoreError,
    >)
        default_ensures
            r == Ok::<(), StoreError>(()),
    {
        Ok(())
    }

    fn save_action(&mut self, action: ActionRecord) -> Result<(), StoreError>;

    fn load_action(&self, action_id: ActionId) -> Result<ActionRecord, StoreError>;

    fn list_actions(&self) -> Result<Vec<ActionId>, StoreError>;
}

/// Where execution events are sent.
pub trait EventPublisher {
    fn publish(&mut self, event: ExecutionEvent) -> Result<(), StoreError>;
}

} // verus!
