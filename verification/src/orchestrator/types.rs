//! Data exchanged between the orchestrator, its participants and the environment.
use vstd::prelude::*;

use crate::domain::ids::{ActionId, RunId, WorkItemId};

verus! {

/// Who takes part in a run.
#[derive(Debug, Clone, PartialEq, Eq)]
pub enum ParticipantId {
    Agent,
    User,
    Custom(String),
}

impl ParticipantId {
    /// Two ids name the same participant: the same variant, and for a custom
    /// participant the same name.
    pub open spec fn names(self, other: ParticipantId) -> bool {
        match (self, other) {
            (ParticipantId::Agent, ParticipantId::Agent) => true,
            (ParticipantId::User, ParticipantId::User) => true,
            (ParticipantId::Custom(a), ParticipantId::Custom(b)) => a@ == b@,
            _ => false,
        }
    }

    /// Whether two participant ids name the same participant.
    pub fn same(&self, other: &ParticipantId) -> (r: bool)
        ensures
            r == self.names(*other),
    {
        match (self, other) {
            (ParticipantId::Agent, ParticipantId::Agent) => true,
            (ParticipantId::User, ParticipantId::User) => true,
            (ParticipantId::Custom(a), ParticipantId::Custom(b)) => crate::text::str_eq(
                a.as_str(),
                b.as_str(),
            ),
            _ => false,
        }
    }

    /// A copy of this id.
    pub fn copy(&self) -> (r: ParticipantId)
        ensures
            r == *self,
    {
        match self {
            ParticipantId::Agent => ParticipantId::Agent,
            ParticipantId::User => ParticipantId::User,
            ParticipantId::Custom(name) => ParticipantId::Custom(name.clone()),
        }
    }
}


/// How an action requested by a participant is carried out.
#[derive(Debug, Clone, Copy, PartialEq, Eq, Structural)]
pub enum ActionExecution {
    /// Performed at once; the outcome is known before the next turn.
    Immediate,
    /// Scheduled; the requesting agent loop waits for its completion.
    DeferredBlocking,
    /// Scheduled; the requesting participant keeps taking turns.
    DeferredNonBlocking,
}

/// When a run ends because participants are done.
#[derive(Debug, Clone, PartialEq, Eq)]
pub enum TerminationCondition {
    AllParticipantsFinished,
    AnyParticipantFinished,
    AnyOfParticipantsFinished(Vec<ParticipantId>),
    AnyParticipantCompletedLoop,
    AnyOfParticipantsCompletedLoop(Vec<ParticipantId>),
}

/// The task a run works on.
#[derive(Debug, Clone)]
pub struct TaskSpec {
    pub id: String,
    pub instructions: String,
}

/// Bounds on a run. Durations are in milliseconds.
#[derive(Debug, Clone, Copy)]
pub struct RunLimits {
    pub max_steps: usize,
    pub max_steps_per_agent_loop: usize,
    pub max_actions: usize,
    pub max_messages: usize,
    pub max_failed_actions: Option<usize>,
    pub max_consecutive_failed_actions: Option<usize>,
    pub max_blocked_action_wait_ms: Option<u64>,
    pub max_duration_ms: Option<u64>,
}

impl RunLimits {
    /// The default limits: 64 steps, steps per loop, actions and messages,
    /// no failure or time limits.
    pub fn default_limits() -> (r: RunLimits)
        ensures
            r.max_steps == 64,
            r.max_steps_per_agent_loop == 64,
            r.max_actions == 64,
            r.max_messages == 64,
            r.max_failed_actions is None,
            r.max_consecutive_failed_actions is None,
            r.max_blocked_action_wait_ms is None,
            r.max_duration_ms is None,
    {
        RunLimits {
            max_steps: 64,
            max_steps_per_agent_loop: 64,
            max_actions: 64,
            max_messages: 64,
            max_failed_actions: None,
            max_consecutive_failed_actions: None,
            max_blocked_action_wait_ms: None,
            max_duration_ms: None,
        }
    }
}

/// Everything a run starts from.
#[derive(Debug, Clone)]
pub struct RunRequest {
    pub task: TaskSpec,
    pub limits: RunLimits,
    pub termination_condition: TerminationCondition,
    pub initial_messages: Vec<InitialInboxMessage>,
}

/// A message placed in a participant's inbox before the run starts.
#[derive(Debug, Clone)]
pub struct InitialInboxMessage {
    pub to: ParticipantId,
    pub from: ParticipantId,
    pub content: String,
}

/// The outcome of evaluating a finished run (its score, a float, is kept
/// by the caller beside it).
#[derive(Debug, Clone)]
pub struct EvalResult {
    pub passed: bool,
    pub summary: Option<String>,
}

/// Why a run ended.
#[derive(Debug, Clone)]
pub enum FinishReason {
    ParticipantsFinished,
    ParticipantFinished { participant: ParticipantId },
    ParticipantCompletedLoop { participant: ParticipantId },
    StepLimitExceeded,
    AgentLoopStepLimitExceeded { participant: ParticipantId },
    ActionLimitExceeded,
    FailedActionLimitExceeded { total_failures: usize, consecutive_failures: usize },
    BlockedActionWaitExceeded,
    MessageLimitExceeded,
    TimeLimitExceeded,
    ParticipantError { participant: ParticipantId, message: String },
    EnvironmentError(String),
    EnvironmentTerminated(String),
    Deadlocked,
}

/// Where a failed action's error arose.
#[derive(Debug, Clone, Copy, PartialEq, Eq, Structural)]
pub enum ActionErrorOrigin {
    Orchestrator,
    Environment,
    Runtime,
    Interpreter,
}

/// A failed action: a message for the user and a detail for the log.
#[derive(Debug, Clone)]
pub struct ActionError {
    pub user_message: String,
    pub detail: String,
    pub origin: ActionErrorOrigin,
}

/// What the environment answered when it accepted a deferred action.
#[derive(Debug, Clone, Copy)]
pub struct ScheduledAction {
    pub action_id: ActionId,
}

/// Progress of a deferred code run, as the runtime reports it.
#[derive(Debug, Clone)]
pub enum ActionRunStatus {
    RunSubmitted,
    RunStarted,
    ActionEnqueued { engine_action_id: ActionId, skill_name: String, action_name: String },
    ActionClaimed {
        engine_action_id: ActionId,
        skill_name: String,
        action_name: String,
        worker_id: String,
    },
    ActionCompleted { engine_action_id: ActionId, skill_name: String, action_name: String },
    ActionFailed {
        engine_action_id: ActionId,
        skill_name: String,
        action_name: String,
        message: String,
    },
    RunResumed,
}

/// An event in a participant's inbox.
#[derive(Debug, Clone)]
pub enum ParticipantInboxEvent<A, U> {
    Message { from: ParticipantId, content: String },
    ActionScheduled { action_id: ActionId, action: A },
    ActionCompleted { action_id: ActionId, outcome: U },
    ActionFailed { action_id: ActionId, error: ActionError },
    Notification { message: String },
}

/// An event the environment reports about deferred actions.
#[derive(Debug, Clone)]
pub enum EnvironmentEvent<A, U> {
    ActionScheduled { participant: ParticipantId, action_id: ActionId, action: A },
    ActionRunStatus {
        participant: ParticipantId,
        action_id: ActionId,
        run_id: RunId,
        status: ActionRunStatus,
    },
    ActionCompleted { participant: ParticipantId, action_id: ActionId, outcome: U },
    ActionFailed { participant: ParticipantId, action_id: ActionId, error: ActionError },
    Notification { participant: ParticipantId, message: String },
}

/// One recorded step of a run.
#[derive(Debug, Clone)]
pub enum TrajectoryEvent<O, A, U> {
    SessionStarted { task: TaskSpec },
    ObservationRecorded { observation: O },
    ParticipantMessage { participant: ParticipantId, content: String },
    ActionRequested { participant: ParticipantId, action: A, execution: ActionExecution },
    ActionScheduled {
        participant: ParticipantId,
        action_id: ActionId,
        action: A,
        execution: ActionExecution,
    },
    ActionRunStatus {
        participant: ParticipantId,
        action_id: ActionId,
        run_id: RunId,
        status: ActionRunStatus,
    },
    ActionCompleted { participant: ParticipantId, action_id: ActionId, outcome: U },
    ActionFailed { participant: ParticipantId, action_id: ActionId, error: ActionError },
    ParticipantYielded { participant: ParticipantId },
    ParticipantLoopCompleted { participant: ParticipantId },
    ParticipantFinished { participant: ParticipantId },
    SessionFinished { reason: FinishReason },
    EvaluationCompleted { result: EvalResult },
}

/// The recorded history of a run.
#[derive(Debug, Clone)]
pub struct Trajectory<O, A, U> {
    pub run_id: RunId,
    pub events: Vec<TrajectoryEvent<O, A, U>>,
}

impl<O, A, U> Trajectory<O, A, U> {
    /// An empty trajectory for `run_id`.
    pub fn new(run_id: RunId) -> (r: Self)
        ensures
            r.run_id == run_id,
            r.events@.len() == 0,
    {
        Trajectory { run_id, events: Vec::new() }
    }

    /// Appends one event.
    pub fn push(&mut self, event: TrajectoryEvent<O, A, U>)
        ensures
            final(self).run_id == old(self).run_id,
            final(self).events@ == old(self).events@.push(event),
    {
        self.events.push(event);
    }
}

/// The message that opened an agent loop.
#[derive(Debug, Clone)]
pub struct WorkItem {
    pub id: WorkItemId,
    pub from: ParticipantId,
    pub content: String,
}

/// What a participant is shown when it takes a turn.
#[derive(Debug, Clone)]
pub struct ParticipantInput<O, A, U> {
    pub run_id: RunId,
    pub agent_loop_id: WorkItemId,
    pub agent_loop_iteration: usize,
    pub participant: ParticipantId,
    pub work_item: Option<WorkItem>,
    pub task: TaskSpec,
    pub limits: RunLimits,
    pub observation: O,
    pub inbox: Vec<ParticipantInboxEvent<A, U>>,
    pub trajectory: Trajectory<O, A, U>,
}

/// What a participant decided on its turn.
#[derive(Debug, Clone, PartialEq, Eq)]
pub enum ParticipantDecision<A> {
    /// A message to the others; the agent loop goes on.
    Message { content: String },
    /// A message that completes the current agent loop.
    FinalMessage { content: String },
    /// An action, optionally announced by a message.
    Action { message: Option<String>, action: A, execution: ActionExecution },
    /// Nothing to do this turn.
    Yield,
    /// The participant is done for the whole run.
    Finish,
}

/// The result of a run.
#[derive(Debug, Clone)]
pub struct RunResult<O, A, U> {
    pub run_id: RunId,
    pub finish_reason: FinishReason,
    pub trajectory: Trajectory<O, A, U>,
    pub evaluation: Option<EvalResult>,
}

impl TaskSpec {
    /// The same task, with its id and instructions cloned.
    pub fn copy(&self) -> (r: TaskSpec)
        ensures
            r == *self,
    {
        TaskSpec { id: self.id.clone(), instructions: self.instructions.clone() }
    }
}

impl ActionError {
    /// A copy of this error.
    pub fn copy(&self) -> (r: ActionError)
        ensures
            r == *self,
    {
        ActionError {
            user_message: self.user_message.clone(),
            detail: self.detail.clone(),
            origin: self.origin,
        }
    }
}

impl WorkItem {
    /// A copy of this work item.
    pub fn copy(&self) -> (r: WorkItem)
        ensures
            r == *self,
    {
        WorkItem { id: self.id, from: self.from.copy(), content: self.content.clone() }
    }
}

/// Why a participant could not take its turn.
#[derive(Debug, Clone, PartialEq, Eq)]
pub struct ParticipantError {
    pub message: String,
}

impl ParticipantError {
    /// An error with this message.
    pub fn new(message: String) -> (r: Self)
        ensures
            r.message == message,
    {
        ParticipantError { message }
    }
}

} // verus!
