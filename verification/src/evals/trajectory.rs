//! The record of a run as an evaluation keeps it: a trace of the
//! conversation and actions, and every trajectory event in plain fields.
use vstd::prelude::*;

use crate::domain::ids::{uuid_string, uuid_text};
use crate::evals::criteria::{
    action_criteria_failures, action_record, evaluate_requested_actions, outcome_record,
    summary_text, SerializedAction, SerializedOutcome,
};
use crate::evals::document::DocView;
use crate::evals::spec::EvalSpec;
use crate::orchestrator::types::EvalResult;
use crate::orchestrator::types::{
    ActionErrorOrigin, ActionExecution, ActionRunStatus, FinishReason, ParticipantId, Trajectory,
    TrajectoryEvent,
};
use crate::text::{debug_quote, debug_str, decimal, decimal_text, string_push_str};

verus! {

/// Turns a run's actions and outcomes into what an evaluation records of
/// them.
pub trait EvalActionAdapter<A, U> {
    /// What the adapter records of an action: its name and arguments.
    spec fn action_view(&self, action: A) -> (Seq<char>, Option<DocView>);

    /// What the adapter records of an outcome: its name and payload.
    spec fn outcome_view(&self, outcome: U) -> (Seq<char>, Option<DocView>);

    fn serialize_action(&self, action: &A) -> (r: SerializedAction)
        ensures
            action_record(r) == self.action_view(*action),
    ;

    fn serialize_outcome(&self, outcome: &U) -> (r: SerializedOutcome)
        ensures
            outcome_record(r) == self.outcome_view(*outcome),
    ;
}

/// An entry of the evaluation trace.
#[derive(Debug, Clone)]
pub enum EvalTraceEvent {
    UserMessage { content: String },
    AgentMessage { content: String },
    ActionRequested { action: SerializedAction },
    ActionCompleted { outcome: SerializedOutcome },
    ActionFailed { message: String },
}

/// A trajectory event with its position.
#[derive(Debug, Clone)]
pub struct EvalTrajectoryEvent {
    pub sequence: usize,
    pub payload: EvalTrajectoryPayload,
}

/// A trajectory event in plain fields.
#[derive(Debug, Clone)]
pub enum EvalTrajectoryPayload {
    SessionStarted { task_id: String, instructions: String },
    ObservationRecorded,
    ParticipantMessage { participant: String, content: String },
    ActionRequested { participant: String, action: SerializedAction, execution: String },
    ActionRunStatus {
        participant: String,
        action_id: String,
        run_id: String,
        status: EvalTrajectoryActionRunStatus,
    },
    ActionScheduled {
        participant: String,
        action_id: String,
        action: SerializedAction,
        execution: String,
    },
    ActionCompleted { participant: String, action_id: String, outcome: SerializedOutcome },
    ActionFailed {
        participant: String,
        action_id: String,
        user_message: String,
        detail: String,
        origin: String,
    },
    ParticipantNotification { participant: String, content: String },
    ParticipantYielded { participant: String },
    ParticipantLoopCompleted { participant: String },
    ParticipantFinished { participant: String },
    SessionFinished { reason: String },
    EvaluationCompleted { passed: bool, summary: Option<String> },
}

/// A deferred run's progress in plain fields.
#[derive(Debug, Clone)]
pub enum EvalTrajectoryActionRunStatus {
    RunSubmitted,
    RunStarted,
    ActionEnqueued { engine_action_id: String, skill_name: String, action_name: String },
    ActionClaimed {
        engine_action_id: String,
        skill_name: String,
        action_name: String,
        worker_id: String,
    },
    ActionCompleted { engine_action_id: String, skill_name: String, action_name: String },
    ActionFailed {
        engine_action_id: String,
        skill_name: String,
        action_name: String,
        message: String,
    },
    RunResumed,
}

/// How a participant is named in a recorded trajectory.
pub open spec fn participant_label(p: ParticipantId) -> Seq<char> {
    match p {
        ParticipantId::Agent => "agent"@,
        ParticipantId::User => "user"@,
        ParticipantId::Custom(name) => name@,
    }
}

/// How an execution mode is named in a recorded trajectory.
pub open spec fn execution_label(e: ActionExecution) -> Seq<char> {
    match e {
        ActionExecution::Immediate => "immediate"@,
        ActionExecution::DeferredBlocking => "deferred_blocking"@,
        ActionExecution::DeferredNonBlocking => "deferred_non_blocking"@,
    }
}

/// The `Debug` rendering of an error origin.
pub open spec fn origin_label(o: ActionErrorOrigin) -> Seq<char> {
    match o {
        ActionErrorOrigin::Orchestrator => "Orchestrator"@,
        ActionErrorOrigin::Environment => "Environment"@,
        ActionErrorOrigin::Runtime => "Runtime"@,
        ActionErrorOrigin::Interpreter => "Interpreter"@,
    }
}

/// The `Debug` rendering of a participant id.
pub open spec fn participant_debug(p: ParticipantId) -> Seq<char> {
    match p {
        ParticipantId::Agent => "Agent"@,
        ParticipantId::User => "User"@,
        ParticipantId::Custom(name) => "Custom("@ + debug_str(name@) + ")"@,
    }
}

/// The `Debug` rendering of a finish reason.
pub open spec fn finish_reason_debug(r: FinishReason) -> Seq<char> {
    match r {
        FinishReason::ParticipantsFinished => "ParticipantsFinished"@,
        FinishReason::ParticipantFinished { participant } => "ParticipantFinished { participant: "@
            + participant_debug(participant) + " }"@,
        FinishReason::ParticipantCompletedLoop { participant } =>
            "ParticipantCompletedLoop { participant: "@ + participant_debug(participant) + " }"@,
        FinishReason::StepLimitExceeded => "StepLimitExceeded"@,
        FinishReason::AgentLoopStepLimitExceeded { participant } =>
            "AgentLoopStepLimitExceeded { participant: "@ + participant_debug(participant) + " }"@,
        FinishReason::ActionLimitExceeded => "ActionLimitExceeded"@,
        FinishReason::FailedActionLimitExceeded { total_failures, consecutive_failures } =>
            "FailedActionLimitExceeded { total_failures: "@ + decimal(total_failures as nat)
            + ", consecutive_failures: "@ + decimal(consecutive_failures as nat) + " }"@,
        FinishReason::BlockedActionWaitExceeded => "BlockedActionWaitExceeded"@,
        FinishReason::MessageLimitExceeded => "MessageLimitExceeded"@,
        FinishReason::TimeLimitExceeded => "TimeLimitExceeded"@,
        FinishReason::ParticipantError { participant, message } =>
            "ParticipantError { participant: "@ + participant_debug(participant) + ", message: "@
            + debug_str(message@) + " }"@,
        FinishReason::EnvironmentError(m) => "EnvironmentError("@ + debug_str(m@) + ")"@,
        FinishReason::EnvironmentTerminated(m) => "EnvironmentTerminated("@ + debug_str(m@) + ")"@,
        FinishReason::Deadlocked => "Deadlocked"@,
    }
}

/// How a participant is named in a recorded trajectory.
pub fn serialize_participant_id(p: &ParticipantId) -> (r: String)
    ensures
        r@ == participant_label(*p),
{
    match p {
        ParticipantId::Agent => "agent".to_owned(),
        ParticipantId::User => "user".to_owned(),
        ParticipantId::Custom(name) => name.clone(),
    }
}

fn serialize_action_execution(e: ActionExecution) -> (r: String)
    ensures
        r@ == execution_label(e),
{
    match e {
        ActionExecution::Immediate => "immediate".to_owned(),
        ActionExecution::DeferredBlocking => "deferred_blocking".to_owned(),
        ActionExecution::DeferredNonBlocking => "deferred_non_blocking".to_owned(),
    }
}

fn origin_debug(o: ActionErrorOrigin) -> (r: String)
    ensures
        r@ == origin_label(o),
{
    match o {
        ActionErrorOrigin::Orchestrator => "Orchestrator".to_owned(),
        ActionErrorOrigin::Environment => "Environment".to_owned(),
        ActionErrorOrigin::Runtime => "Runtime".to_owned(),
        ActionErrorOrigin::Interpreter => "Interpreter".to_owned(),
    }
}

fn participant_debug_text(p: &ParticipantId) -> (r: String)
    ensures
        r@ == participant_debug(*p),
{
    match p {
        ParticipantId::Agent => "Agent".to_owned(),
        ParticipantId::User => "User".to_owned(),
        ParticipantId::Custom(name) => {
            let mut s = String::new();
            string_push_str(&mut s, "Custom(");
            let q = debug_quote(name.as_str());
            string_push_str(&mut s, q.as_str());
            string_push_str(&mut s, ")");
            assert(s@ =~= participant_debug(*p));
            s
        },
    }
}

/// The `Debug` rendering of a finish reason.
pub fn finish_reason_debug_text(r: &FinishReason) -> (s: String)
    ensures
        s@ == finish_reason_debug(*r),
{
    let mut s = String::new();
    match r {
        FinishReason::ParticipantsFinished => string_push_str(&mut s, "ParticipantsFinished"),
        FinishReason::ParticipantFinished { participant } => {
            string_push_str(&mut s, "ParticipantFinished { participant: ");
            let p = participant_debug_text(participant);
            string_push_str(&mut s, p.as_str());
            string_push_str(&mut s, " }");
        },
        FinishReason::ParticipantCompletedLoop { participant } => {
            string_push_str(&mut s, "ParticipantCompletedLoop { participant: ");
            let p = participant_debug_text(participant);
            string_push_str(&mut s, p.as_str());
            string_push_str(&mut s, " }");
        },
        FinishReason::StepLimitExceeded => string_push_str(&mut s, "StepLimitExceeded"),
        FinishReason::AgentLoopStepLimitExceeded { participant } => {
            string_push_str(&mut s, "AgentLoopStepLimitExceeded { participant: ");
            let p = participant_debug_text(participant);
            string_push_str(&mut s, p.as_str());
            string_push_str(&mut s, " }");
        },
        FinishReason::ActionLimitExceeded => string_push_str(&mut s, "ActionLimitExceeded"),
        FinishReason::FailedActionLimitExceeded { total_failures, consecutive_failures } => {
            string_push_str(&mut s, "FailedActionLimitExceeded { total_failures: ");
            let a = decimal_text(*total_failures as u64);
            string_push_str(&mut s, a.as_str());
            string_push_str(&mut s, ", consecutive_failures: ");
            let b = decimal_text(*consecutive_failures as u64);
            string_push_str(&mut s, b.as_str());
            string_push_str(&mut s, " }");
        },
        FinishReason::BlockedActionWaitExceeded => string_push_str(
            &mut s,
            "BlockedActionWaitExceeded",
        ),
        FinishReason::MessageLimitExceeded => string_push_str(&mut s, "MessageLimitExceeded"),
        FinishReason::TimeLimitExceeded => string_push_str(&mut s, "TimeLimitExceeded"),
        FinishReason::ParticipantError { participant, message } => {
            string_push_str(&mut s, "ParticipantError { participant: ");
            let p = participant_debug_text(participant);
            string_push_str(&mut s, p.as_str());
            string_push_str(&mut s, ", message: ");
            let m = debug_quote(message.as_str());
            string_push_str(&mut s, m.as_str());
            string_push_str(&mut s, " }");
        },
        FinishReason::EnvironmentError(m) => {
            string_push_str(&mut s, "EnvironmentError(");
            let q = debug_quote(m.as_str());
            string_push_str(&mut s, q.as_str());
            string_push_str(&mut s, ")");
        },
        FinishReason::EnvironmentTerminated(m) => {
            string_push_str(&mut s, "EnvironmentTerminated(");
            let q = debug_quote(m.as_str());
            string_push_str(&mut s, q.as_str());
            string_push_str(&mut s, ")");
        },
        FinishReason::Deadlocked => string_push_str(&mut s, "Deadlocked"),
    }
    assert(s@ =~= finish_reason_debug(*r));
    s
}

/// `s` is the plain form of run status `st`.
pub open spec fn status_matches(s: EvalTrajectoryActionRunStatus, st: ActionRunStatus) -> bool {
    match st {
        ActionRunStatus::RunSubmitted => s is RunSubmitted,
        ActionRunStatus::RunStarted => s is RunStarted,
        ActionRunStatus::ActionEnqueued { engine_action_id, skill_name, action_name } => s matches EvalTrajectoryActionRunStatus::ActionEnqueued {
            engine_action_id: e,
            skill_name: k,
            action_name: a,
        } && e@ == uuid_text(engine_action_id.value) && k == skill_name && a == action_name,
        ActionRunStatus::ActionClaimed { engine_action_id, skill_name, action_name, worker_id } => s matches EvalTrajectoryActionRunStatus::ActionClaimed {
            engine_action_id: e,
            skill_name: k,
            action_name: a,
            worker_id: w,
        } && e@ == uuid_text(engine_action_id.value) && k == skill_name && a == action_name && w
            == worker_id,
        ActionRunStatus::ActionCompleted { engine_action_id, skill_name, action_name } => s matches EvalTrajectoryActionRunStatus::ActionCompleted {
            engine_action_id: e,
            skill_name: k,
            action_name: a,
        } && e@ == uuid_text(engine_action_id.value) && k == skill_name && a == action_name,
        ActionRunStatus::ActionFailed { engine_action_id, skill_name, action_name, message } => s matches EvalTrajectoryActionRunStatus::ActionFailed {
            engine_action_id: e,
            skill_name: k,
            action_name: a,
            message: m,
        } && e@ == uuid_text(engine_action_id.value) && k == skill_name && a == action_name && m
            == message,
        ActionRunStatus::RunResumed => s is RunResumed,
    }
}

fn serialize_action_run_status(st: &ActionRunStatus) -> (s: EvalTrajectoryActionRunStatus)
    ensures
        status_matches(s, *st),
{
    match st {
        ActionRunStatus::RunSubmitted => EvalTrajectoryActionRunStatus::RunSubmitted,
        ActionRunStatus::RunStarted => EvalTrajectoryActionRunStatus::RunStarted,
        ActionRunStatus::ActionEnqueued { engine_action_id, skill_name, action_name } =>
            EvalTrajectoryActionRunStatus::ActionEnqueued {
            engine_action_id: uuid_string(engine_action_id.value),
            skill_name: skill_name.clone(),
            action_name: action_name.clone(),
        },
        ActionRunStatus::ActionClaimed { engine_action_id, skill_name, action_name, worker_id } =>
            EvalTrajectoryActionRunStatus::ActionClaimed {
            engine_action_id: uuid_string(engine_action_id.value),
            skill_name: skill_name.clone(),
            action_name: action_name.clone(),
            worker_id: worker_id.clone(),
        },
        ActionRunStatus::ActionCompleted { engine_action_id, skill_name, action_name } =>
            EvalTrajectoryActionRunStatus::ActionCompleted {
            engine_action_id: uuid_string(engine_action_id.value),
            skill_name: skill_name.clone(),
            action_name: action_name.clone(),
        },
        ActionRunStatus::ActionFailed { engine_action_id, skill_name, action_name, message } =>
            EvalTrajectoryActionRunStatus::ActionFailed {
            engine_action_id: uuid_string(engine_action_id.value),
            skill_name: skill_name.clone(),
            action_name: action_name.clone(),
            message: message.clone(),
        },
        ActionRunStatus::RunResumed => EvalTrajectoryActionRunStatus::RunResumed,
    }
}

/// `p` is the plain form of trajectory event `e`, its actions and outcomes
/// as `adapter` records them.
pub open spec fn payload_matches<T: EvalActionAdapter<A, U>, O, A, U>(
    adapter: T,
    p: EvalTrajectoryPayload,
    e: TrajectoryEvent<O, A, U>,
) -> bool {
    match e {
        TrajectoryEvent::SessionStarted { task } => p matches EvalTrajectoryPayload::SessionStarted {
            task_id,
            instructions,
        } && task_id == task.id && instructions == task.instructions,
        TrajectoryEvent::ObservationRecorded { .. } => p is ObservationRecorded,
        TrajectoryEvent::ParticipantMessage { participant, content } => p matches EvalTrajectoryPayload::ParticipantMessage {
            participant: q,
            content: c,
        } && q@ == participant_label(participant) && c == content,
        TrajectoryEvent::ActionRequested { participant, action, execution } => p matches EvalTrajectoryPayload::ActionRequested {
            participant: q,
            action: sa,
            execution: x,
        } && q@ == participant_label(participant) && x@ == execution_label(execution)
            && action_record(sa) == adapter.action_view(action),
        TrajectoryEvent::ActionRunStatus { participant, action_id, run_id, status } => p matches EvalTrajectoryPayload::ActionRunStatus {
            participant: q,
            action_id: a,
            run_id: r,
            status: s,
        } && q@ == participant_label(participant) && a@ == uuid_text(action_id.value) && r@
            == uuid_text(run_id.value) && status_matches(s, status),
        TrajectoryEvent::ActionScheduled { participant, action_id, action, execution } => p matches EvalTrajectoryPayload::ActionScheduled {
            participant: q,
            action_id: a,
            action: sa,
            execution: x,
        } && q@ == participant_label(participant) && a@ == uuid_text(action_id.value) && x@
            == execution_label(execution) && action_record(sa) == adapter.action_view(action),
        TrajectoryEvent::ActionCompleted { participant, action_id, outcome } => p matches EvalTrajectoryPayload::ActionCompleted {
            participant: q,
            action_id: a,
            outcome: so,
        } && q@ == participant_label(participant) && a@ == uuid_text(action_id.value)
            && outcome_record(so) == adapter.outcome_view(outcome),
        TrajectoryEvent::ActionFailed { participant, action_id, error } => p matches EvalTrajectoryPayload::ActionFailed {
            participant: q,
            action_id: a,
            user_message: um,
            detail: d,
            origin: o,
        } && q@ == participant_label(participant) && a@ == uuid_text(action_id.value) && um
            == error.user_message && d == error.detail && o@ == origin_label(error.origin),
        TrajectoryEvent::ParticipantYielded { participant } => p matches EvalTrajectoryPayload::ParticipantYielded {
            participant: q,
        } && q@ == participant_label(participant),
        TrajectoryEvent::ParticipantLoopCompleted { participant } => p matches EvalTrajectoryPayload::ParticipantLoopCompleted {
            participant: q,
        } && q@ == participant_label(participant),
        TrajectoryEvent::ParticipantFinished { participant } => p matches EvalTrajectoryPayload::ParticipantFinished {
            participant: q,
        } && q@ == participant_label(participant),
        TrajectoryEvent::SessionFinished { reason } => p matches EvalTrajectoryPayload::SessionFinished {
            reason: r,
        } && r@ == finish_reason_debug(reason),
        TrajectoryEvent::EvaluationCompleted { result } => p matches EvalTrajectoryPayload::EvaluationCompleted {
            passed,
            summary,
        } && passed == result.passed && summary == result.summary,
    }
}

fn serialize_event<T: EvalActionAdapter<A, U>, O, A, U>(
    event: &TrajectoryEvent<O, A, U>,
    adapter: &T,
) -> (p: EvalTrajectoryPayload)
    ensures
        payload_matches(*adapter, p, *event),
{
    match event {
        TrajectoryEvent::SessionStarted { task } => EvalTrajectoryPayload::SessionStarted {
            task_id: task.id.clone(),
            instructions: task.instructions.clone(),
        },
        TrajectoryEvent::ObservationRecorded { .. } => EvalTrajectoryPayload::ObservationRecorded,
        TrajectoryEvent::ParticipantMessage { participant, content } =>
            EvalTrajectoryPayload::ParticipantMessage {
            participant: serialize_participant_id(participant),
            content: content.clone(),
        },
        TrajectoryEvent::ActionRequested { participant, action, execution } =>
            EvalTrajectoryPayload::ActionRequested {
            participant: serialize_participant_id(participant),
            action: adapter.serialize_action(action),
            execution: serialize_action_execution(*execution),
        },
        TrajectoryEvent::ActionRunStatus { participant, action_id, run_id, status } =>
            EvalTrajectoryPayload::ActionRunStatus {
            participant: serialize_participant_id(participant),
            action_id: uuid_string(action_id.value),
            run_id: uuid_string(run_id.value),
            status: serialize_action_run_status(status),
        },
        TrajectoryEvent::ActionScheduled { participant, action_id, action, execution } =>
            EvalTrajectoryPayload::ActionScheduled {
            participant: serialize_participant_id(participant),
            action_id: uuid_string(action_id.value),
            action: adapter.serialize_action(action),
            execution: serialize_action_execution(*execution),
        },
        TrajectoryEvent::ActionCompleted { participant, action_id, outcome } =>
            EvalTrajectoryPayload::ActionCompleted {
            participant: serialize_participant_id(participant),
            action_id: uuid_string(action_id.value),
            outcome: adapter.serialize_outcome(outcome),
        },
        TrajectoryEvent::ActionFailed { participant, action_id, error } =>
            EvalTrajectoryPayload::ActionFailed {
            participant: serialize_participant_id(participant),
            action_id: uuid_string(action_id.value),
            user_message: error.user_message.clone(),
            detail: error.detail.clone(),
            origin: origin_debug(error.origin),
        },
        TrajectoryEvent::ParticipantYielded { participant } =>
            EvalTrajectoryPayload::ParticipantYielded {
            participant: serialize_participant_id(participant),
        },
        TrajectoryEvent::ParticipantLoopCompleted { participant } =>
            EvalTrajectoryPayload::ParticipantLoopCompleted {
            participant: serialize_participant_id(participant),
        },
        TrajectoryEvent::ParticipantFinished { participant } =>
            EvalTrajectoryPayload::ParticipantFinished {
            participant: serialize_participant_id(participant),
        },
        TrajectoryEvent::SessionFinished { reason } => EvalTrajectoryPayload::SessionFinished {
            reason: finish_reason_debug_text(reason),
        },
        TrajectoryEvent::EvaluationCompleted { result } =>
            EvalTrajectoryPayload::EvaluationCompleted {
            passed: result.passed,
            summary: crate::canonical::ir::copy_opt_string(&result.summary),
        },
    }
}

/// Every event of a trajectory, numbered from zero, in plain fields.
pub fn serialize_trajectory_events<T: EvalActionAdapter<A, U>, O, A, U>(
    trajectory: &Trajectory<O, A, U>,
    adapter: &T,
) -> (r: Vec<EvalTrajectoryEvent>)
    ensures
        r@.len() == trajectory.events@.len(),
        forall|i: int|
            0 <= i < r@.len() ==> (#[trigger] r@[i]).sequence == i && payload_matches(
                *adapter,
                r@[i].payload,
                trajectory.events@[i],
            ),
{
    let mut out: Vec<EvalTrajectoryEvent> = Vec::new();
    for i in 0..trajectory.events.len()
        invariant
            out@.len() == i,
            forall|j: int|
                0 <= j < i ==> (#[trigger] out@[j]).sequence == j && payload_matches(
                    *adapter,
                    out@[j].payload,
                    trajectory.events@[j],
                ),
    {
        let payload = serialize_event(&trajectory.events[i], adapter);
        out.push(EvalTrajectoryEvent { sequence: i, payload });
    }
    out
}

/// The trajectory events the trace keeps: user and agent messages, and
/// action requests, completions and failures.
pub open spec fn traced<O, A, U>(e: TrajectoryEvent<O, A, U>) -> bool {
    match e {
        TrajectoryEvent::ParticipantMessage { participant, .. } => participant is User
            || participant is Agent,
        TrajectoryEvent::ActionRequested { .. } => true,
        TrajectoryEvent::ActionCompleted { .. } => true,
        TrajectoryEvent::ActionFailed { .. } => true,
        _ => false,
    }
}

/// The traced events of a list, in order.
pub open spec fn traced_events<O, A, U>(events: Seq<TrajectoryEvent<O, A, U>>) -> Seq<
    TrajectoryEvent<O, A, U>,
>
    decreases events.len(),
{
    if events.len() == 0 {
        Seq::empty()
    } else if traced(events.last()) {
        traced_events(events.drop_last()).push(events.last())
    } else {
        traced_events(events.drop_last())
    }
}

/// `t` is the trace entry of event `e`, its actions and outcomes as
/// `adapter` records them.
pub open spec fn trace_matches<T: EvalActionAdapter<A, U>, O, A, U>(
    adapter: T,
    t: EvalTraceEvent,
    e: TrajectoryEvent<O, A, U>,
) -> bool {
    match e {
        TrajectoryEvent::ParticipantMessage { participant, content } => match participant {
            ParticipantId::User => t matches EvalTraceEvent::UserMessage { content: c } && c
                == content,
            ParticipantId::Agent => t matches EvalTraceEvent::AgentMessage { content: c } && c
                == content,
            _ => false,
        },
        TrajectoryEvent::ActionRequested { action, .. } => t matches EvalTraceEvent::ActionRequested {
            action: sa,
        } && action_record(sa) == adapter.action_view(action),
        TrajectoryEvent::ActionCompleted { outcome, .. } => t matches EvalTraceEvent::ActionCompleted {
            outcome: so,
        } && outcome_record(so) == adapter.outcome_view(outcome),
        TrajectoryEvent::ActionFailed { error, .. } => t matches EvalTraceEvent::ActionFailed {
            message,
        } && message == error.detail,
        _ => false,
    }
}

/// The trace of a run: its user and agent messages and its action requests,
/// completions and failures, in order.
pub fn trajectory_trace_events<T: EvalActionAdapter<A, U>, O, A, U>(
    trajectory: &Trajectory<O, A, U>,
    adapter: &T,
) -> (r: Vec<EvalTraceEvent>)
    ensures
        r@.len() == traced_events(trajectory.events@).len(),
        forall|i: int|
            0 <= i < r@.len() ==> trace_matches(
                *adapter,
                #[trigger] r@[i],
                traced_events(trajectory.events@)[i],
            ),
{
    let ghost evs = trajectory.events@;
    let mut out: Vec<EvalTraceEvent> = Vec::new();
    for i in 0..trajectory.events.len()
        invariant
            evs == trajectory.events@,
            out@.len() == traced_events(evs.take(i as int)).len(),
            forall|j: int|
                0 <= j < out@.len() ==> trace_matches(
                    *adapter,
                    #[trigger] out@[j],
                    traced_events(evs.take(i as int))[j],
                ),
    {
        let ghost t = evs.take(i + 1);
        assert(t.drop_last() =~= evs.take(i as int));
        assert(t.last() == evs[i as int]);
        let entry: Option<EvalTraceEvent> = match &trajectory.events[i] {
            TrajectoryEvent::ParticipantMessage { participant, content } => match participant {
                ParticipantId::User => Some(EvalTraceEvent::UserMessage { content: content.clone() }),
                ParticipantId::Agent => Some(
                    EvalTraceEvent::AgentMessage { content: content.clone() },
                ),
                _ => None,
            },
            TrajectoryEvent::ActionRequested { action, .. } => Some(
                EvalTraceEvent::ActionRequested { action: adapter.serialize_action(action) },
            ),
            TrajectoryEvent::ActionCompleted { outcome, .. } => Some(
                EvalTraceEvent::ActionCompleted { outcome: adapter.serialize_outcome(outcome) },
            ),
            TrajectoryEvent::ActionFailed { error, .. } => Some(
                EvalTraceEvent::ActionFailed { message: error.detail.clone() },
            ),
            _ => None,
        };
        match entry {
            Some(e) => {
                out.push(e);
            },
            None => {},
        }
    }
    assert(evs.take(evs.len() as int) =~= evs);
    out
}

/// How many actions the agent requested in a list of events.
pub open spec fn agent_requests<O, A, U>(events: Seq<TrajectoryEvent<O, A, U>>) -> nat
    decreases events.len(),
{
    if events.len() == 0 {
        0
    } else {
        agent_requests(events.drop_last()) + match events.last() {
            TrajectoryEvent::ActionRequested { participant: ParticipantId::Agent, .. } => 1nat,
            _ => 0nat,
        }
    }
}

/// The actions the agent requested in a list of events, in order.
pub open spec fn agent_actions<O, A, U>(events: Seq<TrajectoryEvent<O, A, U>>) -> Seq<A>
    decreases events.len(),
{
    if events.len() == 0 {
        Seq::empty()
    } else {
        let prev = agent_actions(events.drop_last());
        match events.last() {
            TrajectoryEvent::ActionRequested { participant: ParticipantId::Agent, action, .. } =>
                prev.push(action),
            _ => prev,
        }
    }
}

proof fn lemma_agent_actions_len<O, A, U>(events: Seq<TrajectoryEvent<O, A, U>>)
    ensures
        agent_actions(events).len() == agent_requests(events),
    decreases events.len(),
{
    if events.len() > 0 {
        lemma_agent_actions_len(events.drop_last());
    }
}

/// Judges a run by its spec's action criteria.
#[derive(Debug, Clone)]
pub struct SpecEvaluator<T> {
    pub spec: EvalSpec,
    pub action_adapter: T,
}

impl<T> SpecEvaluator<T> {
    /// An evaluator for a spec, seeing actions through an adapter.
    pub fn new(spec: EvalSpec, action_adapter: T) -> (r: Self)
        ensures
            r.spec == spec,
            r.action_adapter == action_adapter,
    {
        SpecEvaluator { spec, action_adapter }
    }

    /// The actions the agent requested in a trajectory, in order, as the
    /// adapter renders them.
    pub fn requested_actions<O, A, U>(&self, trajectory: &Trajectory<O, A, U>) -> (r: Vec<
        SerializedAction,
    >) where T: EvalActionAdapter<A, U>
        ensures
            r@.len() == agent_requests(trajectory.events@),
            r@.len() == agent_actions(trajectory.events@).len(),
            forall|i: int|
                0 <= i < r@.len() ==> action_record(#[trigger] r@[i])
                    == self.action_adapter.action_view(agent_actions(trajectory.events@)[i]),
    {
        let mut out: Vec<SerializedAction> = Vec::new();
        proof {
            lemma_agent_actions_len(trajectory.events@);
        }
        for i in 0..trajectory.events.len()
            invariant
                out@.len() == agent_requests(trajectory.events@.take(i as int)),
                out@.len() == agent_actions(trajectory.events@.take(i as int)).len(),
                forall|j: int|
                    0 <= j < out@.len() ==> action_record(#[trigger] out@[j])
                        == self.action_adapter.action_view(
                        agent_actions(trajectory.events@.take(i as int))[j],
                    ),
        {
            assert(trajectory.events@.take(i + 1).drop_last() =~= trajectory.events@.take(i as int));
            assert(trajectory.events@.take(i + 1).last() == trajectory.events@[i as int]);
            match &trajectory.events[i] {
                TrajectoryEvent::ActionRequested { participant: ParticipantId::Agent, action, .. } => {
                    out.push(self.action_adapter.serialize_action(action));
                },
                _ => {},
            }
        }
        assert(trajectory.events@.take(trajectory.events@.len() as int) =~= trajectory.events@);
        out
    }

    /// Judges a trajectory by the spec's action criteria: the agent's
    /// requested actions must meet every action sequence and count.
    pub fn evaluate<O, A, U>(&self, trajectory: &Trajectory<O, A, U>) -> (r: EvalResult) where
        T: EvalActionAdapter<A, U>,

        ensures
            exists|requested: Seq<SerializedAction>|
                requested.len() == agent_requests(trajectory.events@) && (forall|i: int|
                    0 <= i < requested.len() ==> action_record(#[trigger] requested[i])
                        == self.action_adapter.action_view(agent_actions(trajectory.events@)[i]))
                    && r.passed == (
                action_criteria_failures(self.spec.evaluation.criteria@, requested).len() == 0)
                    && (r.summary matches Some(s) && s@ == summary_text(
                    action_criteria_failures(self.spec.evaluation.criteria@, requested),
                )),
    {
        let requested = self.requested_actions(trajectory);
        evaluate_requested_actions(&self.spec.evaluation.criteria, &requested)
    }
}

} // verus!