//! Applying a participant's decision to the run, and recording what the
//! environment did with an action.
use vstd::prelude::*;

use crate::domain::ids::ActionId;
use crate::orchestrator::participant::{
    held_events, ActiveLoop, LoopExecutionState, ParticipantRuntimeState,
};
use crate::orchestrator::policy::{
    format_action_run_status, run_status_line, finish_termination, loop_termination, loop_termination_condition_met,
    termination_condition_met, RunCounters,
};
use crate::orchestrator::state::{
    appended_one, delivered_to_first, distinct_finished, find_participant,
    finished_participant_count, first_named, routed_message, same_roster, RunState,
};
use crate::orchestrator::types::{
    ActionError, ActionExecution, EnvironmentEvent, FinishReason, ParticipantDecision,
    ParticipantId, ParticipantInboxEvent, RunRequest, TrajectoryEvent,
};

verus! {

broadcast use vstd::std_specs::btree::group_btree_axioms;

/// `after` is `before` with one turn counted for the loop of the first
/// participant with id `id`.
pub open spec fn turn_progressed<A, U>(
    before: Seq<ParticipantRuntimeState<A, U>>,
    after: Seq<ParticipantRuntimeState<A, U>>,
    id: ParticipantId,
) -> bool {
    &&& same_roster(before, after)
    &&& forall|k: int|
        0 <= k < before.len() ==> if first_named(before, id, k) {
            &&& (#[trigger] after[k]).finished == before[k].finished
            &&& after[k].pending_inbox == before[k].pending_inbox
            &&& match before[k].active_loop {
                Some(l) => after[k].active_loop == Some(
                    ActiveLoop { step_count: (l.step_count + 1) as usize, ..l },
                ),
                None => after[k].active_loop is None,
            }
        } else {
            after[k] == before[k]
        }
}

/// `after` is `before` with the loop of the first participant with id `id`
/// counted and closed, its unread events waiting for the next loop.
pub open spec fn loop_completed<A, U>(
    before: Seq<ParticipantRuntimeState<A, U>>,
    after: Seq<ParticipantRuntimeState<A, U>>,
    id: ParticipantId,
) -> bool {
    &&& same_roster(before, after)
    &&& forall|k: int|
        0 <= k < before.len() ==> if first_named(before, id, k) {
            &&& (#[trigger] after[k]).finished == before[k].finished
            &&& after[k].active_loop is None
            &&& after[k].pending_inbox@ == held_events(before[k])
        } else {
            after[k] == before[k]
        }
}

/// Every loop in `ps` can take another turn without its counter overflowing.
pub open spec fn loop_steps_bounded<A, U>(ps: Seq<ParticipantRuntimeState<A, U>>) -> bool {
    forall|k: int|
        0 <= k < ps.len() ==> ((#[trigger] ps[k]).active_loop matches Some(l) ==> l.step_count
            < usize::MAX)
}

fn progress_first<A, U>(ps: &mut Vec<ParticipantRuntimeState<A, U>>, id: &ParticipantId)
    requires
        loop_steps_bounded(old(ps)@),
    ensures
        turn_progressed(old(ps)@, final(ps)@, *id),
{
    match find_participant(ps, id) {
        Some(i) => {
            ps[i].apply_turn_progress();
            assert forall|k: int| 0 <= k < old(ps)@.len() && k != i implies !first_named(
                old(ps)@,
                *id,
                k,
            ) by {
                if k > i {
                    assert(old(ps)@[i as int].id.names(*id));
                }
            }
        },
        None => {},
    }
}

fn complete_loop_first<A, U>(ps: &mut Vec<ParticipantRuntimeState<A, U>>, id: &ParticipantId)
    requires
        loop_steps_bounded(old(ps)@),
    ensures
        loop_completed(old(ps)@, final(ps)@, *id),
{
    match find_participant(ps, id) {
        Some(i) => {
            ps[i].apply_loop_completion();
            assert forall|k: int| 0 <= k < old(ps)@.len() && k != i implies !first_named(
                old(ps)@,
                *id,
                k,
            ) by {
                if k > i {
                    assert(old(ps)@[i as int].id.names(*id));
                }
            }
        },
        None => {},
    }
}

/// What the caller does next after a decision was applied.
pub enum DecisionEffect<A> {
    /// The run goes on.
    Continue,
    /// The run ends for this reason.
    Finish(FinishReason),
    /// Perform the action at once, then call `record_immediate_outcome`.
    PerformNow { participant: ParticipantId, action: A },
    /// Schedule the action, then call `record_scheduled` or
    /// `record_schedule_failure`.
    Schedule { participant: ParticipantId, action: A, execution: ActionExecution },
}

/// The run state's parts other than participants and trajectory are as before.
pub open spec fn actions_unchanged<O, A, U>(before: RunState<O, A, U>, after: RunState<O, A, U>) -> bool {
    &&& after.pending_actions@ == before.pending_actions@
    &&& after.submitted_actions@ == before.submitted_actions@
    &&& after.queued_environment_events == before.queued_environment_events
    &&& after.observation == before.observation
}

/// Applies participant `participant_id`'s decision to the run.
///
/// A message counts a step and a message, counts a turn of the sender's
/// loop, is recorded and delivered to the other participants; past the
/// message limit the run ends. A final message does the same but closes
/// the sender's loop and records that, and ends the run when the
/// termination condition asks for it. An action counts a step and an
/// action (and a message, if it is announced), is recorded, and is handed
/// back to be performed or scheduled unless a limit is passed. A yield
/// counts a step and a turn. A finish marks the participant done, records
/// it, and ends the run when the termination condition asks for it.
pub fn apply_decision<O, A: Clone, U: Clone>(
    request: &RunRequest,
    participant_id: &ParticipantId,
    decision: ParticipantDecision<A>,
    state: &mut RunState<O, A, U>,
    counters: &mut RunCounters,
) -> (effect: DecisionEffect<A>)
    requires
        old(counters).step_count < usize::MAX,
        old(counters).message_count < usize::MAX,
        old(counters).action_count < usize::MAX,
        loop_steps_bounded(old(state).participants@),
    ensures
        actions_unchanged(*old(state), *final(state)),
        final(state).trajectory.run_id == old(state).trajectory.run_id,
        final(counters).failed_action_count == old(counters).failed_action_count,
        final(counters).consecutive_failed_action_count
            == old(counters).consecutive_failed_action_count,
        match decision {
            ParticipantDecision::Message { content } => {
                let message_count = old(counters).message_count + 1;
                &&& final(counters).step_count == old(counters).step_count + 1
                &&& final(counters).message_count == message_count
                &&& final(counters).action_count == old(counters).action_count
                &&& final(state).trajectory.events@ == old(state).trajectory.events@.push(
                    TrajectoryEvent::ParticipantMessage { participant: *participant_id, content },
                )
                &&& exists|mid: Seq<ParticipantRuntimeState<A, U>>|
                    turn_progressed(old(state).participants@, mid, *participant_id) && routed_message(
                        mid,
                        final(state).participants@,
                        *participant_id,
                        content,
                    )
                &&& effect == if message_count > request.limits.max_messages {
                    DecisionEffect::<A>::Finish(FinishReason::MessageLimitExceeded)
                } else {
                    DecisionEffect::<A>::Continue
                }
            },
            ParticipantDecision::FinalMessage { content } => {
                let message_count = old(counters).message_count + 1;
                let ends = loop_termination(request.termination_condition, Some(*participant_id));
                &&& final(counters).step_count == old(counters).step_count + 1
                &&& final(counters).message_count == message_count
                &&& final(counters).action_count == old(counters).action_count
                &&& final(state).trajectory.events@ == old(state).trajectory.events@.push(
                    TrajectoryEvent::ParticipantMessage { participant: *participant_id, content },
                ).push(TrajectoryEvent::ParticipantLoopCompleted { participant: *participant_id })
                &&& exists|mid: Seq<ParticipantRuntimeState<A, U>>|
                    loop_completed(old(state).participants@, mid, *participant_id) && routed_message(
                        mid,
                        final(state).participants@,
                        *participant_id,
                        content,
                    )
                &&& effect == match ends {
                    Some(reason) => DecisionEffect::<A>::Finish(reason),
                    None => if message_count > request.limits.max_messages {
                        DecisionEffect::<A>::Finish(FinishReason::MessageLimitExceeded)
                    } else {
                        DecisionEffect::<A>::Continue
                    },
                }
            },
            ParticipantDecision::Action { message, action, execution } => {
                let message_count = match message {
                    Some(_) => old(counters).message_count + 1,
                    None => old(counters).message_count as int,
                };
                let action_count = old(counters).action_count + 1;
                &&& final(counters).step_count == old(counters).step_count + 1
                &&& final(counters).message_count == message_count
                &&& final(counters).action_count == action_count
                &&& match message {
                    Some(content) => {
                        &&& exists|mid: Seq<ParticipantRuntimeState<A, U>>|
                            turn_progressed(old(state).participants@, mid, *participant_id)
                                && routed_message(
                                mid,
                                final(state).participants@,
                                *participant_id,
                                content,
                            )
                        &&& if message_count > request.limits.max_messages {
                            &&& final(state).trajectory.events@ == old(
                                state,
                            ).trajectory.events@.push(
                                TrajectoryEvent::ParticipantMessage {
                                    participant: *participant_id,
                                    content,
                                },
                            )
                            &&& effect == DecisionEffect::<A>::Finish(
                                FinishReason::MessageLimitExceeded,
                            )
                        } else {
                            &&& final(state).trajectory.events@.len()
                                == old(state).trajectory.events@.len() + 2
                            &&& final(state).trajectory.events@[old(
                                state,
                            ).trajectory.events@.len() as int] == TrajectoryEvent::<
                                O,
                                A,
                                U,
                            >::ParticipantMessage { participant: *participant_id, content }
                            &&& final(state).trajectory.events@.last() matches TrajectoryEvent::ActionRequested {
                                participant: p,
                                action: a,
                                execution: e,
                            } && p == *participant_id && cloned(action, a) && e == execution
                        }
                    },
                    None => {
                        &&& turn_progressed(
                            old(state).participants@,
                            final(state).participants@,
                            *participant_id,
                        )
                        &&& appended_one(old(state).trajectory, final(state).trajectory)
                        &&& final(state).trajectory.events@.last() matches TrajectoryEvent::ActionRequested {
                            participant: p,
                            action: a,
                            execution: e,
                        } && p == *participant_id && cloned(action, a) && e == execution
                    },
                }
                &&& !(message is Some && message_count > request.limits.max_messages) ==> effect
                    == if action_count > request.limits.max_actions {
                    DecisionEffect::<A>::Finish(FinishReason::ActionLimitExceeded)
                } else {
                    match execution {
                        ActionExecution::Immediate => DecisionEffect::PerformNow {
                            participant: *participant_id,
                            action,
                        },
                        _ => DecisionEffect::Schedule {
                            participant: *participant_id,
                            action,
                            execution,
                        },
                    }
                }
            },
            ParticipantDecision::Yield => {
                &&& final(counters).step_count == old(counters).step_count + 1
                &&& final(counters).message_count == old(counters).message_count
                &&& final(counters).action_count == old(counters).action_count
                &&& turn_progressed(
                    old(state).participants@,
                    final(state).participants@,
                    *participant_id,
                )
                &&& final(state).trajectory.events@ == old(state).trajectory.events@.push(
                    TrajectoryEvent::ParticipantYielded { participant: *participant_id },
                )
                &&& effect == DecisionEffect::<A>::Continue
            },
            ParticipantDecision::Finish => {
                &&& *final(counters) == *old(counters)
                &&& same_roster(old(state).participants@, final(state).participants@)
                &&& forall|k: int|
                    0 <= k < old(state).participants@.len() ==> if first_named(
                        old(state).participants@,
                        *participant_id,
                        k,
                    ) {
                        (#[trigger] final(state).participants@[k]).finished
                            && final(state).participants@[k].active_loop is None
                    } else {
                        final(state).participants@[k] == old(state).participants@[k]
                    }
                &&& final(state).trajectory.events@ == old(state).trajectory.events@.push(
                    TrajectoryEvent::ParticipantFinished { participant: *participant_id },
                )
                &&& effect == match finish_termination(
                    request.termination_condition,
                    distinct_finished(final(state).participants@),
                    final(state).participants@.len(),
                    Some(*participant_id),
                ) {
                    Some(reason) => DecisionEffect::<A>::Finish(reason),
                    None => DecisionEffect::<A>::Continue,
                }
            },
        },
{
    match decision {
        ParticipantDecision::Message { content } => {
            counters.step_count = counters.step_count + 1;
            counters.message_count = counters.message_count + 1;
            let ghost before = state.participants@;
            progress_first(&mut state.participants, participant_id);
            let ghost mid = state.participants@;
            state.emit_participant_message(participant_id, &content);
            assert(turn_progressed(before, mid, *participant_id));
            if counters.message_count > request.limits.max_messages {
                return DecisionEffect::Finish(FinishReason::MessageLimitExceeded);
            }
            DecisionEffect::Continue
        },
        ParticipantDecision::FinalMessage { content } => {
            counters.step_count = counters.step_count + 1;
            counters.message_count = counters.message_count + 1;
            let ghost before = state.participants@;
            complete_loop_first(&mut state.participants, participant_id);
            let ghost mid = state.participants@;
            state.emit_participant_message(participant_id, &content);
            assert(loop_completed(before, mid, *participant_id));
            state.trajectory.push(
                TrajectoryEvent::ParticipantLoopCompleted { participant: participant_id.copy() },
            );
            if let Some(reason) = loop_termination_condition_met(
                &request.termination_condition,
                Some(participant_id),
            ) {
                return DecisionEffect::Finish(reason);
            }
            if counters.message_count > request.limits.max_messages {
                return DecisionEffect::Finish(FinishReason::MessageLimitExceeded);
            }
            DecisionEffect::Continue
        },
        ParticipantDecision::Action { message, action, execution } => {
            counters.step_count = counters.step_count + 1;
            counters.action_count = counters.action_count + 1;
            let ghost before = state.participants@;
            progress_first(&mut state.participants, participant_id);
            let ghost mid = state.participants@;
            let ghost traj0 = state.trajectory.events@;
            match &message {
                Some(content) => {
                    counters.message_count = counters.message_count + 1;
                    state.emit_participant_message(participant_id, content);
                    assert(turn_progressed(before, mid, *participant_id));
                    if counters.message_count > request.limits.max_messages {
                        return DecisionEffect::Finish(FinishReason::MessageLimitExceeded);
                    }
                },
                None => {},
            }
            let ghost traj1 = state.trajectory.events@;
            state.trajectory.push(
                TrajectoryEvent::ActionRequested {
                    participant: participant_id.copy(),
                    action: action.clone(),
                    execution,
                },
            );
            proof {
                if message is None {
                    assert(state.trajectory.events@.take(traj0.len() as int) =~= traj0);
                } else {
                    assert(state.trajectory.events@[traj0.len() as int] == traj1[traj0.len() as int]);
                }
            }
            if counters.action_count > request.limits.max_actions {
                return DecisionEffect::Finish(FinishReason::ActionLimitExceeded);
            }
            match execution {
                ActionExecution::Immediate => DecisionEffect::PerformNow {
                    participant: participant_id.copy(),
                    action,
                },
                _ => DecisionEffect::Schedule { participant: participant_id.copy(), action, execution },
            }
        },
        ParticipantDecision::Yield => {
            counters.step_count = counters.step_count + 1;
            progress_first(&mut state.participants, participant_id);
            state.trajectory.push(
                TrajectoryEvent::ParticipantYielded { participant: participant_id.copy() },
            );
            DecisionEffect::Continue
        },
        ParticipantDecision::Finish => {
            state.finish_participant(participant_id);
            state.trajectory.push(
                TrajectoryEvent::ParticipantFinished { participant: participant_id.copy() },
            );
            let finished = finished_participant_count(&state.participants);
            match termination_condition_met(
                &request.termination_condition,
                finished,
                state.participants.len(),
                Some(participant_id),
            ) {
                Some(reason) => DecisionEffect::Finish(reason),
                None => DecisionEffect::Continue,
            }
        },
    }
}


/// Records an action performed at once: it is remembered as submitted by
/// `participant`, and its completion is queued for the next poll.
pub fn record_immediate_outcome<O, A, U>(
    state: &mut RunState<O, A, U>,
    participant: ParticipantId,
    action: A,
    action_id: ActionId,
    outcome: U,
)
    ensures
        final(state).submitted_actions@ == old(state).submitted_actions@.insert(
            action_id.value,
            (participant, action),
        ),
        final(state).queued_environment_events@ == old(state).queued_environment_events@.push(
            EnvironmentEvent::ActionCompleted { participant, action_id, outcome },
        ),
        final(state).pending_actions@ == old(state).pending_actions@,
        final(state).participants == old(state).participants,
        final(state).trajectory == old(state).trajectory,
        final(state).observation == old(state).observation,
{
    let p = participant.copy();
    state.submitted_actions.insert(action_id.value, (participant, action));
    state.queued_environment_events.push(
        EnvironmentEvent::ActionCompleted { participant: p, action_id, outcome },
    );
}

/// Records an action the environment accepted as `action_id`: it is
/// recorded, shown to its participant, and awaited; a blocking action also
/// makes the participant's loop wait for it.
pub fn record_scheduled<O, A: Clone, U>(
    state: &mut RunState<O, A, U>,
    participant: ParticipantId,
    action: A,
    execution: ActionExecution,
    action_id: ActionId,
)
    requires
        execution == ActionExecution::DeferredBlocking ==> forall|k: int|
            first_named(old(state).participants@, participant, k)
                ==> (#[trigger] old(state).participants@[k]).active_loop is Some,
    ensures
        appended_one(old(state).trajectory, final(state).trajectory),
        final(state).trajectory.events@.last() matches TrajectoryEvent::ActionScheduled {
            participant: p,
            action_id: i,
            action: a,
            execution: e,
        } && p == participant && i == action_id && cloned(action, a) && e == execution,
        final(state).pending_actions@ == old(state).pending_actions@.insert(action_id.value),
        final(state).submitted_actions@ == old(state).submitted_actions@.insert(
            action_id.value,
            (participant, action),
        ),
        same_roster(old(state).participants@, final(state).participants@),
        forall|k: int|
            0 <= k < old(state).participants@.len() ==> if first_named(
                old(state).participants@,
                participant,
                k,
            ) {
                &&& (#[trigger] final(state).participants@[k]).finished
                    == old(state).participants@[k].finished
                &&& held_events(final(state).participants@[k]).len() == held_events(
                    old(state).participants@[k],
                ).len() + 1
                &&& held_events(final(state).participants@[k]).take(
                    held_events(old(state).participants@[k]).len() as int,
                ) == held_events(old(state).participants@[k])
                &&& held_events(final(state).participants@[k]).last() matches ParticipantInboxEvent::ActionScheduled {
                    action_id: i,
                    action: a,
                } && i == action_id && cloned(action, a)
                &&& execution == ActionExecution::DeferredBlocking ==> (
                final(state).participants@[k].active_loop matches Some(l)
                    && l.execution_state == LoopExecutionState::WaitingForActionCompletion {
                    action_id,
                })
            } else {
                final(state).participants@[k] == old(state).participants@[k]
            },
        final(state).queued_environment_events == old(state).queued_environment_events,
        final(state).observation == old(state).observation,
{
    let ghost traj0 = state.trajectory.events@;
    state.trajectory.push(
        TrajectoryEvent::ActionScheduled {
            participant: participant.copy(),
            action_id,
            action: action.clone(),
            execution,
        },
    );
    assert(state.trajectory.events@.take(traj0.len() as int) =~= traj0);
    match find_participant(&state.participants, &participant) {
        Some(i) => {
            let ghost before = state.participants@;
            let shown = action.clone();
            state.participants[i].deliver(
                ParticipantInboxEvent::ActionScheduled { action_id, action: shown },
            );
            proof {
                let h = held_events(state.participants@[i as int]);
                assert(h.take(held_events(before[i as int]).len() as int) =~= held_events(
                    before[i as int],
                ));
            }
            if execution == ActionExecution::DeferredBlocking {
                let ghost mid = state.participants@[i as int];
                state.participants[i].transition_current_loop_to_blocked_on_action(action_id);
                assert(held_events(state.participants@[i as int]) == held_events(mid));
            }
            assert forall|k: int|
                0 <= k < before.len() && k != i implies !first_named(before, participant, k) by {
                if k > i {
                    assert(before[i as int].id.names(participant));
                }
            }
        },
        None => {},
    }
    state.pending_actions.insert(action_id.value);
    state.submitted_actions.insert(action_id.value, (participant, action));
}

/// Records an action the environment refused to schedule: it is remembered
/// under `action_id`, and its failure is queued for the next poll.
pub fn record_schedule_failure<O, A, U>(
    state: &mut RunState<O, A, U>,
    participant: ParticipantId,
    action: A,
    action_id: ActionId,
    error: ActionError,
)
    ensures
        final(state).submitted_actions@ == old(state).submitted_actions@.insert(
            action_id.value,
            (participant, action),
        ),
        final(state).queued_environment_events@ == old(state).queued_environment_events@.push(
            EnvironmentEvent::ActionFailed { participant, action_id, error },
        ),
        final(state).pending_actions@ == old(state).pending_actions@,
        final(state).participants == old(state).participants,
        final(state).trajectory == old(state).trajectory,
        final(state).observation == old(state).observation,
{
    let p = participant.copy();
    state.submitted_actions.insert(action_id.value, (participant, action));
    state.queued_environment_events.push(
        EnvironmentEvent::ActionFailed { participant: p, action_id, error },
    );
}

/// What to show about a polled event before it is applied.
pub enum PollNotice<A> {
    /// Nothing to show.
    Quiet,
    /// A submitted action completed.
    Completed { action: A },
    /// A submitted action's run made progress.
    Status { line: String },
    /// A submitted action failed.
    Failed { action: A },
}

/// Notes a polled event: a completion resets the failure streak and a
/// failure extends it; a completion or failure of a submitted action takes
/// it out of the record and hands it back to be shown, and a status update
/// of a submitted action is rendered as a line. The event itself is applied
/// afterwards with `RunState::apply_environment_event`.
pub fn note_polled_event<O, A: Clone, U: Clone>(
    state: &mut RunState<O, A, U>,
    counters: &mut RunCounters,
    event: &EnvironmentEvent<A, U>,
) -> (notice: PollNotice<A>)
    requires
        old(counters).failed_action_count < usize::MAX,
        old(counters).consecutive_failed_action_count < usize::MAX,
    ensures
        final(state).participants == old(state).participants,
        final(state).trajectory == old(state).trajectory,
        final(state).pending_actions@ == old(state).pending_actions@,
        final(state).queued_environment_events == old(state).queued_environment_events,
        final(state).observation == old(state).observation,
        match *event {
            EnvironmentEvent::ActionCompleted { action_id, .. } => {
                &&& *final(counters) == (RunCounters {
                    consecutive_failed_action_count: 0,
                    ..*old(counters)
                })
                &&& final(state).submitted_actions@ == old(state).submitted_actions@.remove(
                    action_id.value,
                )
                &&& notice == match old(state).submitted_actions@.get(action_id.value) {
                    Some(entry) => PollNotice::Completed { action: entry.1 },
                    None => PollNotice::<A>::Quiet,
                }
            },
            EnvironmentEvent::ActionFailed { action_id, .. } => {
                &&& *final(counters) == (RunCounters {
                    failed_action_count: (old(counters).failed_action_count + 1) as usize,
                    consecutive_failed_action_count: (old(counters).consecutive_failed_action_count
                        + 1) as usize,
                    ..*old(counters)
                })
                &&& final(state).submitted_actions@ == old(state).submitted_actions@.remove(
                    action_id.value,
                )
                &&& notice == match old(state).submitted_actions@.get(action_id.value) {
                    Some(entry) => PollNotice::Failed { action: entry.1 },
                    None => PollNotice::<A>::Quiet,
                }
            },
            EnvironmentEvent::ActionRunStatus { action_id, status, .. } => {
                &&& *final(counters) == *old(counters)
                &&& final(state).submitted_actions@ == old(state).submitted_actions@
                &&& match old(state).submitted_actions@.get(action_id.value) {
                    Some(_) => notice matches PollNotice::Status { line } && line@
                        == run_status_line(status),
                    None => notice is Quiet,
                }
            },
            _ => {
                &&& *final(counters) == *old(counters)
                &&& final(state).submitted_actions@ == old(state).submitted_actions@
                &&& notice is Quiet
            },
        },
{
    match event {
        EnvironmentEvent::ActionCompleted { action_id, .. } => {
            counters.record_action_completed();
            match state.take_submitted_action(*action_id) {
                Some((_, action)) => PollNotice::Completed { action },
                None => PollNotice::Quiet,
            }
        },
        EnvironmentEvent::ActionFailed { action_id, .. } => {
            counters.record_action_failed();
            match state.take_submitted_action(*action_id) {
                Some((_, action)) => PollNotice::Failed { action },
                None => PollNotice::Quiet,
            }
        },
        EnvironmentEvent::ActionRunStatus { action_id, status, .. } => {
            if state.submitted_actions.contains_key(&action_id.value) {
                PollNotice::Status { line: format_action_run_status(status) }
            } else {
                PollNotice::Quiet
            }
        },
        _ => PollNotice::Quiet,
    }
}

} // verus!
