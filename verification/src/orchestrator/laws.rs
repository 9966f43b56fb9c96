//! Properties of the orchestration rules that hold across calls and states.
use vstd::prelude::*;

use crate::domain::ids::ActionId;
use crate::orchestrator::participant::{
    ends_action, held_events, runnable, state_after_delivery, LoopExecutionState,
    ParticipantRuntimeState,
};
use crate::orchestrator::policy::{finish_termination, limit_reached, loop_termination, RunCounters};
use crate::orchestrator::schedule::{chosen_after, round_robin};
use crate::orchestrator::state::routed_message;
use crate::orchestrator::types::{
    FinishReason, ParticipantId, ParticipantInboxEvent, RunLimits, TerminationCondition,
};

verus! {

/// A loop blocked on an action becomes ready exactly when that action's
/// completion or failure reaches it; every other event leaves it blocked.
pub proof fn lemma_blocked_loop_resumes_only_on_its_action<A, U>(
    action_id: ActionId,
    event: ParticipantInboxEvent<A, U>,
)
    ensures
        state_after_delivery(
            LoopExecutionState::WaitingForActionCompletion { action_id },
            event,
        ) == if ends_action(event, action_id) {
            LoopExecutionState::ReadyForTurn
        } else {
            LoopExecutionState::WaitingForActionCompletion { action_id }
        },
        (event matches ParticipantInboxEvent::ActionCompleted { action_id: a, .. } && a == action_id)
            ==> ends_action(event, action_id),
        (event matches ParticipantInboxEvent::ActionFailed { action_id: a, .. } && a == action_id)
            ==> ends_action(event, action_id),
        (event is Message || event is Notification || event is ActionScheduled) ==> !ends_action(
            event,
            action_id,
        ),
{
}

/// A ready loop stays ready whatever reaches it.
pub proof fn lemma_ready_loop_stays_ready<A, U>(event: ParticipantInboxEvent<A, U>)
    ensures
        state_after_delivery(LoopExecutionState::ReadyForTurn, event)
            == LoopExecutionState::ReadyForTurn,
{
}

/// A finished participant never takes a turn.
pub proof fn lemma_finished_never_runnable<A, U>(p: ParticipantRuntimeState<A, U>)
    requires
        p.finished,
    ensures
        !runnable(p),
{
}

/// A participant message reaches neither its sender nor a finished
/// participant, and reaches every other participant.
pub proof fn lemma_routing_skips_sender_and_finished<A, U>(
    before: Seq<ParticipantRuntimeState<A, U>>,
    after: Seq<ParticipantRuntimeState<A, U>>,
    from: ParticipantId,
    content: String,
    k: int,
)
    requires
        routed_message(before, after, from, content),
        0 <= k < before.len(),
    ensures
        before[k].finished ==> after[k] == before[k],
        before[k].id.names(from) ==> after[k] == before[k],
        !before[k].finished && !before[k].id.names(from) ==> held_events(after[k]) == held_events(
            before[k],
        ).push(
            ParticipantInboxEvent::Message { from, content },
        ),
{
}

/// Turns go round: when the participant the scheduler would try first can
/// take a turn, it is the one chosen.
pub proof fn lemma_first_in_turn_is_chosen<A, U>(
    ps: Seq<ParticipantRuntimeState<A, U>>,
    start: nat,
    i: int,
)
    requires
        start < ps.len(),
        runnable(ps[start as int]),
        chosen_after(ps, start, i),
    ensures
        i == start,
{
    let offset = choose|offset: nat|
        #![trigger round_robin(start, offset, ps.len())]
        offset < ps.len() && i == round_robin(start, offset, ps.len()) && runnable(ps[i])
            && forall|o: nat| o < offset ==> !runnable(#[trigger] ps[round_robin(start, o, ps.len())]);
    assert(round_robin(start, 0, ps.len()) == start) by (nonlinear_arith)
        requires
            start < ps.len(),
    {
    }
    if offset > 0 {
        assert(!runnable(ps[round_robin(start, 0, ps.len())]));
    }
    assert(offset == 0);
}

/// A finished participant ends a run under "any participant finished", and
/// under "any of these" exactly when it is one of them; conditions on
/// completed loops never end a run when a participant finishes, and
/// conditions on finished participants never end it when a loop completes.
pub proof fn lemma_termination_conditions_are_separate(
    condition: TerminationCondition,
    finished_count: nat,
    participant_count: nat,
    p: ParticipantId,
)
    ensures
        condition is AnyParticipantFinished ==> finish_termination(
            condition,
            finished_count,
            participant_count,
            Some(p),
        ) == Some(FinishReason::ParticipantFinished { participant: p }),
        (condition is AnyParticipantCompletedLoop || condition is AnyOfParticipantsCompletedLoop)
            ==> finish_termination(condition, finished_count, participant_count, Some(p)) is None,
        (condition is AllParticipantsFinished || condition is AnyParticipantFinished
            || condition is AnyOfParticipantsFinished) ==> loop_termination(condition, Some(p))
            is None,
        condition is AllParticipantsFinished ==> (finish_termination(
            condition,
            finished_count,
            participant_count,
            Some(p),
        ) is Some <==> participant_count > 0 && finished_count == participant_count),
{
}

/// While the run's steps, total failures and time are under their limits,
/// the run stops exactly when its consecutive failures reach their limit,
/// and then for failed actions, with both failure counts; the total number
/// of failures plays no part in that decision.
pub proof fn lemma_consecutive_failure_limit(limits: RunLimits, counters: RunCounters, elapsed_ms: u64)
    requires
        counters.step_count < limits.max_steps,
        limits.max_failed_actions matches Some(m) ==> counters.failed_action_count < m,
        limits.max_duration_ms matches Some(d) ==> elapsed_ms < d,
    ensures
        limit_reached(limits, counters, elapsed_ms) is Some <==> (limits.max_consecutive_failed_actions matches Some(m)
            && counters.consecutive_failed_action_count >= m),
        limit_reached(limits, counters, elapsed_ms) is Some ==> limit_reached(limits, counters, elapsed_ms)
            == Some(
            FinishReason::FailedActionLimitExceeded {
                total_failures: counters.failed_action_count,
                consecutive_failures: counters.consecutive_failed_action_count,
            },
        ),
{
}

/// Two runs that differ only in their total number of failures, each under
/// the total-failure limit, both stop or both go on.
pub proof fn lemma_total_failures_alone_never_stop(
    limits: RunLimits,
    a: RunCounters,
    b: RunCounters,
    elapsed_ms: u64,
)
    requires
        a.step_count == b.step_count,
        a.consecutive_failed_action_count == b.consecutive_failed_action_count,
        limits.max_failed_actions matches Some(m) ==> a.failed_action_count < m && b.failed_action_count < m,
    ensures
        limit_reached(limits, a, elapsed_ms) is Some <==> limit_reached(limits, b, elapsed_ms) is Some,
{
}

/// A run that has taken its maximum number of steps stops for that, before
/// any other limit is looked at; one whose total failures reach their
/// limit, with steps to spare, stops for failed actions.
pub proof fn lemma_step_and_total_limits(limits: RunLimits, counters: RunCounters, elapsed_ms: u64)
    ensures
        counters.step_count >= limits.max_steps ==> limit_reached(limits, counters, elapsed_ms)
            == Some(FinishReason::StepLimitExceeded),
        (counters.step_count < limits.max_steps && limits.max_failed_actions is Some
            && counters.failed_action_count >= limits.max_failed_actions->0) ==> limit_reached(limits, counters, elapsed_ms)
            == Some(
            FinishReason::FailedActionLimitExceeded {
                total_failures: counters.failed_action_count,
                consecutive_failures: counters.consecutive_failed_action_count,
            },
        ),
        (limits.max_failed_actions is None && limits.max_consecutive_failed_actions is None
            && limits.max_duration_ms is None) ==> (limit_reached(limits, counters, elapsed_ms) is Some
            <==> counters.step_count >= limits.max_steps),
{
}

} // verus!
