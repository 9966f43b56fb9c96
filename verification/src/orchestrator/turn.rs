//! One round of a run's turn loop: whether the run ends, waits, or which
//! participant takes the next turn and with what.
use vstd::prelude::*;

use crate::domain::ids::WorkItemId;
use crate::orchestrator::participant::runnable;
use crate::orchestrator::policy::{finish_termination, termination_condition_met};
use crate::orchestrator::schedule::{
    begin_turn, chosen_after, pick_next_participant, turn_begun, TurnSelection,
};
use crate::orchestrator::state::{distinct_finished, finished_participant_count, RunState};
use crate::orchestrator::types::{FinishReason, TerminationCondition};

verus! {

broadcast use vstd::std_specs::btree::group_btree_axioms;

/// What a round of the turn loop comes to.
pub enum TurnPlan<A, U> {
    /// The run ends for this reason.
    Finish(FinishReason),
    /// No participant can take a turn, but actions are pending: the loop
    /// polls the environment again.
    Wait,
    /// Participant `index` was picked; `selection` tells how its turn goes.
    Picked { index: usize, selection: TurnSelection<A, U> },
}

/// Only the participants of the state changed.
pub open spec fn only_participants_changed<O, A, U>(before: RunState<O, A, U>, after: RunState<O, A, U>) -> bool {
    &&& after.observation == before.observation
    &&& after.trajectory == before.trajectory
    &&& after.pending_actions@ == before.pending_actions@
    &&& after.submitted_actions@ == before.submitted_actions@
    &&& after.queued_environment_events == before.queued_environment_events
}

/// One round of the turn loop, once the run's limits were checked and the
/// environment polled: the run ends when `condition` holds of its finished
/// participants; otherwise the next runnable participant, going round from
/// `next_index`, is picked and its turn prepared (see `begin_turn`). When no
/// participant can take a turn, the run is deadlocked unless actions are
/// pending, and then it waits for them.
pub fn plan_turn<O, A, U>(
    state: &mut RunState<O, A, U>,
    next_index: &mut usize,
    condition: &TerminationCondition,
    max_steps_per_agent_loop: usize,
    loop_id: WorkItemId,
) -> (r: TurnPlan<A, U>)
    requires
        old(state).participants@.len() == 0 || *old(next_index) < old(state).participants@.len(),
    ensures
        only_participants_changed(*old(state), *final(state)),
        match finish_termination(
            *condition,
            distinct_finished(old(state).participants@),
            old(state).participants@.len(),
            None,
        ) {
            Some(reason) => {
                &&& r == TurnPlan::<A, U>::Finish(reason)
                &&& final(state).participants@ == old(state).participants@
                &&& *final(next_index) == *old(next_index)
            },
            None => match r {
                TurnPlan::Finish(reason) => {
                    &&& reason == FinishReason::Deadlocked
                    &&& forall|k: int|
                        0 <= k < old(state).participants@.len() ==> !runnable(
                            #[trigger] old(state).participants@[k],
                        )
                    &&& old(state).pending_actions@.is_empty()
                    &&& final(state).participants@ == old(state).participants@
                    &&& *final(next_index) == *old(next_index)
                },
                TurnPlan::Wait => {
                    &&& forall|k: int|
                        0 <= k < old(state).participants@.len() ==> !runnable(
                            #[trigger] old(state).participants@[k],
                        )
                    &&& !old(state).pending_actions@.is_empty()
                    &&& final(state).participants@ == old(state).participants@
                    &&& *final(next_index) == *old(next_index)
                },
                TurnPlan::Picked { index, selection } => {
                    &&& index < old(state).participants@.len()
                    &&& chosen_after(old(state).participants@, *old(next_index) as nat, index as int)
                    &&& *final(next_index) == (index + 1) % (old(state).participants@.len() as int)
                    &&& turn_begun(
                        old(state).participants@,
                        final(state).participants@,
                        index as int,
                        max_steps_per_agent_loop,
                        selection,
                    )
                },
            },
        },
{
    let finished = finished_participant_count(&state.participants);
    match termination_condition_met(condition, finished, state.participants.len(), None) {
        Some(reason) => {
            return TurnPlan::Finish(reason);
        },
        None => {},
    }
    match pick_next_participant(next_index, &state.participants) {
        None => {
            if state.pending_actions.is_empty() {
                TurnPlan::Finish(FinishReason::Deadlocked)
            } else {
                TurnPlan::Wait
            }
        },
        Some(index) => {
            let selection = begin_turn(&mut state.participants, index, max_steps_per_agent_loop, loop_id);
            TurnPlan::Picked { index, selection }
        },
    }
}

} // verus!
