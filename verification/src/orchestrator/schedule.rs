//! Choosing who takes the next turn, and what that participant is shown.
use vstd::prelude::*;

use crate::domain::ids::WorkItemId;
use crate::orchestrator::participant::{
    held_events, runnable, LoopExecutionState, ParticipantRuntimeState,
};
use crate::orchestrator::types::{FinishReason, ParticipantInboxEvent, WorkItem};

verus! {

/// The participant visited `offset` places after `start`, going round.
pub open spec fn round_robin(start: nat, offset: nat, n: nat) -> int
    recommends
        n > 0,
{
    ((start + offset) % n) as int
}

/// The first runnable participant, starting at `start` and going round once.
pub open spec fn chosen_after<A, U>(
    ps: Seq<ParticipantRuntimeState<A, U>>,
    start: nat,
    i: int,
) -> bool {
    exists|offset: nat|
        #![trigger round_robin(start, offset, ps.len())]
        offset < ps.len() && i == round_robin(start, offset, ps.len()) && runnable(ps[i])
            && forall|o: nat|
            o < offset ==> !runnable(#[trigger] ps[round_robin(start, o, ps.len())])
}

/// Picks the next participant to take a turn: the first runnable one at or
/// after `next_index`, going round. The following pick starts just after
/// it. Returns `None`, leaving `next_index` as it is, when no participant
/// can take a turn.
pub fn pick_next_participant<A, U>(
    next_index: &mut usize,
    ps: &Vec<ParticipantRuntimeState<A, U>>,
) -> (r: Option<usize>)
    requires
        ps@.len() == 0 || *old(next_index) < ps@.len(),
    ensures
        r is None ==> *final(next_index) == *old(next_index) && forall|k: int|
            0 <= k < ps@.len() ==> !runnable(#[trigger] ps@[k]),
        r matches Some(i) ==> {
            &&& i < ps@.len()
            &&& chosen_after(ps@, *old(next_index) as nat, i as int)
            &&& *final(next_index) == (i + 1) % (ps@.len() as int)
        },
{
    let n = ps.len();
    if n == 0 {
        return None;
    }
    let start = *next_index;
    let mut offset: usize = 0;
    while offset < n
        invariant
            n == ps@.len(),
            n > 0,
            start < n,
            start == *old(next_index),
            *next_index == start,
            offset <= n,
            forall|o: nat| o < offset ==> !runnable(#[trigger] ps@[round_robin(start as nat, o, n as nat)]),
        decreases n - offset,
    {
        let index = if offset < n - start {
            start + offset
        } else {
            offset - (n - start)
        };
        assert(index == round_robin(start as nat, offset as nat, n as nat)) by (nonlinear_arith)
            requires
                start < n,
                offset < n,
                index == if offset < n - start {
                    start + offset
                } else {
                    offset - (n - start)
                },
        {
        }
        if ps[index].is_runnable() {
            *next_index = if index + 1 < n {
                index + 1
            } else {
                0
            };
            proof {
                let ghost o: nat = offset as nat;
                assert(round_robin(start as nat, o, n as nat) == index as int);
                assert(chosen_after(ps@, start as nat, index as int));
                if index + 1 < n {
                    assert((index + 1) % (n as int) == index + 1) by (nonlinear_arith)
                        requires
                            index + 1 < n,
                    {
                    }
                } else {
                    assert((index + 1) % (n as int) == 0) by (nonlinear_arith)
                        requires
                            index + 1 == n,
                            n > 0,
                    {
                    }
                }
            }
            return Some(index);
        }
        offset = offset + 1;
    }
    assert forall|k: int| 0 <= k < n implies !runnable(#[trigger] ps@[k]) by {
        let o: nat = ((k - start + n) % (n as int)) as nat;
        assert(o < n);
        assert(round_robin(start as nat, o, n as nat) == k) by (nonlinear_arith)
            requires
                0 <= k < n,
                start < n,
                o == (k - start + n) % (n as int),
        {
        }
    }
    None
}

/// What the chosen participant is shown when it takes its turn.
pub struct TurnStart<A, U> {
    pub agent_loop_id: WorkItemId,
    pub agent_loop_iteration: usize,
    pub work_item: WorkItem,
    pub inbox: Vec<ParticipantInboxEvent<A, U>>,
}

/// How the next turn goes for participant `index`.
pub enum TurnSelection<A, U> {
    /// The participant has no loop and no message to open one.
    Idle,
    /// The participant's loop has used up its steps; the run ends.
    Stop(FinishReason),
    /// The participant takes a turn with what it is shown.
    Turn(TurnStart<A, U>),
}

/// Participant `index`'s turn was prepared from `before` into `after` as
/// `begin_turn` prepares it, with `r` telling how it goes.
pub open spec fn turn_begun<A, U>(
    before: Seq<ParticipantRuntimeState<A, U>>,
    after: Seq<ParticipantRuntimeState<A, U>>,
    index: int,
    max_steps_per_agent_loop: usize,
    r: TurnSelection<A, U>,
) -> bool {
    &&& after.len() == before.len()
    &&& forall|k: int| 0 <= k < before.len() && k != index ==> after[k] == before[k]
    &&& after[index].id == before[index].id
    &&& after[index].finished == before[index].finished
    &&& match r {
        TurnSelection::Idle => {
            &&& before[index].active_loop is None
            &&& after[index] == before[index]
        },
        TurnSelection::Stop(reason) => {
            &&& reason == (FinishReason::AgentLoopStepLimitExceeded { participant: before[index].id })
            &&& after[index].active_loop matches Some(l)
            &&& l.step_count >= max_steps_per_agent_loop
        },
        TurnSelection::Turn(start) => {
            &&& after[index].active_loop matches Some(l)
            &&& l.step_count < max_steps_per_agent_loop
            &&& l.inbox@.len() == 0
            &&& start.agent_loop_id == l.work_item.id
            &&& start.work_item == l.work_item
            &&& start.agent_loop_iteration == l.step_count + 1
            &&& held_events(before[index]) == after[index].pending_inbox@ + start.inbox@
        },
    }
}

/// Prepares participant `index`'s turn: opens an agent loop, identified by
/// `loop_id`, if it has none, ends the run if that loop has taken
/// `max_steps_per_agent_loop` turns, and otherwise hands over the loop's
/// inbox together with the loop's work item and turn number.
pub fn begin_turn<A, U>(
    ps: &mut Vec<ParticipantRuntimeState<A, U>>,
    index: usize,
    max_steps_per_agent_loop: usize,
    loop_id: WorkItemId,
) -> (r: TurnSelection<A, U>)
    requires
        index < old(ps)@.len(),
    ensures
        turn_begun(old(ps)@, final(ps)@, index as int, max_steps_per_agent_loop, r),
{
    if ps[index].active_loop.is_none() {
        let started = ps[index].start_next_loop(loop_id);
        if !started {
            return TurnSelection::Idle;
        }
    }
    let ghost mid = ps@[index as int];
    match &mut ps[index].active_loop {
        Some(active_loop) => {
            if active_loop.step_count >= max_steps_per_agent_loop {
                return TurnSelection::Stop(
                    FinishReason::AgentLoopStepLimitExceeded { participant: ps[index].id.copy() },
                );
            }
            let mut inbox: Vec<ParticipantInboxEvent<A, U>> = Vec::new();
            std::mem::swap(&mut inbox, &mut active_loop.inbox);
            let start = TurnStart {
                agent_loop_id: active_loop.work_item.id,
                agent_loop_iteration: active_loop.step_count + 1,
                work_item: active_loop.work_item.copy(),
                inbox,
            };
            TurnSelection::Turn(start)
        },
        None => TurnSelection::Idle,
    }
}

} // verus!
