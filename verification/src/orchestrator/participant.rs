//! The per-participant state of a run: its inbox, and the agent loop it is
//! serving, if any.
use vstd::prelude::*;

use crate::domain::ids::{ActionId, WorkItemId};
use crate::orchestrator::types::{ParticipantId, ParticipantInboxEvent, WorkItem};

verus! {

/// Whether an agent loop may take a turn or waits for an action.
#[derive(Debug, Clone, Copy, PartialEq, Eq, Structural)]
pub enum LoopExecutionState {
    ReadyForTurn,
    WaitingForActionCompletion { action_id: ActionId },
}

/// An agent loop: the work item it serves and the events delivered to it.
#[derive(Debug)]
pub struct ActiveLoop<A, U> {
    pub inbox: Vec<ParticipantInboxEvent<A, U>>,
    pub work_item: WorkItem,
    pub execution_state: LoopExecutionState,
    pub step_count: usize,
}

/// The event reports the end (completion or failure) of action `id`.
pub open spec fn ends_action<A, U>(event: ParticipantInboxEvent<A, U>, id: ActionId) -> bool {
    match event {
        ParticipantInboxEvent::ActionCompleted { action_id, .. } => action_id == id,
        ParticipantInboxEvent::ActionFailed { action_id, .. } => action_id == id,
        _ => false,
    }
}

/// The execution state after `event` reaches a loop in state `state`: a loop
/// waiting on an action becomes ready when that action ends; nothing else
/// changes it.
pub open spec fn state_after_delivery<A, U>(
    state: LoopExecutionState,
    event: ParticipantInboxEvent<A, U>,
) -> LoopExecutionState {
    match state {
        LoopExecutionState::WaitingForActionCompletion { action_id } => if ends_action(
            event,
            action_id,
        ) {
            LoopExecutionState::ReadyForTurn
        } else {
            state
        },
        LoopExecutionState::ReadyForTurn => state,
    }
}

impl<A, U> ActiveLoop<A, U> {
    /// Whether the loop may take a turn.
    pub fn is_ready_for_turn(&self) -> (r: bool)
        ensures
            r == (self.execution_state == LoopExecutionState::ReadyForTurn),
    {
        match self.execution_state {
            LoopExecutionState::ReadyForTurn => true,
            LoopExecutionState::WaitingForActionCompletion { .. } => false,
        }
    }

    /// The action the loop waits for, if any.
    pub fn awaiting_action_completion(&self) -> (r: Option<ActionId>)
        ensures
            r == match self.execution_state {
                LoopExecutionState::WaitingForActionCompletion { action_id } => Some(action_id),
                LoopExecutionState::ReadyForTurn => None,
            },
    {
        match self.execution_state {
            LoopExecutionState::WaitingForActionCompletion { action_id } => Some(action_id),
            LoopExecutionState::ReadyForTurn => None,
        }
    }

    /// Adds `event` to the loop's inbox, resuming the loop if the event ends
    /// the action it waits for.
    pub fn deliver(&mut self, event: ParticipantInboxEvent<A, U>)
        ensures
            final(self).inbox@ == old(self).inbox@.push(event),
            final(self).execution_state == state_after_delivery(
                old(self).execution_state,
                event,
            ),
            final(self).work_item == old(self).work_item,
            final(self).step_count == old(self).step_count,
    {
        let resume = match self.execution_state {
            LoopExecutionState::WaitingForActionCompletion { action_id } => match &event {
                ParticipantInboxEvent::ActionCompleted { action_id: id, .. } => *id == action_id,
                ParticipantInboxEvent::ActionFailed { action_id: id, .. } => *id == action_id,
                _ => false,
            },
            LoopExecutionState::ReadyForTurn => false,
        };
        if resume {
            self.execution_state = LoopExecutionState::ReadyForTurn;
        }
        self.inbox.push(event);
    }

    /// The loop now waits for action `action_id`.
    pub fn transition_to_blocked_on_action(&mut self, action_id: ActionId)
        ensures
            final(self).execution_state == (LoopExecutionState::WaitingForActionCompletion {
                action_id,
            }),
            final(self).inbox == old(self).inbox,
            final(self).work_item == old(self).work_item,
            final(self).step_count == old(self).step_count,
    {
        self.execution_state = LoopExecutionState::WaitingForActionCompletion { action_id };
    }

    /// Counts one turn of the loop.
    pub fn record_step(&mut self)
        requires
            old(self).step_count < usize::MAX,
        ensures
            final(self).step_count == old(self).step_count + 1,
            final(self).inbox == old(self).inbox,
            final(self).work_item == old(self).work_item,
            final(self).execution_state == old(self).execution_state,
    {
        self.step_count = self.step_count + 1;
    }
}

/// The first message in `inbox`: its sender and content.
pub open spec fn first_message<A, U>(inbox: Seq<ParticipantInboxEvent<A, U>>) -> Option<
    (ParticipantId, String),
>
    decreases inbox.len(),
{
    if inbox.len() == 0 {
        None
    } else {
        match inbox[0] {
            ParticipantInboxEvent::Message { from, content } => Some((from, content)),
            _ => first_message(inbox.drop_first()),
        }
    }
}

proof fn lemma_first_message_skip<A, U>(inbox: Seq<ParticipantInboxEvent<A, U>>, i: int)
    requires
        0 <= i <= inbox.len(),
        forall|j: int| 0 <= j < i ==> !(#[trigger] inbox[j] is Message),
    ensures
        first_message(inbox) == first_message(inbox.skip(i)),
    decreases i,
{
    if i > 0 {
        assert(!(inbox[0] is Message));
        assert forall|j: int| 0 <= j < i - 1 implies !(#[trigger] inbox.drop_first()[j] is Message) by {
            assert(inbox.drop_first()[j] == inbox[j + 1]);
        }
        lemma_first_message_skip(inbox.drop_first(), i - 1);
        assert(inbox.drop_first().skip(i - 1) =~= inbox.skip(i));
    } else {
        assert(inbox.skip(0) =~= inbox);
    }
}

/// The message in `inbox` that can open an agent loop: the first one.
pub fn startable_message<A, U>(inbox: &Vec<ParticipantInboxEvent<A, U>>) -> (r: Option<
    (ParticipantId, String),
>)
    ensures
        r == first_message(inbox@),
{
    let mut i: usize = 0;
    while i < inbox.len()
        invariant
            i <= inbox@.len(),
            forall|j: int| 0 <= j < i ==> !(#[trigger] inbox@[j] is Message),
        decreases inbox@.len() - i,
    {
        match &inbox[i] {
            ParticipantInboxEvent::Message { from, content } => {
                proof {
                    lemma_first_message_skip(inbox@, i as int);
                    assert(inbox@.skip(i as int)[0] == inbox@[i as int]);
                }
                return Some((from.copy(), content.clone()));
            },
            _ => {},
        }
        i = i + 1;
    }
    proof {
        lemma_first_message_skip(inbox@, i as int);
    }
    None
}


/// A participant's state in a run: events waiting for its next agent loop,
/// the loop it is serving, and whether it is done.
#[derive(Debug)]
pub struct ParticipantRuntimeState<A, U> {
    pub id: ParticipantId,
    pub pending_inbox: Vec<ParticipantInboxEvent<A, U>>,
    pub active_loop: Option<ActiveLoop<A, U>>,
    pub finished: bool,
}

/// Whether a participant in this state may take a turn: it is not done,
/// and either its loop is ready or a message can open a new loop.
pub open spec fn runnable<A, U>(p: ParticipantRuntimeState<A, U>) -> bool {
    &&& !p.finished
    &&& match p.active_loop {
        Some(l) => l.execution_state == LoopExecutionState::ReadyForTurn,
        None => first_message(p.pending_inbox@) is Some,
    }
}

/// Every event a participant holds, oldest first: what waits for its next
/// loop, then what its current loop has.
pub open spec fn held_events<A, U>(p: ParticipantRuntimeState<A, U>) -> Seq<
    ParticipantInboxEvent<A, U>,
> {
    match p.active_loop {
        Some(l) => p.pending_inbox@ + l.inbox@,
        None => p.pending_inbox@,
    }
}

impl<A, U> ParticipantRuntimeState<A, U> {
    /// An idle participant with an empty inbox.
    pub fn new(id: ParticipantId) -> (r: Self)
        ensures
            r.id == id,
            r.pending_inbox@.len() == 0,
            r.active_loop is None,
            !r.finished,
    {
        ParticipantRuntimeState { id, pending_inbox: Vec::new(), active_loop: None, finished: false }
    }

    /// Whether a message is waiting that can open a new agent loop.
    pub fn has_startable_message(&self) -> (r: bool)
        ensures
            r == (first_message(self.pending_inbox@) is Some),
    {
        startable_message(&self.pending_inbox).is_some()
    }

    /// Gives `event` to the participant: to its current loop if it has one
    /// (which resumes if the event ends the action it waits for), else to
    /// the events waiting for its next loop.
    pub fn deliver(&mut self, event: ParticipantInboxEvent<A, U>)
        ensures
            final(self).id == old(self).id,
            final(self).finished == old(self).finished,
            held_events(*final(self)) == held_events(*old(self)).push(event),
            match old(self).active_loop {
                Some(l) => {
                    &&& final(self).pending_inbox == old(self).pending_inbox
                    &&& final(self).active_loop matches Some(m)
                    &&& m.inbox@ == l.inbox@.push(event)
                    &&& m.execution_state == state_after_delivery(l.execution_state, event)
                    &&& m.work_item == l.work_item
                    &&& m.step_count == l.step_count
                },
                None => {
                    &&& final(self).pending_inbox@ == old(self).pending_inbox@.push(event)
                    &&& final(self).active_loop is None
                },
            },
    {
        match &mut self.active_loop {
            Some(active_loop) => {
                active_loop.deliver(event);
            },
            None => {
                self.pending_inbox.push(event);
            },
        }
    }

    /// Whether the participant may take a turn now.
    pub fn is_runnable(&self) -> (r: bool)
        ensures
            r == runnable(*self),
    {
        if self.finished {
            return false;
        }
        match &self.active_loop {
            Some(active_loop) => active_loop.is_ready_for_turn(),
            None => self.has_startable_message(),
        }
    }

    /// Opens an agent loop, identified by `loop_id`, for the first waiting
    /// message, moving every waiting event into it. Nothing changes when no
    /// message waits. Returns whether a loop was opened.
    pub fn start_next_loop(&mut self, loop_id: WorkItemId) -> (started: bool)
        requires
            old(self).active_loop is None,
        ensures
            started == (first_message(old(self).pending_inbox@) is Some),
            !started ==> *final(self) == *old(self),
            started ==> {
                &&& final(self).pending_inbox@.len() == 0
                &&& final(self).active_loop matches Some(l)
                &&& l.inbox@ == old(self).pending_inbox@
                &&& l.work_item.id == loop_id
                &&& first_message(old(self).pending_inbox@) == Some(
                    (l.work_item.from, l.work_item.content),
                )
                &&& l.execution_state == LoopExecutionState::ReadyForTurn
                &&& l.step_count == 0
            },
            final(self).id == old(self).id,
            final(self).finished == old(self).finished,
            held_events(*final(self)) == held_events(*old(self)),
    {
        match startable_message(&self.pending_inbox) {
            Some((from, content)) => {
                let mut inbox: Vec<ParticipantInboxEvent<A, U>> = Vec::new();
                std::mem::swap(&mut inbox, &mut self.pending_inbox);
                self.active_loop = Some(
                    ActiveLoop {
                        inbox,
                        work_item: WorkItem { id: loop_id, from, content },
                        execution_state: LoopExecutionState::ReadyForTurn,
                        step_count: 0,
                    },
                );
                assert(held_events(*self) =~= held_events(*old(self)));
                true
            },
            None => false,
        }
    }

    /// Counts one turn of the current loop, if there is one.
    pub fn apply_turn_progress(&mut self)
        requires
            old(self).active_loop matches Some(l) ==> l.step_count < usize::MAX,
        ensures
            final(self).id == old(self).id,
            final(self).finished == old(self).finished,
            final(self).pending_inbox == old(self).pending_inbox,
            match old(self).active_loop {
                Some(l) => final(self).active_loop == Some(
                    ActiveLoop { step_count: (l.step_count + 1) as usize, ..l },
                ),
                None => final(self).active_loop is None,
            },
    {
        match &mut self.active_loop {
            Some(active_loop) => active_loop.record_step(),
            None => {},
        }
    }

    /// The current loop now waits for action `action_id`.
    pub fn transition_current_loop_to_blocked_on_action(&mut self, action_id: ActionId)
        requires
            old(self).active_loop is Some,
        ensures
            final(self).id == old(self).id,
            final(self).finished == old(self).finished,
            final(self).pending_inbox == old(self).pending_inbox,
            final(self).active_loop == Some(
                ActiveLoop {
                    execution_state: LoopExecutionState::WaitingForActionCompletion { action_id },
                    ..old(self).active_loop->0
                },
            ),
    {
        match &mut self.active_loop {
            Some(active_loop) => active_loop.transition_to_blocked_on_action(action_id),
            None => {},
        }
    }

    /// Closes the current loop, if any; events it had not yet shown the
    /// participant go back to wait for the next loop.
    pub fn transition_to_idle_after_loop_completion(&mut self)
        ensures
            final(self).id == old(self).id,
            final(self).finished == old(self).finished,
            final(self).active_loop is None,
            final(self).pending_inbox@ == held_events(*old(self)),
    {
        match self.active_loop.take() {
            Some(active_loop) => {
                let ActiveLoop { inbox, .. } = active_loop;
                let mut inbox = inbox;
                self.pending_inbox.append(&mut inbox);
            },
            None => {},
        }
    }

    /// Counts the turn that completed the current loop, then closes it.
    pub fn apply_loop_completion(&mut self)
        requires
            old(self).active_loop matches Some(l) ==> l.step_count < usize::MAX,
        ensures
            final(self).id == old(self).id,
            final(self).finished == old(self).finished,
            final(self).active_loop is None,
            final(self).pending_inbox@ == held_events(*old(self)),
    {
        self.apply_turn_progress();
        self.transition_to_idle_after_loop_completion();
    }

    /// The participant is done: events waiting for a new loop are dropped,
    /// and its current loop, if any, is closed.
    pub fn finish(&mut self)
        ensures
            final(self).id == old(self).id,
            final(self).finished,
            final(self).active_loop is None,
            final(self).pending_inbox@ == match old(self).active_loop {
                Some(l) => l.inbox@,
                None => Seq::<ParticipantInboxEvent<A, U>>::empty(),
            },
    {
        self.finished = true;
        self.pending_inbox.clear();
        self.transition_to_idle_after_loop_completion();
        proof {
            match old(self).active_loop {
                Some(l) => assert(Seq::<ParticipantInboxEvent<A, U>>::empty() + l.inbox@ =~= l.inbox@),
                None => {},
            }
        }
    }
}

} // verus!
