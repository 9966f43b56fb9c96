//! The state of a run in progress and the bookkeeping done on it.
use vstd::prelude::*;

use std::collections::{BTreeMap, BTreeSet};

use crate::domain::ids::{ActionId, RunId};
use crate::orchestrator::participant::{held_events, ParticipantRuntimeState};
use crate::orchestrator::types::{
    EnvironmentEvent, InitialInboxMessage, ParticipantId, ParticipantInboxEvent, TaskSpec,
    Trajectory, TrajectoryEvent,
};

verus! {

broadcast use vstd::std_specs::btree::group_btree_axioms;

/// `i` is the first participant of `ps` with id `id`.
pub open spec fn first_named<A, U>(
    ps: Seq<ParticipantRuntimeState<A, U>>,
    id: ParticipantId,
    i: int,
) -> bool {
    &&& 0 <= i < ps.len()
    &&& ps[i].id.names(id)
    &&& forall|j: int| 0 <= j < i ==> !(#[trigger] ps[j]).id.names(id)
}

/// No participant of `ps` has id `id`.
pub open spec fn none_named<A, U>(ps: Seq<ParticipantRuntimeState<A, U>>, id: ParticipantId) -> bool {
    forall|j: int| 0 <= j < ps.len() ==> !(#[trigger] ps[j]).id.names(id)
}

/// `after` holds the same participants as `before`, in the same order.
pub open spec fn same_roster<A, U>(
    before: Seq<ParticipantRuntimeState<A, U>>,
    after: Seq<ParticipantRuntimeState<A, U>>,
) -> bool {
    &&& after.len() == before.len()
    &&& forall|k: int| 0 <= k < before.len() ==> (#[trigger] after[k]).id == before[k].id
}

/// `after` is `before` with `event` delivered to the first participant with
/// id `to`, if there is one, and nothing else changed.
pub open spec fn delivered_to_first<A, U>(
    before: Seq<ParticipantRuntimeState<A, U>>,
    after: Seq<ParticipantRuntimeState<A, U>>,
    to: ParticipantId,
    event: ParticipantInboxEvent<A, U>,
) -> bool {
    &&& same_roster(before, after)
    &&& forall|k: int|
        0 <= k < before.len() ==> if first_named(before, to, k) {
            &&& held_events(#[trigger] after[k]) == held_events(before[k]).push(event)
            &&& after[k].finished == before[k].finished
            &&& (after[k].active_loop is None) == (before[k].active_loop is None)
        } else {
            after[k] == before[k]
        }
}

/// The number of distinct ids among the finished participants of `ps`.
pub open spec fn distinct_finished<A, U>(ps: Seq<ParticipantRuntimeState<A, U>>) -> nat
    decreases ps.len(),
{
    if ps.len() == 0 {
        0
    } else {
        let last = ps.last();
        let earlier = ps.drop_last();
        distinct_finished(earlier) + if last.finished && !(exists|j: int|
            0 <= j < earlier.len() && (#[trigger] earlier[j]).finished && earlier[j].id.names(
                last.id,
            )) {
            1nat
        } else {
            0nat
        }
    }
}

/// The state of a run in progress.
pub struct RunState<O, A, U> {
    pub observation: O,
    pub trajectory: Trajectory<O, A, U>,
    pub pending_actions: BTreeSet<u128>,
    pub submitted_actions: BTreeMap<u128, (ParticipantId, A)>,
    pub queued_environment_events: Vec<EnvironmentEvent<A, U>>,
    pub participants: Vec<ParticipantRuntimeState<A, U>>,
}

/// Index of the first participant with id `id`.
pub fn find_participant<A, U>(ps: &Vec<ParticipantRuntimeState<A, U>>, id: &ParticipantId) -> (r:
    Option<usize>)
    ensures
        r matches Some(i) ==> first_named(ps@, *id, i as int),
        r is None ==> none_named(ps@, *id),
{
    let mut i: usize = 0;
    while i < ps.len()
        invariant
            i <= ps@.len(),
            forall|j: int| 0 <= j < i ==> !(#[trigger] ps@[j]).id.names(*id),
        decreases ps@.len() - i,
    {
        if ps[i].id.same(id) {
            return Some(i);
        }
        i = i + 1;
    }
    None
}

/// Delivers `event` to the first participant with id `to`, if any.
pub fn deliver_to<A, U>(
    ps: &mut Vec<ParticipantRuntimeState<A, U>>,
    to: &ParticipantId,
    event: ParticipantInboxEvent<A, U>,
)
    ensures
        delivered_to_first(old(ps)@, final(ps)@, *to, event),
{
    match find_participant(ps, to) {
        Some(i) => {
            ps[i].deliver(event);
            assert forall|k: int| 0 <= k < old(ps)@.len() && k != i implies !first_named(
                old(ps)@,
                *to,
                k,
            ) by {
                if k > i {
                    assert(old(ps)@[i as int].id.names(*to));
                }
            }
        },
        None => {},
    }
}

/// The number of distinct ids among the finished participants.
pub fn finished_participant_count<A, U>(ps: &Vec<ParticipantRuntimeState<A, U>>) -> (r: usize)
    ensures
        r == distinct_finished(ps@),
{
    let mut count: usize = 0;
    let mut i: usize = 0;
    while i < ps.len()
        invariant
            i <= ps@.len(),
            count == distinct_finished(ps@.take(i as int)),
            count <= i,
        decreases ps@.len() - i,
    {
        let ghost prefix = ps@.take(i as int);
        let mut seen = false;
        if ps[i].finished {
            let mut j: usize = 0;
            while j < i
                invariant
                    j <= i < ps@.len(),
                    !seen <==> forall|k: int|
                        0 <= k < j ==> !((#[trigger] ps@[k]).finished && ps@[k].id.names(
                            ps@[i as int].id,
                        )),
                decreases i - j,
            {
                if ps[j].finished && ps[j].id.same(&ps[i].id) {
                    seen = true;
                }
                j = j + 1;
            }
        }
        proof {
            let next = ps@.take(i + 1);
            assert(next.drop_last() =~= prefix);
            assert(next.last() == ps@[i as int]);
            if ps@[i as int].finished {
                if seen {
                    let k = choose|k: int|
                        0 <= k < i && (#[trigger] ps@[k]).finished && ps@[k].id.names(
                            ps@[i as int].id,
                        );
                    assert(prefix[k] == ps@[k]);
                } else {
                    assert forall|k: int|
                        0 <= k < prefix.len() implies !((#[trigger] prefix[k]).finished
                        && prefix[k].id.names(next.last().id)) by {
                        assert(prefix[k] == ps@[k]);
                    }
                }
            }
        }
        if ps[i].finished && !seen {
            count = count + 1;
        }
        i = i + 1;
    }
    assert(ps@.take(ps@.len() as int) =~= ps@);
    count
}


/// `after` is `before` with a message from `from` delivered to every
/// participant that is neither finished nor `from` itself, and nothing else
/// changed.
pub open spec fn routed_message<A, U>(
    before: Seq<ParticipantRuntimeState<A, U>>,
    after: Seq<ParticipantRuntimeState<A, U>>,
    from: ParticipantId,
    content: String,
) -> bool {
    &&& same_roster(before, after)
    &&& forall|k: int|
        0 <= k < before.len() ==> if !before[k].finished && !before[k].id.names(from) {
            &&& held_events(#[trigger] after[k]) == held_events(before[k]).push(
                ParticipantInboxEvent::Message { from, content },
            )
            &&& after[k].finished == before[k].finished
            &&& (after[k].active_loop is None) == (before[k].active_loop is None)
        } else {
            after[k] == before[k]
        }
}

/// Delivers a message from `from` to every other participant that is not
/// finished.
pub fn route_participant_message<A, U>(
    ps: &mut Vec<ParticipantRuntimeState<A, U>>,
    from: &ParticipantId,
    content: &String,
)
    ensures
        routed_message(old(ps)@, final(ps)@, *from, *content),
{
    let ghost before = ps@;
    let mut i: usize = 0;
    while i < ps.len()
        invariant
            i <= ps@.len(),
            ps@.len() == before.len(),
            forall|k: int| 0 <= k < before.len() ==> (#[trigger] ps@[k]).id == before[k].id,
            forall|k: int|
                i <= k < before.len() ==> (#[trigger] ps@[k]) == before[k],
            forall|k: int|
                0 <= k < i ==> if !before[k].finished && !before[k].id.names(*from) {
                    &&& held_events(#[trigger] ps@[k]) == held_events(before[k]).push(
                        ParticipantInboxEvent::Message { from: *from, content: *content },
                    )
                    &&& ps@[k].finished == before[k].finished
                    &&& (ps@[k].active_loop is None) == (before[k].active_loop is None)
                } else {
                    ps@[k] == before[k]
                },
        decreases ps@.len() - i,
    {
        if !ps[i].finished && !ps[i].id.same(from) {
            ps[i].deliver(ParticipantInboxEvent::Message { from: from.copy(), content: content.clone() });
        }
        i = i + 1;
    }
}

impl<O, A: Clone, U: Clone> RunState<O, A, U> {
    /// Records a participant's message in the trajectory and delivers it to
    /// every other participant that is not finished.
    pub fn emit_participant_message(&mut self, participant: &ParticipantId, content: &String)
        ensures
            final(self).trajectory.run_id == old(self).trajectory.run_id,
            final(self).trajectory.events@ == old(self).trajectory.events@.push(
                TrajectoryEvent::ParticipantMessage { participant: *participant, content: *content },
            ),
            routed_message(old(self).participants@, final(self).participants@, *participant, *content),
            final(self).pending_actions@ == old(self).pending_actions@,
            final(self).submitted_actions@ == old(self).submitted_actions@,
            final(self).queued_environment_events == old(self).queued_environment_events,
            final(self).observation == old(self).observation,
    {
        self.trajectory.push(
            TrajectoryEvent::ParticipantMessage { participant: participant.copy(), content: content.clone() },
        );
        route_participant_message(&mut self.participants, participant, content);
    }

    /// Marks the first participant with id `id` as finished.
    pub fn finish_participant(&mut self, id: &ParticipantId)
        ensures
            same_roster(old(self).participants@, final(self).participants@),
            forall|k: int|
                0 <= k < old(self).participants@.len() ==> if first_named(
                    old(self).participants@,
                    *id,
                    k,
                ) {
                    (#[trigger] final(self).participants@[k]).finished
                        && final(self).participants@[k].active_loop is None
                } else {
                    final(self).participants@[k] == old(self).participants@[k]
                },
            final(self).trajectory == old(self).trajectory,
            final(self).pending_actions@ == old(self).pending_actions@,
            final(self).submitted_actions@ == old(self).submitted_actions@,
            final(self).queued_environment_events == old(self).queued_environment_events,
            final(self).observation == old(self).observation,
    {
        match find_participant(&self.participants, id) {
            Some(i) => {
                self.participants[i].finish();
                assert forall|k: int| 0 <= k < old(self).participants@.len() && k != i implies !first_named(
                    old(self).participants@,
                    *id,
                    k,
                ) by {
                    if k > i {
                        assert(old(self).participants@[i as int].id.names(*id));
                    }
                }
            },
            None => {},
        }
    }

    /// Takes the record of submitted action `id` out of the run.
    pub fn take_submitted_action(&mut self, id: ActionId) -> (r: Option<(ParticipantId, A)>)
        ensures
            r == old(self).submitted_actions@.get(id.value),
            final(self).submitted_actions@ == old(self).submitted_actions@.remove(id.value),
            final(self).participants == old(self).participants,
            final(self).trajectory == old(self).trajectory,
            final(self).pending_actions@ == old(self).pending_actions@,
            final(self).queued_environment_events == old(self).queued_environment_events,
            final(self).observation == old(self).observation,
    {
        self.submitted_actions.remove(&id.value)
    }
}


/// `k` is the first index of `ids` that names `to`.
pub open spec fn first_id_named(ids: Seq<ParticipantId>, to: ParticipantId, k: int) -> bool {
    &&& 0 <= k < ids.len()
    &&& ids[k].names(to)
    &&& forall|j: int| 0 <= j < k ==> !(#[trigger] ids[j]).names(to)
}

/// The inbox participant `k` starts with: in order, each initial message
/// addressed to it (a message goes to the first participant it names).
pub open spec fn initial_inbox<A, U>(
    ids: Seq<ParticipantId>,
    messages: Seq<InitialInboxMessage>,
    k: int,
) -> Seq<ParticipantInboxEvent<A, U>>
    decreases messages.len(),
{
    if messages.len() == 0 {
        Seq::empty()
    } else {
        let m = messages.last();
        let earlier = initial_inbox(ids, messages.drop_last(), k);
        if first_id_named(ids, m.to, k) {
            earlier.push(ParticipantInboxEvent::Message { from: m.from, content: m.content })
        } else {
            earlier
        }
    }
}

impl<O: Clone, A: Clone, U: Clone> RunState<O, A, U> {
    /// A run that starts on `task` with `observation`: the trajectory records
    /// the start and the observation, and each initial message waits in the
    /// inbox of the first participant it is addressed to.
    pub fn new(
        run_id: RunId,
        task: &TaskSpec,
        observation: O,
        ids: Vec<ParticipantId>,
        initial_messages: &Vec<InitialInboxMessage>,
    ) -> (r: Self)
        ensures
            r.trajectory.run_id == run_id,
            r.trajectory.events@.len() == 2,
            r.trajectory.events@[0] == (TrajectoryEvent::<O, A, U>::SessionStarted { task: *task }),
            r.trajectory.events@[1] matches TrajectoryEvent::ObservationRecorded { observation: o }
                && cloned(observation, o),
            r.observation == observation,
            r.pending_actions@.len() == 0,
            r.submitted_actions@.len() == 0,
            r.queued_environment_events@.len() == 0,
            r.participants@.len() == ids@.len(),
            forall|k: int|
                0 <= k < ids@.len() ==> {
                    &&& (#[trigger] r.participants@[k]).id == ids@[k]
                    &&& !r.participants@[k].finished
                    &&& r.participants@[k].active_loop is None
                    &&& r.participants@[k].pending_inbox@ == initial_inbox::<A, U>(
                        ids@,
                        initial_messages@,
                        k,
                    )
                },
    {
        let mut trajectory = Trajectory::new(run_id);
        trajectory.push(TrajectoryEvent::SessionStarted { task: task.copy() });
        trajectory.push(TrajectoryEvent::ObservationRecorded { observation: observation.clone() });
        let mut participants: Vec<ParticipantRuntimeState<A, U>> = Vec::new();
        let mut i: usize = 0;
        while i < ids.len()
            invariant
                i <= ids@.len(),
                participants@.len() == i,
                forall|k: int|
                    0 <= k < i ==> {
                        &&& (#[trigger] participants@[k]).id == ids@[k]
                        &&& !participants@[k].finished
                        &&& participants@[k].active_loop is None
                        &&& participants@[k].pending_inbox@.len() == 0
                    },
            decreases ids@.len() - i,
        {
            participants.push(ParticipantRuntimeState::new(ids[i].copy()));
            i = i + 1;
        }
        let mut j: usize = 0;
        while j < initial_messages.len()
            invariant
                j <= initial_messages@.len(),
                participants@.len() == ids@.len(),
                forall|k: int|
                    0 <= k < ids@.len() ==> {
                        &&& (#[trigger] participants@[k]).id == ids@[k]
                        &&& !participants@[k].finished
                        &&& participants@[k].active_loop is None
                        &&& participants@[k].pending_inbox@ == initial_inbox::<A, U>(
                            ids@,
                            initial_messages@.take(j as int),
                            k,
                        )
                    },
            decreases initial_messages@.len() - j,
        {
            let message = &initial_messages[j];
            let ghost before = participants@;
            deliver_to(
                &mut participants,
                &message.to,
                ParticipantInboxEvent::Message { from: message.from.copy(), content: message.content.clone() },
            );
            proof {
                let taken = initial_messages@.take(j + 1);
                assert(taken.drop_last() =~= initial_messages@.take(j as int));
                assert(taken.last() == initial_messages@[j as int]);
                assert forall|k: int| 0 <= k < ids@.len() implies first_named(
                    before,
                    message.to,
                    k,
                ) == first_id_named(ids@, message.to, k) by {
                    if first_named(before, message.to, k) {
                        assert forall|x: int| 0 <= x < k implies !(#[trigger] ids@[x]).names(
                            message.to,
                        ) by {
                            assert(before[x].id == ids@[x]);
                        }
                    }
                    if first_id_named(ids@, message.to, k) {
                        assert forall|x: int| 0 <= x < k implies !(#[trigger] before[x]).id.names(
                            message.to,
                        ) by {
                            assert(before[x].id == ids@[x]);
                        }
                    }
                }
            }
            j = j + 1;
        }
        assert(initial_messages@.take(initial_messages@.len() as int) =~= initial_messages@);
        RunState {
            observation,
            trajectory,
            pending_actions: BTreeSet::new(),
            submitted_actions: BTreeMap::new(),
            queued_environment_events: Vec::new(),
            participants,
        }
    }
}


/// `after` is `before` with one event appended that satisfies `last`.
pub open spec fn appended_one<O, A, U>(
    before: Trajectory<O, A, U>,
    after: Trajectory<O, A, U>,
) -> bool {
    &&& after.run_id == before.run_id
    &&& after.events@.len() == before.events@.len() + 1
    &&& after.events@.take(before.events@.len() as int) == before.events@
}

impl<O: Clone, A: Clone, U: Clone> RunState<O, A, U> {
    /// Records a fresh observation of the environment.
    pub fn record_observation(&mut self, observation: O)
        ensures
            final(self).observation == observation,
            appended_one(old(self).trajectory, final(self).trajectory),
            final(self).trajectory.events@.last() matches TrajectoryEvent::ObservationRecorded {
                observation: o,
            } && cloned(observation, o),
            final(self).participants == old(self).participants,
            final(self).pending_actions@ == old(self).pending_actions@,
            final(self).submitted_actions@ == old(self).submitted_actions@,
            final(self).queued_environment_events == old(self).queued_environment_events,
    {
        let copy = observation.clone();
        self.observation = observation;
        self.trajectory.push(TrajectoryEvent::ObservationRecorded { observation: copy });
        assert(self.trajectory.events@.take(old(self).trajectory.events@.len() as int)
            =~= old(self).trajectory.events@);
    }

    /// Queues an event the run itself produced, to be applied with the
    /// environment's next events.
    pub fn queue_environment_event(&mut self, event: EnvironmentEvent<A, U>)
        ensures
            final(self).queued_environment_events@ == old(self).queued_environment_events@.push(
                event,
            ),
            final(self).participants == old(self).participants,
            final(self).trajectory == old(self).trajectory,
            final(self).pending_actions@ == old(self).pending_actions@,
            final(self).submitted_actions@ == old(self).submitted_actions@,
            final(self).observation == old(self).observation,
    {
        self.queued_environment_events.push(event);
    }

    /// Takes every queued event out of the run.
    pub fn drain_environment_events(&mut self) -> (r: Vec<EnvironmentEvent<A, U>>)
        ensures
            r@ == old(self).queued_environment_events@,
            final(self).queued_environment_events@.len() == 0,
            final(self).participants == old(self).participants,
            final(self).trajectory == old(self).trajectory,
            final(self).pending_actions@ == old(self).pending_actions@,
            final(self).submitted_actions@ == old(self).submitted_actions@,
            final(self).observation == old(self).observation,
    {
        let mut events: Vec<EnvironmentEvent<A, U>> = Vec::new();
        std::mem::swap(&mut events, &mut self.queued_environment_events);
        events
    }

    /// Applies an event about a deferred action: a scheduled action is shown
    /// to its participant; a status update is recorded; a completion or
    /// failure settles the action, is recorded, and is shown to its
    /// participant; a notification is shown to its participant.
    pub fn apply_environment_event(&mut self, event: EnvironmentEvent<A, U>)
        ensures
            final(self).observation == old(self).observation,
            final(self).queued_environment_events == old(self).queued_environment_events,
            match event {
                EnvironmentEvent::ActionScheduled { participant, action_id, action } => {
                    &&& final(self).trajectory == old(self).trajectory
                    &&& final(self).pending_actions@ == old(self).pending_actions@
                    &&& final(self).submitted_actions@ == old(self).submitted_actions@
                    &&& delivered_to_first(
                        old(self).participants@,
                        final(self).participants@,
                        participant,
                        ParticipantInboxEvent::ActionScheduled { action_id, action },
                    )
                },
                EnvironmentEvent::ActionRunStatus { participant, action_id, run_id, status } => {
                    &&& final(self).trajectory.run_id == old(self).trajectory.run_id
                    &&& final(self).trajectory.events@ == old(self).trajectory.events@.push(
                        TrajectoryEvent::ActionRunStatus { participant, action_id, run_id, status },
                    )
                    &&& final(self).pending_actions@ == old(self).pending_actions@
                    &&& final(self).submitted_actions@ == old(self).submitted_actions@
                    &&& final(self).participants == old(self).participants
                },
                EnvironmentEvent::ActionCompleted { participant, action_id, outcome } => {
                    &&& appended_one(old(self).trajectory, final(self).trajectory)
                    &&& final(self).trajectory.events@.last() matches TrajectoryEvent::ActionCompleted {
                        participant: p,
                        action_id: a,
                        outcome: o,
                    } && p == participant && a == action_id && cloned(outcome, o)
                    &&& final(self).pending_actions@ == old(self).pending_actions@.remove(
                        action_id.value,
                    )
                    &&& final(self).submitted_actions@ == old(self).submitted_actions@.remove(
                        action_id.value,
                    )
                    &&& delivered_to_first(
                        old(self).participants@,
                        final(self).participants@,
                        participant,
                        ParticipantInboxEvent::ActionCompleted { action_id, outcome },
                    )
                },
                EnvironmentEvent::ActionFailed { participant, action_id, error } => {
                    &&& final(self).trajectory.run_id == old(self).trajectory.run_id
                    &&& final(self).trajectory.events@ == old(self).trajectory.events@.push(
                        TrajectoryEvent::ActionFailed { participant, action_id, error },
                    )
                    &&& final(self).pending_actions@ == old(self).pending_actions@.remove(
                        action_id.value,
                    )
                    &&& final(self).submitted_actions@ == old(self).submitted_actions@.remove(
                        action_id.value,
                    )
                    &&& delivered_to_first(
                        old(self).participants@,
                        final(self).participants@,
                        participant,
                        ParticipantInboxEvent::ActionFailed { action_id, error },
                    )
                },
                EnvironmentEvent::Notification { participant, message } => {
                    &&& final(self).trajectory == old(self).trajectory
                    &&& final(self).pending_actions@ == old(self).pending_actions@
                    &&& final(self).submitted_actions@ == old(self).submitted_actions@
                    &&& delivered_to_first(
                        old(self).participants@,
                        final(self).participants@,
                        participant,
                        ParticipantInboxEvent::Notification { message },
                    )
                },
            },
    {
        match event {
            EnvironmentEvent::ActionScheduled { participant, action_id, action } => {
                deliver_to(
                    &mut self.participants,
                    &participant,
                    ParticipantInboxEvent::ActionScheduled { action_id, action },
                );
            },
            EnvironmentEvent::ActionRunStatus { participant, action_id, run_id, status } => {
                self.trajectory.push(
                    TrajectoryEvent::ActionRunStatus { participant, action_id, run_id, status },
                );
            },
            EnvironmentEvent::ActionCompleted { participant, action_id, outcome } => {
                self.pending_actions.remove(&action_id.value);
                self.submitted_actions.remove(&action_id.value);
                self.trajectory.push(
                    TrajectoryEvent::ActionCompleted {
                        participant: participant.copy(),
                        action_id,
                        outcome: outcome.clone(),
                    },
                );
                assert(self.trajectory.events@.take(old(self).trajectory.events@.len() as int)
                    =~= old(self).trajectory.events@);
                deliver_to(
                    &mut self.participants,
                    &participant,
                    ParticipantInboxEvent::ActionCompleted { action_id, outcome },
                );
            },
            EnvironmentEvent::ActionFailed { participant, action_id, error } => {
                self.pending_actions.remove(&action_id.value);
                self.submitted_actions.remove(&action_id.value);
                self.trajectory.push(
                    TrajectoryEvent::ActionFailed {
                        participant: participant.copy(),
                        action_id,
                        error: error.copy(),
                    },
                );
                deliver_to(
                    &mut self.participants,
                    &participant,
                    ParticipantInboxEvent::ActionFailed { action_id, error },
                );
            },
            EnvironmentEvent::Notification { participant, message } => {
                deliver_to(
                    &mut self.participants,
                    &participant,
                    ParticipantInboxEvent::Notification { message },
                );
            },
        }
    }
}

} // verus!
