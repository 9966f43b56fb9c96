//! What the agent is prompted with: its system prompt, the task message, and
//! the conversation rebuilt from the run's trajectory and its inbox, with each
//! action shown as a tool call and its end as the tool's result.
use vstd::prelude::*;

use crate::agents::workspace::{WorkspaceAction, WorkspaceObservation, WorkspaceOutcome};
use crate::canonical::python::{render_python_value, value_text};
use crate::domain::ids::ActionId;
use crate::evals::document::{doc_view, string_mapping, string_mapping_doc, DocValue, DocView};
use crate::evals::participants::{role_for_participant, role_of};
use crate::evals::trajectory::origin_label;
use crate::llm::types::{
    messages_view, text_view, tool_call_view, tool_result_view, LlmToolDefinition, PromptMessage,
    PromptMessageView,
};
use crate::orchestrator::types::{
    ActionError, ActionErrorOrigin, ParticipantId, ParticipantInboxEvent, ParticipantInput,
    TrajectoryEvent, WorkItem,
};
use crate::text::{decimal, decimal_text, string_push_str};

verus! {

/// The tool call id the history gives its `n`-th allocated call.
pub open spec fn call_id_text(n: nat) -> Seq<char> {
    "history-call-"@ + decimal(n)
}

/// The call ids by action, later entries overriding earlier ones.
pub open spec fn id_map(s: Seq<(ActionId, String)>) -> Map<ActionId, Seq<char>>
    decreases s.len(),
{
    if s.len() == 0 {
        Map::empty()
    } else {
        id_map(s.drop_last()).insert(s.last().0, s.last().1@)
    }
}

/// What the history of a prompt tracks: the number of call ids allocated,
/// the ids of calls not yet tied to an action (oldest first), the call id of
/// each action, and the actions whose end has been shown.
pub struct HistoryView {
    pub next: nat,
    pub pending: Seq<Seq<char>>,
    pub ids: Map<ActionId, Seq<char>>,
    pub seen: Set<ActionId>,
}

/// The history before any event.
pub open spec fn empty_history() -> HistoryView {
    HistoryView { next: 0, pending: Seq::empty(), ids: Map::empty(), seen: Set::empty() }
}

/// The history after allocating a call id: the id is counted and waits for
/// an action.
pub open spec fn allocated(h: HistoryView) -> HistoryView {
    HistoryView { next: h.next + 1, pending: h.pending.push(call_id_text(h.next)), ..h }
}

/// The call id an ended action is shown under, and the history after: its
/// own call id if it has one; else the oldest waiting call id, which stops
/// waiting; else a new id, counted but not waiting.
pub open spec fn resolved(h: HistoryView, id: ActionId) -> (Seq<char>, HistoryView) {
    if h.ids.dom().contains(id) {
        (h.ids[id], h)
    } else if h.pending.len() > 0 {
        (h.pending[0], HistoryView { pending: h.pending.drop_first(), ..h })
    } else {
        (call_id_text(h.next), HistoryView { next: h.next + 1, ..h })
    }
}

/// The state of the prompt history while it is rebuilt.
#[derive(Debug)]
pub struct PromptHistoryState {
    next_tool_call_id: usize,
    pending_unassigned: Vec<String>,
    action_ids: Vec<(ActionId, String)>,
    seen_action_ids: Vec<ActionId>,
}

proof fn lemma_id_map_last(s: Seq<(ActionId, String)>, k: ActionId, j: int)
    requires
        0 <= j < s.len(),
        s[j].0 == k,
        forall|t: int| j < t < s.len() ==> s[t].0 != k,
    ensures
        id_map(s).dom().contains(k),
        id_map(s)[k] == s[j].1@,
    decreases s.len(),
{
    if j < s.len() - 1 {
        lemma_id_map_last(s.drop_last(), k, j);
    }
}

proof fn lemma_id_map_absent(s: Seq<(ActionId, String)>, k: ActionId)
    requires
        forall|t: int| 0 <= t < s.len() ==> s[t].0 != k,
    ensures
        !id_map(s).dom().contains(k),
    decreases s.len(),
{
    if s.len() > 0 {
        lemma_id_map_absent(s.drop_last(), k);
    }
}

impl PromptHistoryState {
    /// The history this state tracks.
    pub closed spec fn view(&self) -> HistoryView {
        HistoryView {
            next: self.next_tool_call_id as nat,
            pending: self.pending_unassigned@.map_values(|s: String| s@),
            ids: id_map(self.action_ids@),
            seen: self.seen_action_ids@.to_set(),
        }
    }

    /// The number of call ids allocated so far.
    pub closed spec fn allocated_count(&self) -> nat {
        self.next_tool_call_id as nat
    }

    /// The history before any event.
    pub fn new() -> (r: Self)
        ensures
            r.view() == empty_history(),
    {
        let r = PromptHistoryState {
            next_tool_call_id: 0,
            pending_unassigned: Vec::new(),
            action_ids: Vec::new(),
            seen_action_ids: Vec::new(),
        };
        assert(r.view().pending =~= Seq::<Seq<char>>::empty());
        assert(r.view().seen =~= Set::<ActionId>::empty());
        assert(r.view().ids =~= Map::<ActionId, Seq<char>>::empty());
        r
    }

    fn next_call_id(&self) -> (r: String)
        ensures
            r@ == call_id_text(self.view().next),
    {
        let mut s = "history-call-".to_owned();
        let n = decimal_text(self.next_tool_call_id as u64);
        string_push_str(&mut s, n.as_str());
        s
    }

    /// Allocates a call id, which then waits for an action.
    fn allocate_call_id(&mut self) -> (r: String)
        requires
            old(self).view().next < usize::MAX,
        ensures
            r@ == call_id_text(old(self).view().next),
            final(self).view() == allocated(old(self).view()),
    {
        let call_id = self.next_call_id();
        self.next_tool_call_id = self.next_tool_call_id + 1;
        let ghost before = self.pending_unassigned@;
        self.pending_unassigned.push(call_id.clone());
        assert(self.pending_unassigned@.map_values(|s: String| s@) =~= before.map_values(
            |s: String| s@,
        ).push(call_id@));
        call_id
    }

    /// The oldest waiting call id, which stops waiting.
    fn pop_pending(&mut self) -> (r: Option<String>)
        ensures
            old(self).view().pending.len() == 0 ==> r is None && final(self).view() == old(
                self,
            ).view(),
            old(self).view().pending.len() > 0 ==> (r matches Some(c) && c@ == old(
                self,
            ).view().pending[0] && final(self).view() == (HistoryView {
                pending: old(self).view().pending.drop_first(),
                ..old(self).view()
            })),
    {
        if self.pending_unassigned.len() == 0 {
            return None;
        }
        let ghost before = self.pending_unassigned@;
        let c = self.pending_unassigned.remove(0);
        assert(self.pending_unassigned@.map_values(|s: String| s@) =~= before.map_values(
            |s: String| s@,
        ).drop_first());
        Some(c)
    }

    /// Ties action `action_id` to a call id, which stops waiting.
    fn record_action_id(&mut self, action_id: ActionId, call_id: String)
        ensures
            final(self).view() == (HistoryView {
                ids: old(self).view().ids.insert(action_id, call_id@),
                ..old(self).view()
            }),
    {
        let ghost before = self.action_ids@;
        self.action_ids.push((action_id, call_id));
        assert(self.action_ids@.drop_last() =~= before);
    }

    /// Ties the oldest waiting call id to action `action_id`, which then
    /// counts as shown.
    fn bind_action_id(&mut self, action_id: ActionId)
        ensures
            final(self).view() == if old(self).view().pending.len() > 0 {
                HistoryView {
                    pending: old(self).view().pending.drop_first(),
                    ids: old(self).view().ids.insert(action_id, old(self).view().pending[0]),
                    seen: old(self).view().seen.insert(action_id),
                    ..old(self).view()
                }
            } else {
                old(self).view()
            },
    {
        match self.pop_pending() {
            Some(call_id) => {
                self.record_action_id(action_id, call_id);
                self.mark_seen_action_id(action_id);
            },
            None => {},
        }
    }

    /// The call id of action `action_id`, if it has one.
    fn action_call_id(&self, action_id: ActionId) -> (r: Option<String>)
        ensures
            match r {
                Some(c) => self.view().ids.dom().contains(action_id) && c@ == self.view().ids[action_id],
                None => !self.view().ids.dom().contains(action_id),
            },
    {
        let n = self.action_ids.len();
        let mut i = n;
        while i > 0
            invariant
                i <= n == self.action_ids@.len(),
                forall|t: int| i <= t < n ==> self.action_ids@[t].0 != action_id,
            decreases i,
        {
            i = i - 1;
            if self.action_ids[i].0 == action_id {
                proof {
                    lemma_id_map_last(self.action_ids@, action_id, i as int);
                }
                return Some(self.action_ids[i].1.clone());
            }
        }
        proof {
            lemma_id_map_absent(self.action_ids@, action_id);
        }
        None
    }

    /// The call id an ended action is shown under; see `resolved`.
    fn resolve_or_allocate_action_id(&mut self, action_id: ActionId) -> (r: String)
        requires
            old(self).view().next < usize::MAX,
        ensures
            (r@, final(self).view()) == resolved(old(self).view(), action_id),
    {
        match self.action_call_id(action_id) {
            Some(c) => c,
            None => match self.pop_pending() {
                Some(c) => c,
                None => {
                    let c = self.next_call_id();
                    self.next_tool_call_id = self.next_tool_call_id + 1;
                    c
                },
            },
        }
    }

    /// Action `action_id` now counts as shown.
    fn mark_seen_action_id(&mut self, action_id: ActionId)
        ensures
            final(self).view() == (HistoryView {
                seen: old(self).view().seen.insert(action_id),
                ..old(self).view()
            }),
    {
        let ghost before = self.seen_action_ids@;
        self.seen_action_ids.push(action_id);
        let ghost after = self.seen_action_ids@;
        assert forall|a: ActionId| #[trigger] after.contains(a) == (before.contains(a) || a
            == action_id) by {
            if before.contains(a) {
                let i = choose|i: int| 0 <= i < before.len() && before[i] == a;
                assert(after[i] == a);
            }
            if a == action_id {
                assert(after[after.len() - 1] == a);
            }
            if after.contains(a) {
                let i = choose|i: int| 0 <= i < after.len() && after[i] == a;
                if i < before.len() {
                    assert(before[i] == a);
                }
            }
        }
        assert(after.to_set() =~= before.to_set().insert(action_id));
    }

    /// Whether action `action_id` counts as shown.
    fn has_seen_action_id(&self, action_id: ActionId) -> (r: bool)
        ensures
            r == self.view().seen.contains(action_id),
    {
        for i in 0..self.seen_action_ids.len()
            invariant
                forall|t: int| 0 <= t < i ==> self.seen_action_ids@[t] != action_id,
        {
            if self.seen_action_ids[i] == action_id {
                assert(self.seen_action_ids@.to_set().contains(action_id)) by {
                    assert(self.seen_action_ids@.contains(action_id));
                }
                return true;
            }
        }
        assert(!self.seen_action_ids@.contains(action_id));
        false
    }
}

/// The tool an action is shown as a call of.
pub open spec fn action_call_name(a: WorkspaceAction) -> Seq<char> {
    match a {
        WorkspaceAction::LoadSkill { .. } => "load_skill"@,
        WorkspaceAction::UnloadSkill { .. } => "unload_skill"@,
        WorkspaceAction::ExecuteCode { .. } => "execute_code"@,
    }
}

/// The arguments an action is shown with.
pub open spec fn action_arguments(a: WorkspaceAction) -> DocView {
    match a {
        WorkspaceAction::LoadSkill { skill_name } => string_mapping(seq![("skill_name"@, skill_name@)]),
        WorkspaceAction::UnloadSkill { skill_name } => string_mapping(
            seq![("skill_name"@, skill_name@)],
        ),
        WorkspaceAction::ExecuteCode { language, source } => string_mapping(
            seq![("language"@, language@), ("source"@, source@)],
        ),
    }
}

/// The tool result name of an outcome.
pub open spec fn outcome_name(o: WorkspaceOutcome) -> Seq<char> {
    match o {
        WorkspaceOutcome::CodeExecuted { .. } => "code_executed"@,
        WorkspaceOutcome::SkillLoaded { .. } => "skill_loaded"@,
        WorkspaceOutcome::SkillUnloaded { .. } => "skill_unloaded"@,
    }
}

/// The tool result an outcome is shown as; a code result as its Python
/// literal.
pub open spec fn outcome_output(o: WorkspaceOutcome) -> DocView {
    match o {
        WorkspaceOutcome::CodeExecuted { language, result } => match result {
            Some(v) => string_mapping(seq![("language"@, language@), ("result"@, value_text(v))]),
            None => string_mapping(seq![("language"@, language@)]),
        },
        WorkspaceOutcome::SkillLoaded { skill_name } => string_mapping(seq![("skill_name"@, skill_name@)]),
        WorkspaceOutcome::SkillUnloaded { skill_name } => string_mapping(
            seq![("skill_name"@, skill_name@)],
        ),
    }
}

/// The tool result a failed action is shown as.
pub open spec fn error_output(e: ActionError) -> DocView {
    string_mapping(
        seq![
            ("detail"@, e.detail@),
            ("origin"@, origin_label(e.origin)),
            ("user_message"@, e.user_message@),
        ],
    )
}

fn text_pair(key: &str, value: String) -> (r: (String, String))
    ensures
        r.0@ == key@,
        r.1 == value,
{
    (key.to_owned(), value)
}

/// The tool call an action is shown as: its tool name and arguments.
pub fn serialize_workspace_action(action: &WorkspaceAction) -> (r: (String, DocValue))
    ensures
        r.0@ == action_call_name(*action),
        doc_view(r.1) == action_arguments(*action),
{
    match action {
        WorkspaceAction::LoadSkill { skill_name } => {
            let entries = vec![text_pair("skill_name", skill_name.clone())];
            assert(entries@.map_values(|e: (String, String)| (e.0@, e.1@)) =~= seq![("skill_name"@, skill_name@)]);
            ("load_skill".to_owned(), string_mapping_doc(&entries))
        },
        WorkspaceAction::UnloadSkill { skill_name } => {
            let entries = vec![text_pair("skill_name", skill_name.clone())];
            assert(entries@.map_values(|e: (String, String)| (e.0@, e.1@)) =~= seq![("skill_name"@, skill_name@)]);
            ("unload_skill".to_owned(), string_mapping_doc(&entries))
        },
        WorkspaceAction::ExecuteCode { language, source } => {
            let entries = vec![
                text_pair("language", language.clone()),
                text_pair("source", source.clone()),
            ];
            assert(entries@.map_values(|e: (String, String)| (e.0@, e.1@)) =~= seq![
                ("language"@, language@),
                ("source"@, source@),
            ]);
            ("execute_code".to_owned(), string_mapping_doc(&entries))
        },
    }
}

/// The tool result an outcome is shown as: its name and output.
pub fn serialize_workspace_outcome(outcome: &WorkspaceOutcome) -> (r: (String, DocValue))
    ensures
        r.0@ == outcome_name(*outcome),
        doc_view(r.1) == outcome_output(*outcome),
{
    match outcome {
        WorkspaceOutcome::CodeExecuted { language, result } => match result {
            Some(v) => {
                let entries = vec![
                    text_pair("language", language.clone()),
                    text_pair("result", render_python_value(v)),
                ];
                assert(entries@.map_values(|e: (String, String)| (e.0@, e.1@)) =~= seq![
                    ("language"@, language@),
                    ("result"@, value_text(*v)),
                ]);
                ("code_executed".to_owned(), string_mapping_doc(&entries))
            },
            None => {
                let entries = vec![text_pair("language", language.clone())];
                assert(entries@.map_values(|e: (String, String)| (e.0@, e.1@)) =~= seq![("language"@, language@)]);
                ("code_executed".to_owned(), string_mapping_doc(&entries))
            },
        },
        WorkspaceOutcome::SkillLoaded { skill_name } => {
            let entries = vec![text_pair("skill_name", skill_name.clone())];
            assert(entries@.map_values(|e: (String, String)| (e.0@, e.1@)) =~= seq![("skill_name"@, skill_name@)]);
            ("skill_loaded".to_owned(), string_mapping_doc(&entries))
        },
        WorkspaceOutcome::SkillUnloaded { skill_name } => {
            let entries = vec![text_pair("skill_name", skill_name.clone())];
            assert(entries@.map_values(|e: (String, String)| (e.0@, e.1@)) =~= seq![("skill_name"@, skill_name@)]);
            ("skill_unloaded".to_owned(), string_mapping_doc(&entries))
        },
    }
}

fn origin_text(o: ActionErrorOrigin) -> (r: String)
    ensures
        r@ == origin_label(o),
{
    match o {
        ActionErrorOrigin::Orchestrator => "Orchestrator".to_owned(),
        ActionErrorOrigin::Environment => "Environment".to_owned(),
        ActionErrorOrigin::Runtime => "Runtime".to_owned(),
        ActionErrorOrigin::Interpreter => "Interpreter".to_owned(),
    }
}

/// The tool result a failed action is shown as.
pub fn serialize_action_error(error: &ActionError) -> (r: DocValue)
    ensures
        doc_view(r) == error_output(*error),
{
    let entries = vec![
        text_pair("detail", error.detail.clone()),
        text_pair("origin", origin_text(error.origin)),
        text_pair("user_message", error.user_message.clone()),
    ];
    assert(entries@.map_values(|e: (String, String)| (e.0@, e.1@)) =~= seq![
        ("detail"@, error.detail@),
        ("origin"@, origin_label(error.origin)),
        ("user_message"@, error.user_message@),
    ]);
    string_mapping_doc(&entries)
}

/// The history after action `id`'s end is shown, and the call id it is
/// shown under.
pub open spec fn ended(h: HistoryView, id: ActionId) -> (Seq<char>, HistoryView) {
    resolved(HistoryView { seen: h.seen.insert(id), ..h }, id)
}

/// The history after the oldest waiting call id is tied to action `id`.
pub open spec fn bound(h: HistoryView, id: ActionId) -> HistoryView {
    if h.pending.len() > 0 {
        HistoryView {
            pending: h.pending.drop_first(),
            ids: h.ids.insert(id, h.pending[0]),
            seen: h.seen.insert(id),
            ..h
        }
    } else {
        h
    }
}

/// What a trajectory event adds to the transcript, and the history after
/// it: messages as text from their author's role; an agent's action request
/// as a call under a new id; the agent's scheduled action ties the oldest
/// waiting id; an action's end as the result of its call.
pub open spec fn transcript_step(
    h: HistoryView,
    e: TrajectoryEvent<WorkspaceObservation, WorkspaceAction, WorkspaceOutcome>,
) -> (HistoryView, Seq<PromptMessageView>) {
    match e {
        TrajectoryEvent::ParticipantMessage { participant, content } => (
            h,
            seq![text_view(role_of(participant), content@)],
        ),
        TrajectoryEvent::ActionRequested { participant, action, .. } => if participant is Agent {
            (
                allocated(h),
                seq![tool_call_view(call_id_text(h.next), action_call_name(action), action_arguments(action))],
            )
        } else {
            (h, Seq::empty())
        },
        TrajectoryEvent::ActionScheduled { participant, action_id, .. } => if participant is Agent {
            (bound(h, action_id), Seq::empty())
        } else {
            (h, Seq::empty())
        },
        TrajectoryEvent::ActionCompleted { action_id, outcome, .. } => {
            let (c, h2) = ended(h, action_id);
            (h2, seq![tool_result_view(c, outcome_name(outcome), outcome_output(outcome))])
        },
        TrajectoryEvent::ActionFailed { action_id, error, .. } => {
            let (c, h2) = ended(h, action_id);
            (h2, seq![tool_result_view(c, "action_error"@, error_output(error))])
        },
        _ => (h, Seq::empty()),
    }
}

/// The transcript of a trajectory's events, and the history after them.
pub open spec fn transcript_of(
    events: Seq<TrajectoryEvent<WorkspaceObservation, WorkspaceAction, WorkspaceOutcome>>,
) -> (HistoryView, Seq<PromptMessageView>)
    decreases events.len(),
{
    if events.len() == 0 {
        (empty_history(), Seq::empty())
    } else {
        let (h, ms) = transcript_of(events.drop_last());
        let (h2, more) = transcript_step(h, events.last());
        (h2, ms + more)
    }
}

/// What an inbox event adds to the prompt, and the history after it: a
/// message as text from its author's role; a scheduled action not shown yet
/// as a call under a new id of its own; an action's end not shown yet as the
/// result of its call; a notification as a system message.
pub open spec fn inbox_step(
    h: HistoryView,
    e: ParticipantInboxEvent<WorkspaceAction, WorkspaceOutcome>,
) -> (HistoryView, Seq<PromptMessageView>) {
    match e {
        ParticipantInboxEvent::Message { from, content } => (
            h,
            seq![text_view(role_of(from), content@)],
        ),
        ParticipantInboxEvent::ActionScheduled { action_id, action } => if h.seen.contains(
            action_id,
        ) {
            (h, Seq::empty())
        } else {
            let c = call_id_text(h.next);
            let h1 = allocated(h);
            (
                HistoryView {
                    ids: h1.ids.insert(action_id, c),
                    seen: h1.seen.insert(action_id),
                    ..h1
                },
                seq![tool_call_view(c, action_call_name(action), action_arguments(action))],
            )
        },
        ParticipantInboxEvent::ActionCompleted { action_id, outcome } => if h.seen.contains(
            action_id,
        ) {
            (h, Seq::empty())
        } else {
            let (c, h2) = ended(h, action_id);
            (h2, seq![tool_result_view(c, outcome_name(outcome), outcome_output(outcome))])
        },
        ParticipantInboxEvent::ActionFailed { action_id, error } => if h.seen.contains(action_id) {
            (h, Seq::empty())
        } else {
            let (c, h2) = ended(h, action_id);
            (h2, seq![tool_result_view(c, "action_error"@, error_output(error))])
        },
        ParticipantInboxEvent::Notification { message } => (
            h,
            seq![text_view("system"@, message@)],
        ),
    }
}

/// The prompt messages of an inbox's events read after history `h`, and the
/// history after them.
pub open spec fn inbox_of(
    h: HistoryView,
    events: Seq<ParticipantInboxEvent<WorkspaceAction, WorkspaceOutcome>>,
) -> (HistoryView, Seq<PromptMessageView>)
    decreases events.len(),
{
    if events.len() == 0 {
        (h, Seq::empty())
    } else {
        let (h1, ms) = inbox_of(h, events.drop_last());
        let (h2, more) = inbox_step(h1, events.last());
        (h2, ms + more)
    }
}

/// A notification at the end of the inbox adds exactly one message to the
/// prompt, after those of the events before it: a system message holding
/// the notification's text; and it leaves the history of calls as it was.
pub proof fn lemma_notification_becomes_system_message(
    h: HistoryView,
    events: Seq<ParticipantInboxEvent<WorkspaceAction, WorkspaceOutcome>>,
    message: String,
)
    ensures
        ({
            let (h1, ms) = inbox_of(h, events);
            let (h2, ms2) = inbox_of(h, events.push(ParticipantInboxEvent::Notification { message }));
            &&& h2 == h1
            &&& ms2.len() == ms.len() + 1
            &&& ms2.take(ms.len() as int) == ms
            &&& ms2.last() == text_view("system"@, message@)
            &&& ms2.last().role == "system"@
            &&& ms2.last().content == message@
            &&& ms2.last().metadata is None
        }),
{
    let e = ParticipantInboxEvent::<WorkspaceAction, WorkspaceOutcome>::Notification { message };
    assert(events.push(e).drop_last() =~= events);
    let (h1, ms) = inbox_of(h, events);
    let (h2, ms2) = inbox_of(h, events.push(e));
    assert(ms2 == ms + seq![text_view("system"@, message@)]);
    assert(ms2.take(ms.len() as int) =~= ms);
}

/// A message at the end of the inbox adds exactly one text message to the
/// prompt, after those of the events before it, in its sender's role and
/// with its content; the history of calls stays as it was.
pub proof fn lemma_inbox_message_becomes_text(
    h: HistoryView,
    events: Seq<ParticipantInboxEvent<WorkspaceAction, WorkspaceOutcome>>,
    from: ParticipantId,
    content: String,
)
    ensures
        ({
            let (h1, ms) = inbox_of(h, events);
            let (h2, ms2) = inbox_of(h, events.push(ParticipantInboxEvent::Message { from, content }));
            &&& h2 == h1
            &&& ms2.len() == ms.len() + 1
            &&& ms2.take(ms.len() as int) == ms
            &&& ms2.last().role == role_of(from)
            &&& ms2.last().content == content@
            &&& ms2.last().metadata is None
        }),
{
    let e = ParticipantInboxEvent::<WorkspaceAction, WorkspaceOutcome>::Message { from, content };
    assert(events.push(e).drop_last() =~= events);
    let (h1, ms) = inbox_of(h, events);
    let (h2, ms2) = inbox_of(h, events.push(e));
    assert(ms2 == ms + seq![text_view(role_of(from), content@)]);
    assert(ms2.take(ms.len() as int) =~= ms);
}

proof fn lemma_transcript_count(
    events: Seq<TrajectoryEvent<WorkspaceObservation, WorkspaceAction, WorkspaceOutcome>>,
)
    ensures
        transcript_of(events).0.next <= events.len(),
    decreases events.len(),
{
    if events.len() > 0 {
        lemma_transcript_count(events.drop_last());
    }
}

proof fn lemma_inbox_count(
    h: HistoryView,
    events: Seq<ParticipantInboxEvent<WorkspaceAction, WorkspaceOutcome>>,
)
    ensures
        inbox_of(h, events).0.next <= h.next + events.len(),
    decreases events.len(),
{
    if events.len() > 0 {
        lemma_inbox_count(h, events.drop_last());
    }
}

fn push_message(messages: &mut Vec<PromptMessage>, m: PromptMessage)
    ensures
        messages_view(final(messages)@) == messages_view(old(messages)@).push(m@),
{
    messages.push(m);
    assert(messages_view(messages@) =~= messages_view(old(messages)@).push(m@));
}

/// The transcript of a run's recorded events, and the history it leaves for
/// reading the inbox.
pub fn build_transcript(
    events: &Vec<TrajectoryEvent<WorkspaceObservation, WorkspaceAction, WorkspaceOutcome>>,
) -> (r: (Vec<PromptMessage>, PromptHistoryState))
    ensures
        (r.1.view(), messages_view(r.0@)) == transcript_of(events@),
{
    let mut state = PromptHistoryState::new();
    let mut messages: Vec<PromptMessage> = Vec::new();
    assert(events@.take(0) =~= Seq::<TrajectoryEvent<WorkspaceObservation, WorkspaceAction, WorkspaceOutcome>>::empty());
    for i in 0..events.len()
        invariant
            (state.view(), messages_view(messages@)) == transcript_of(events@.take(i as int)),
            state.view().next <= i,
    {
        let ghost t = events@.take(i + 1);
        assert(t.drop_last() =~= events@.take(i as int));
        let ghost h0 = state.view();
        let ghost m0 = messages_view(messages@);
        match &events[i] {
            TrajectoryEvent::ParticipantMessage { participant, content } => {
                push_message(&mut messages, PromptMessage::text(role_for_participant(participant), content.clone()));
            },
            TrajectoryEvent::ActionRequested { participant, action, .. } => {
                if let ParticipantId::Agent = participant {
                    let call_id = state.allocate_call_id();
                    let (name, arguments) = serialize_workspace_action(action);
                    push_message(&mut messages, PromptMessage::tool_call(call_id, name, arguments));
                }
            },
            TrajectoryEvent::ActionScheduled { participant, action_id, .. } => {
                if let ParticipantId::Agent = participant {
                    state.bind_action_id(*action_id);
                }
            },
            TrajectoryEvent::ActionCompleted { action_id, outcome, .. } => {
                state.mark_seen_action_id(*action_id);
                let call_id = state.resolve_or_allocate_action_id(*action_id);
                let (name, output) = serialize_workspace_outcome(outcome);
                push_message(&mut messages, PromptMessage::tool_result(call_id, name, output));
            },
            TrajectoryEvent::ActionFailed { action_id, error, .. } => {
                state.mark_seen_action_id(*action_id);
                let call_id = state.resolve_or_allocate_action_id(*action_id);
                push_message(
                    &mut messages,
                    PromptMessage::tool_result(call_id, "action_error".to_owned(), serialize_action_error(error)),
                );
            },
            _ => {},
        }
        assert(messages_view(messages@) =~= m0 + transcript_step(h0, events@[i as int]).1);
    }
    assert(events@.take(events@.len() as int) =~= events@);
    (messages, state)
}

/// The prompt messages of the inbox, read after the transcript's history.
pub fn build_inbox(
    events: &Vec<ParticipantInboxEvent<WorkspaceAction, WorkspaceOutcome>>,
    state: &mut PromptHistoryState,
) -> (r: Vec<PromptMessage>)
    requires
        old(state).view().next + events@.len() <= usize::MAX,
    ensures
        (final(state).view(), messages_view(r@)) == inbox_of(old(state).view(), events@),
{
    let ghost h_start = state.view();
    let mut messages: Vec<PromptMessage> = Vec::new();
    assert(events@.take(0) =~= Seq::<ParticipantInboxEvent<WorkspaceAction, WorkspaceOutcome>>::empty());
    for i in 0..events.len()
        invariant
            h_start.next + events@.len() <= usize::MAX,
            (state.view(), messages_view(messages@)) == inbox_of(h_start, events@.take(i as int)),
            state.view().next <= h_start.next + i,
    {
        let ghost t = events@.take(i + 1);
        assert(t.drop_last() =~= events@.take(i as int));
        let ghost h0 = state.view();
        let ghost m0 = messages_view(messages@);
        match &events[i] {
            ParticipantInboxEvent::Message { from, content } => {
                push_message(&mut messages, PromptMessage::text(role_for_participant(from), content.clone()));
            },
            ParticipantInboxEvent::ActionScheduled { action_id, action } => {
                if !state.has_seen_action_id(*action_id) {
                    let call_id = state.allocate_call_id();
                    state.record_action_id(*action_id, call_id.clone());
                    state.mark_seen_action_id(*action_id);
                    let (name, arguments) = serialize_workspace_action(action);
                    push_message(&mut messages, PromptMessage::tool_call(call_id, name, arguments));
                }
            },
            ParticipantInboxEvent::ActionCompleted { action_id, outcome } => {
                if !state.has_seen_action_id(*action_id) {
                    state.mark_seen_action_id(*action_id);
                    let call_id = state.resolve_or_allocate_action_id(*action_id);
                    let (name, output) = serialize_workspace_outcome(outcome);
                    push_message(&mut messages, PromptMessage::tool_result(call_id, name, output));
                }
            },
            ParticipantInboxEvent::ActionFailed { action_id, error } => {
                if !state.has_seen_action_id(*action_id) {
                    state.mark_seen_action_id(*action_id);
                    let call_id = state.resolve_or_allocate_action_id(*action_id);
                    push_message(
                        &mut messages,
                        PromptMessage::tool_result(call_id, "action_error".to_owned(), serialize_action_error(error)),
                    );
                }
            },
            ParticipantInboxEvent::Notification { message } => {
                push_message(&mut messages, PromptMessage::text("system".to_owned(), message.clone()));
            },
        }
        assert(messages_view(messages@) =~= m0 + inbox_step(h0, events@[i as int]).1);
    }
    assert(events@.take(events@.len() as int) =~= events@);
    messages
}

/// A skill the agent may load, as the prompt lists it.
#[derive(Debug, Clone)]
pub struct AvailableSkillPrompt {
    pub skill_name: String,
    pub description: String,
}

/// A loaded skill, as the prompt shows it.
#[derive(Debug, Clone)]
pub struct ActiveSkillPrompt {
    pub skill_name: String,
    pub instructions: String,
    pub python_stub: String,
}

/// Everything the agent's prompt is built from.
#[derive(Debug)]
pub struct PromptContext {
    pub task_id: String,
    pub work_item: Option<WorkItem>,
    pub tools: Vec<LlmToolDefinition>,
    pub available_skills: Vec<AvailableSkillPrompt>,
    pub active_skills: Vec<ActiveSkillPrompt>,
    pub inbox: Vec<PromptMessage>,
    pub transcript: Vec<PromptMessage>,
}

/// The opening of the agent's system prompt.
pub const BASE_SYSTEM_PROMPT: &'static str = "You are a helpful assistant that solves user tasks.\nWork through the task step by step, keep the user informed of what you do, and finish with a message that answers the task.\n";

/// The part of the system prompt that explains skills.
pub const SKILLS_SYSTEM_PROMPT: &'static str = "Skills are instruction packages that extend agent capabilities.\nLoad a skill with the load_skill tool before you use it, and unload it with unload_skill once it is no longer needed.\n";

/// The part of the system prompt that explains running code.
pub const CODE_GENERATION_SYSTEM_PROMPT: &'static str = "When the task needs computation or the functions of a skill, call the execute_code tool with Python source.\nThe prompt includes a user message with:\n- the task, between <task> and </task>;\n- the Python declarations of the loaded skills, between <declarations> and </declarations>.\nGive every execute_code call a short handoff_user_message that tells the user what the code is about to do.\n";

/// The lines listing the available skills: name, and when to use it (a
/// notice for a blank description).
pub open spec fn skill_lines(skills: Seq<AvailableSkillPrompt>) -> Seq<char>
    decreases skills.len(),
{
    if skills.len() == 0 {
        Seq::empty()
    } else {
        let s = skills.last();
        skill_lines(skills.drop_last()) + "- name: "@ + s.skill_name@ + "\n"@ + "  when_to_use: "@
            + if crate::text::blank(s.description@) {
            "No description provided."@
        } else {
            s.description@
        } + "\n"@
    }
}

/// The agent's system prompt: the base prompt, the skills prompt, the list
/// of available skills between `<available-skills>` tags (a notice when there
/// are none), and the code generation prompt. Loaded skills are not listed.
pub open spec fn system_prompt_text(skills: Seq<AvailableSkillPrompt>) -> Seq<char> {
    BASE_SYSTEM_PROMPT@ + "\n"@ + SKILLS_SYSTEM_PROMPT@ + "\nAvailable skills are listed below.\n"@
        + "<available-skills>\n"@ + if skills.len() == 0 {
        "no skill available\n"@
    } else {
        skill_lines(skills)
    } + "</available-skills>\n"@ + "\n"@ + CODE_GENERATION_SYSTEM_PROMPT@
}

/// The trimmed Python stubs of the loaded skills that have one.
pub open spec fn declarations(skills: Seq<ActiveSkillPrompt>) -> Seq<Seq<char>>
    decreases skills.len(),
{
    if skills.len() == 0 {
        Seq::empty()
    } else {
        let stub = crate::text::trim(skills.last().python_stub@);
        if stub.len() == 0 {
            declarations(skills.drop_last())
        } else {
            declarations(skills.drop_last()).push(stub)
        }
    }
}

/// The task message: the work item between `<task>` tags (ending in a line
/// break), then the declarations of the loaded skills in a Python block
/// between `<declarations>` tags, when there are any.
pub open spec fn task_message_text(content: Seq<char>, skills: Seq<ActiveSkillPrompt>) -> Seq<char> {
    let decls = declarations(skills);
    "<task>\n"@ + content + if content.len() > 0 && content.last() == '\n' {
        Seq::empty()
    } else {
        "\n"@
    } + "</task>\n"@ + if decls.len() == 0 {
        Seq::empty()
    } else {
        "\n<declarations>\n```python\n"@ + crate::text::join(decls, "\n\n"@) + "\n```\n</declarations>\n"@
    }
}

/// Builds an agent's prompts.
pub trait CodePromptBuilder {
    /// Everything the prompt of a turn is built from.
    fn build_context(
        &self,
        input: &ParticipantInput<WorkspaceObservation, WorkspaceAction, WorkspaceOutcome>,
    ) -> PromptContext
        requires
            input.trajectory.events@.len() + input.inbox@.len() <= usize::MAX,
    ;

    /// The system prompt.
    fn build_system_prompt(&self, context: &PromptContext) -> String;

    /// The task message, when there is a work item.
    fn build_user_task_message(&self, context: &PromptContext) -> Option<PromptMessage>;
}

/// The prompt builder the agent uses by default.
#[derive(Debug, Clone, Copy, Default)]
pub struct ProviderBackedPromptBuilder;

/// `c` is the context of a turn with input `input`: the task's id and work
/// item, the workspace's tools and skills as they are, the transcript of the
/// run's events and the inbox read after it.
pub open spec fn context_of(
    c: PromptContext,
    input: ParticipantInput<WorkspaceObservation, WorkspaceAction, WorkspaceOutcome>,
) -> bool {
    let obs = input.observation;
    let (h, ms) = transcript_of(input.trajectory.events@);
    &&& c.task_id == input.task.id
    &&& c.work_item == input.work_item
    &&& c.tools@.len() == obs.available_tools@.len()
    &&& forall|i: int|
        0 <= i < c.tools@.len() ==> {
            &&& (#[trigger] c.tools@[i]).name == obs.available_tools@[i].name
            &&& c.tools@[i].description == obs.available_tools@[i].description
            &&& doc_view(c.tools@[i].input_schema) == doc_view(obs.available_tools@[i].input_schema)
        }
    &&& c.available_skills@.len() == obs.available_skills@.len()
    &&& forall|i: int|
        0 <= i < c.available_skills@.len() ==> {
            &&& (#[trigger] c.available_skills@[i]).skill_name == obs.available_skills@[i].skill_name
            &&& c.available_skills@[i].description == obs.available_skills@[i].description
        }
    &&& c.active_skills@.len() == obs.active_skills@.len()
    &&& forall|i: int|
        0 <= i < c.active_skills@.len() ==> {
            &&& (#[trigger] c.active_skills@[i]).skill_name == obs.active_skills@[i].skill_name
            &&& c.active_skills@[i].instructions == obs.active_skills@[i].instructions
            &&& c.active_skills@[i].python_stub == obs.active_skills@[i].python_stub
        }
    &&& messages_view(c.transcript@) == ms
    &&& messages_view(c.inbox@) == inbox_of(h, input.inbox@).1
}

impl CodePromptBuilder for ProviderBackedPromptBuilder {
    fn build_context(
        &self,
        input: &ParticipantInput<WorkspaceObservation, WorkspaceAction, WorkspaceOutcome>,
    ) -> (r: PromptContext)
        ensures
            context_of(r, *input),
    {
        let (transcript, mut history_state) = build_transcript(&input.trajectory.events);
        proof {
            lemma_transcript_count(input.trajectory.events@);
        }
        let inbox = build_inbox(&input.inbox, &mut history_state);
        let obs = &input.observation;
        let mut tools: Vec<LlmToolDefinition> = Vec::new();
        for i in 0..obs.available_tools.len()
            invariant
                tools@.len() == i,
                forall|j: int|
                    0 <= j < i ==> {
                        &&& (#[trigger] tools@[j]).name == obs.available_tools@[j].name
                        &&& tools@[j].description == obs.available_tools@[j].description
                        &&& doc_view(tools@[j].input_schema) == doc_view(
                            obs.available_tools@[j].input_schema,
                        )
                    },
        {
            let t = &obs.available_tools[i];
            tools.push(
                LlmToolDefinition {
                    name: t.name.clone(),
                    description: t.description.clone(),
                    input_schema: t.input_schema.copy(),
                },
            );
        }
        let mut available_skills: Vec<AvailableSkillPrompt> = Vec::new();
        for i in 0..obs.available_skills.len()
            invariant
                available_skills@.len() == i,
                forall|j: int|
                    0 <= j < i ==> {
                        &&& (#[trigger] available_skills@[j]).skill_name
                            == obs.available_skills@[j].skill_name
                        &&& available_skills@[j].description == obs.available_skills@[j].description
                    },
        {
            let sk = &obs.available_skills[i];
            available_skills.push(
                AvailableSkillPrompt {
                    skill_name: sk.skill_name.clone(),
                    description: sk.description.clone(),
                },
            );
        }
        let mut active_skills: Vec<ActiveSkillPrompt> = Vec::new();
        for i in 0..obs.active_skills.len()
            invariant
                active_skills@.len() == i,
                forall|j: int|
                    0 <= j < i ==> {
                        &&& (#[trigger] active_skills@[j]).skill_name == obs.active_skills@[j].skill_name
                        &&& active_skills@[j].instructions == obs.active_skills@[j].instructions
                        &&& active_skills@[j].python_stub == obs.active_skills@[j].python_stub
                    },
        {
            let sk = &obs.active_skills[i];
            active_skills.push(
                ActiveSkillPrompt {
                    skill_name: sk.skill_name.clone(),
                    instructions: sk.instructions.clone(),
                    python_stub: sk.python_stub.clone(),
                },
            );
        }
        PromptContext {
            task_id: input.task.id.clone(),
            work_item: match &input.work_item {
                Some(w) => Some(w.copy()),
                None => None,
            },
            tools,
            available_skills,
            active_skills,
            inbox,
            transcript,
        }
    }

    fn build_system_prompt(&self, context: &PromptContext) -> (r: String)
        ensures
            r@ == system_prompt_text(context.available_skills@),
    {
        let mut prompt = String::new();
        string_push_str(&mut prompt, BASE_SYSTEM_PROMPT);
        string_push_str(&mut prompt, "\n");
        string_push_str(&mut prompt, SKILLS_SYSTEM_PROMPT);
        string_push_str(&mut prompt, "\nAvailable skills are listed below.\n");
        string_push_str(&mut prompt, "<available-skills>\n");
        let ghost head = prompt@;
        let skills = &context.available_skills;
        if skills.len() == 0 {
            string_push_str(&mut prompt, "no skill available\n");
        } else {
            for i in 0..skills.len()
                invariant
                    prompt@ == head + skill_lines(skills@.take(i as int)),
            {
                let ghost t = skills@.take(i + 1);
                assert(t.drop_last() =~= skills@.take(i as int));
                let skill = &skills[i];
                string_push_str(&mut prompt, "- name: ");
                string_push_str(&mut prompt, skill.skill_name.as_str());
                string_push_str(&mut prompt, "\n");
                string_push_str(&mut prompt, "  when_to_use: ");
                if crate::text::is_blank(skill.description.as_str()) {
                    string_push_str(&mut prompt, "No description provided.");
                } else {
                    string_push_str(&mut prompt, skill.description.as_str());
                }
                string_push_str(&mut prompt, "\n");
                assert(prompt@ =~= head + skill_lines(t));
            }
            assert(skills@.take(skills@.len() as int) =~= skills@);
        }
        string_push_str(&mut prompt, "</available-skills>\n");
        string_push_str(&mut prompt, "\n");
        string_push_str(&mut prompt, CODE_GENERATION_SYSTEM_PROMPT);
        assert(prompt@ =~= system_prompt_text(context.available_skills@));
        prompt
    }

    fn build_user_task_message(&self, context: &PromptContext) -> (r: Option<PromptMessage>)
        ensures
            match context.work_item {
                None => r is None,
                Some(w) => r matches Some(m) && m@ == text_view(
                    "user"@,
                    task_message_text(w.content@, context.active_skills@),
                ),
            },
    {
        let work_item = match &context.work_item {
            Some(w) => w,
            None => {
                return None;
            },
        };
        let mut content = "<task>\n".to_owned();
        string_push_str(&mut content, work_item.content.as_str());
        let wc = crate::text::chars_of(work_item.content.as_str());
        if !(wc.len() > 0 && wc[wc.len() - 1] == '\n') {
            string_push_str(&mut content, "\n");
        }
        string_push_str(&mut content, "</task>\n");
        let skills = &context.active_skills;
        let mut decls: Vec<String> = Vec::new();
        for i in 0..skills.len()
            invariant
                crate::canonical::python::texts(decls@) == declarations(skills@.take(i as int)),
        {
            let ghost t = skills@.take(i + 1);
            assert(t.drop_last() =~= skills@.take(i as int));
            let stub = crate::text::trim_string(skills[i].python_stub.as_str());
            if !stub.as_str().is_empty() {
                let ghost before = decls@;
                decls.push(stub);
                assert(crate::canonical::python::texts(decls@) =~= crate::canonical::python::texts(before).push(decls@.last()@));
            }
        }
        assert(skills@.take(skills@.len() as int) =~= skills@);
        if decls.len() > 0 {
            string_push_str(&mut content, "\n<declarations>\n```python\n");
            let joined = crate::text::join_strings(&decls, "\n\n");
            string_push_str(&mut content, joined.as_str());
            string_push_str(&mut content, "\n```\n</declarations>\n");
        }
        assert(content@ =~= task_message_text(work_item.content@, context.active_skills@));
        Some(PromptMessage::text("user".to_owned(), content))
    }
}

/// Two prompt messages are equal: the same role and content, and the same
/// tool metadata (ids and names equal, documents equal as documents).
pub open spec fn msg_eq(a: PromptMessage, b: PromptMessage) -> bool {
    &&& a.role@ == b.role@
    &&& a.content@ == b.content@
    &&& match (a.metadata, b.metadata) {
        (None, None) => true,
        (
            Some(crate::llm::types::PromptMessageMetadata::ToolCall { call_id: c1, name: n1, arguments: x1 }),
            Some(crate::llm::types::PromptMessageMetadata::ToolCall { call_id: c2, name: n2, arguments: x2 }),
        ) => c1@ == c2@ && n1@ == n2@ && crate::evals::document::doc_eq(x1, x2),
        (
            Some(crate::llm::types::PromptMessageMetadata::ToolResult { call_id: c1, name: n1, output: x1 }),
            Some(crate::llm::types::PromptMessageMetadata::ToolResult { call_id: c2, name: n2, output: x2 }),
        ) => c1@ == c2@ && n1@ == n2@ && crate::evals::document::doc_eq(x1, x2),
        _ => false,
    }
}

/// Whether two prompt messages are equal.
pub fn messages_equal(a: &PromptMessage, b: &PromptMessage) -> (r: bool)
    ensures
        r == msg_eq(*a, *b),
{
    if !crate::text::str_eq(a.role.as_str(), b.role.as_str()) || !crate::text::str_eq(
        a.content.as_str(),
        b.content.as_str(),
    ) {
        return false;
    }
    match (&a.metadata, &b.metadata) {
        (None, None) => true,
        (
            Some(crate::llm::types::PromptMessageMetadata::ToolCall { call_id: c1, name: n1, arguments: x1 }),
            Some(crate::llm::types::PromptMessageMetadata::ToolCall { call_id: c2, name: n2, arguments: x2 }),
        ) => crate::text::str_eq(c1.as_str(), c2.as_str()) && crate::text::str_eq(n1.as_str(), n2.as_str())
            && crate::evals::document::docs_equal(x1, x2),
        (
            Some(crate::llm::types::PromptMessageMetadata::ToolResult { call_id: c1, name: n1, output: x1 }),
            Some(crate::llm::types::PromptMessageMetadata::ToolResult { call_id: c2, name: n2, output: x2 }),
        ) => crate::text::str_eq(c1.as_str(), c2.as_str()) && crate::text::str_eq(n1.as_str(), n2.as_str())
            && crate::evals::document::docs_equal(x1, x2),
        _ => false,
    }
}

/// The last `k` messages of the transcript equal the first `k` of the inbox.
pub open spec fn overlaps(transcript: Seq<PromptMessage>, inbox: Seq<PromptMessage>, k: int) -> bool {
    &&& 0 <= k <= transcript.len()
    &&& k <= inbox.len()
    &&& forall|j: int|
        0 <= j < k ==> msg_eq(#[trigger] transcript[transcript.len() - k + j], inbox[j])
}

/// The longest overlap of at most `k` messages, 0 if there is none.
pub open spec fn longest_overlap(transcript: Seq<PromptMessage>, inbox: Seq<PromptMessage>, k: int) -> int
    decreases k,
{
    if k <= 0 {
        0
    } else if overlaps(transcript, inbox, k) {
        k
    } else {
        longest_overlap(transcript, inbox, k - 1)
    }
}

/// The smaller of two lengths.
pub open spec fn min_len(a: int, b: int) -> int {
    if a <= b {
        a
    } else {
        b
    }
}

/// The number of the transcript's last messages that the inbox repeats at
/// its start (the most that it repeats).
pub fn suffix_prefix_overlap(transcript: &Vec<PromptMessage>, inbox: &Vec<PromptMessage>) -> (r: usize)
    ensures
        r == longest_overlap(transcript@, inbox@, min_len(transcript@.len() as int, inbox@.len() as int)),
{
    let n = transcript.len();
    let max_overlap = if n <= inbox.len() {
        n
    } else {
        inbox.len()
    };
    let mut k = max_overlap;
    while k > 0
        invariant
            k <= max_overlap,
            max_overlap == min_len(n as int, inbox@.len() as int),
            n == transcript@.len(),
            longest_overlap(transcript@, inbox@, max_overlap as int) == longest_overlap(
                transcript@,
                inbox@,
                k as int,
            ),
        decreases k,
    {
        let mut all = true;
        let mut j: usize = 0;
        while j < k
            invariant
                j <= k <= max_overlap,
                max_overlap == min_len(n as int, inbox@.len() as int),
                n == transcript@.len(),
                all == forall|t: int| 0 <= t < j ==> msg_eq(transcript@[n - k + t], inbox@[t]),
            decreases k - j,
        {
            if !messages_equal(&transcript[n - k + j], &inbox[j]) {
                all = false;
            }
            j = j + 1;
        }
        if all {
            return k;
        }
        k = k - 1;
    }
    0
}

/// The messages of a turn's prompt: the transcript, then the inbox without
/// the messages the transcript already ends with.
pub fn prompt_messages(context: &PromptContext) -> (r: Vec<PromptMessage>)
    ensures
        ({
            let k = longest_overlap(
                context.transcript@,
                context.inbox@,
                min_len(context.transcript@.len() as int, context.inbox@.len() as int),
            );
            messages_view(r@) == messages_view(context.transcript@) + messages_view(
                context.inbox@.skip(k),
            )
        }),
{
    let overlap = suffix_prefix_overlap(&context.transcript, &context.inbox);
    let mut messages: Vec<PromptMessage> = Vec::new();
    for i in 0..context.transcript.len()
        invariant
            messages_view(messages@) == messages_view(context.transcript@.take(i as int)),
    {
        push_message(&mut messages, context.transcript[i].copy());
        assert(messages_view(context.transcript@.take(i + 1)) =~= messages_view(
            context.transcript@.take(i as int),
        ).push(context.transcript@[i as int]@));
    }
    assert(context.transcript@.take(context.transcript@.len() as int) =~= context.transcript@);
    let ghost head = messages_view(messages@);
    proof {
        lemma_longest_overlap_bounds(
            context.transcript@,
            context.inbox@,
            min_len(context.transcript@.len() as int, context.inbox@.len() as int),
        );
    }
    let mut i = overlap;
    while i < context.inbox.len()
        invariant
            overlap <= i <= context.inbox@.len(),
            messages_view(messages@) == head + messages_view(
                context.inbox@.subrange(overlap as int, i as int),
            ),
        decreases context.inbox@.len() - i,
    {
        push_message(&mut messages, context.inbox[i].copy());
        assert(messages_view(context.inbox@.subrange(overlap as int, i + 1)) =~= messages_view(
            context.inbox@.subrange(overlap as int, i as int),
        ).push(context.inbox@[i as int]@));
        i = i + 1;
    }
    assert(context.inbox@.subrange(overlap as int, context.inbox@.len() as int) =~= context.inbox@.skip(
        overlap as int,
    ));
    messages
}

proof fn lemma_longest_overlap_bounds(transcript: Seq<PromptMessage>, inbox: Seq<PromptMessage>, k: int)
    requires
        k <= inbox.len(),
    ensures
        0 <= longest_overlap(transcript, inbox, k) <= inbox.len(),
    decreases k,
{
    if k > 0 && !overlaps(transcript, inbox, k) {
        lemma_longest_overlap_bounds(transcript, inbox, k - 1);
    }
}

proof fn lemma_transcript_seen_grows(
    events: Seq<TrajectoryEvent<WorkspaceObservation, WorkspaceAction, WorkspaceOutcome>>,
    n: int,
    id: ActionId,
)
    requires
        0 <= n <= events.len(),
        transcript_of(events.take(n)).0.seen.contains(id),
    ensures
        transcript_of(events).0.seen.contains(id),
    decreases events.len() - n,
{
    if n < events.len() {
        assert(events.take(n + 1).drop_last() =~= events.take(n));
        lemma_transcript_seen_grows(events, n + 1, id);
    } else {
        assert(events.take(n) =~= events);
    }
}

/// The end of an action already shown in the transcript is not shown again
/// when the inbox repeats it: once an action's completion or failure is in
/// the trajectory, the same action's completion or failure in the inbox adds
/// no message and leaves the history as it is.
pub proof fn lemma_inbox_repeats_no_shown_end(
    events: Seq<TrajectoryEvent<WorkspaceObservation, WorkspaceAction, WorkspaceOutcome>>,
    i: int,
    e: ParticipantInboxEvent<WorkspaceAction, WorkspaceOutcome>,
)
    requires
        0 <= i < events.len(),
        events[i] is ActionCompleted || events[i] is ActionFailed,
        match e {
            ParticipantInboxEvent::ActionCompleted { action_id, .. } => match events[i] {
                TrajectoryEvent::ActionCompleted { action_id: a, .. } => a == action_id,
                TrajectoryEvent::ActionFailed { action_id: a, .. } => a == action_id,
                _ => false,
            },
            ParticipantInboxEvent::ActionFailed { action_id, .. } => match events[i] {
                TrajectoryEvent::ActionCompleted { action_id: a, .. } => a == action_id,
                TrajectoryEvent::ActionFailed { action_id: a, .. } => a == action_id,
                _ => false,
            },
            _ => false,
        },
    ensures
        inbox_step(transcript_of(events).0, e).0 == transcript_of(events).0,
        inbox_step(transcript_of(events).0, e).1.len() == 0,
{
    let id = match events[i] {
        TrajectoryEvent::ActionCompleted { action_id, .. } => action_id,
        TrajectoryEvent::ActionFailed { action_id, .. } => action_id,
        _ => arbitrary(),
    };
    assert(events.take(i + 1).drop_last() =~= events.take(i));
    assert(events.take(i + 1).last() == events[i]);
    assert(transcript_of(events.take(i + 1)).0.seen.contains(id));
    lemma_transcript_seen_grows(events, i + 1, id);
}

} // verus!
