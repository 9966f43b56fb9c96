//! Which console events a participant's output becomes, and which session
//! events a typed line becomes.
use vstd::prelude::*;

use crate::agents::workspace::{WorkspaceAction, WorkspaceOutcome};
use crate::orchestrator::types::{ActionError, ParticipantId};
use crate::repl::transport::{InboundTransportEvent, OutboundTransportEvent};
use crate::text::{chars_of, has_prefix, str_eq, str_starts_with, string_push, string_push_str, trim};

verus! {

/// A status that only says that code is being worked on.
pub open spec fn execution_status(s: Seq<char>) -> bool {
    ||| s == "preparing code execution"@
    ||| s == "executing code"@
    ||| s == "code execution submitted"@
    ||| s == "running code"@
    ||| s == "waiting for skill action"@
    ||| s == "resuming code execution"@
    ||| has_prefix(s, "skill action claimed by "@)
    ||| has_prefix(s, "skill action failed: "@)
}

/// Whether a status only says that code is being worked on.
pub fn is_execution_status(status: &str) -> (r: bool)
    ensures
        r == execution_status(status@),
{
    str_eq(status, "preparing code execution") || str_eq(status, "executing code") || str_eq(
        status,
        "code execution submitted",
    ) || str_eq(status, "running code") || str_eq(status, "waiting for skill action") || str_eq(
        status,
        "resuming code execution",
    ) || str_starts_with(status, "skill action claimed by ") || str_starts_with(
        status,
        "skill action failed: ",
    )
}

/// The status the console shows: `working` for code execution, else the
/// status itself.
pub open spec fn shown_status(s: Seq<char>) -> Seq<char> {
    if execution_status(s) {
        "working"@
    } else {
        s
    }
}

/// The status the console shows.
pub fn display_status(status: &str) -> (r: String)
    ensures
        r@ == shown_status(status@),
{
    if is_execution_status(status) {
        "working".to_owned()
    } else {
        status.to_owned()
    }
}

/// What the console shows of an action when it is planned: skill loads and
/// unloads; code runs are not shown.
pub open spec fn planned_text(a: WorkspaceAction) -> Option<Seq<char>> {
    match a {
        WorkspaceAction::LoadSkill { skill_name } => Some("load skill "@ + skill_name@),
        WorkspaceAction::UnloadSkill { skill_name } => Some("unload skill "@ + skill_name@),
        WorkspaceAction::ExecuteCode { .. } => None,
    }
}

/// What the console shows of an action that completed: skill loads and
/// unloads with a matching outcome; nothing for code runs or mismatches.
pub open spec fn completed_text(a: WorkspaceAction, o: WorkspaceOutcome) -> Option<Seq<char>> {
    match (a, o) {
        (WorkspaceAction::LoadSkill { skill_name }, WorkspaceOutcome::SkillLoaded { .. }) => Some(
            "skill loaded: "@ + skill_name@,
        ),
        (WorkspaceAction::UnloadSkill { skill_name }, WorkspaceOutcome::SkillUnloaded { .. }) => Some(
            "skill unloaded: "@ + skill_name@,
        ),
        _ => None,
    }
}

/// What the console shows of an action that failed.
pub open spec fn failed_text(a: WorkspaceAction, e: ActionError) -> Seq<char> {
    match a {
        WorkspaceAction::ExecuteCode { .. } => "request failed: "@ + e.user_message@,
        WorkspaceAction::LoadSkill { skill_name } => "failed to load skill "@ + skill_name@ + ": "@
            + e.user_message@,
        WorkspaceAction::UnloadSkill { skill_name } => "failed to unload skill "@ + skill_name@
            + ": "@ + e.user_message@,
    }
}

/// Turns a participant's output into console events; tool events are shown
/// only when asked for.
#[derive(Debug, Clone, Copy)]
pub struct TransportOutputPolicy {
    pub show_tool_events: bool,
}

impl TransportOutputPolicy {
    /// A status update, as the console shows it.
    pub fn status_update(&self, participant: &ParticipantId, status: &str) -> (r: OutboundTransportEvent)
        ensures
            r matches OutboundTransportEvent::Status { participant: p, text } && p == *participant
                && text@ == shown_status(status@),
    {
        OutboundTransportEvent::Status { participant: participant.copy(), text: display_status(status) }
    }

    /// The start of a tool call, when tool events are shown.
    pub fn tool_call_start(&self, participant: &ParticipantId, tool_name: &str) -> (r: Option<
        OutboundTransportEvent,
    >)
        ensures
            !self.show_tool_events ==> r is None,
            self.show_tool_events ==> (r matches Some(OutboundTransportEvent::ToolCallStarted { participant: p, tool_name: t })
                && p == *participant && t@ == tool_name@),
    {
        if !self.show_tool_events {
            return None;
        }
        Some(
            OutboundTransportEvent::ToolCallStarted {
                participant: participant.copy(),
                tool_name: tool_name.to_owned(),
            },
        )
    }

    /// A piece of a tool call's arguments, when tool events are shown.
    pub fn tool_call_delta(&self, participant: &ParticipantId, tool_name: &str, delta: &str) -> (r:
        Option<OutboundTransportEvent>)
        ensures
            !self.show_tool_events ==> r is None,
            self.show_tool_events ==> (r matches Some(OutboundTransportEvent::ToolCallDelta { participant: p, tool_name: t, delta: d })
                && p == *participant && t@ == tool_name@ && d@ == delta@),
    {
        if !self.show_tool_events {
            return None;
        }
        Some(
            OutboundTransportEvent::ToolCallDelta {
                participant: participant.copy(),
                tool_name: tool_name.to_owned(),
                delta: delta.to_owned(),
            },
        )
    }

    /// The end of a tool call, when tool events are shown.
    pub fn tool_call_end(&self, participant: &ParticipantId, tool_name: &str) -> (r: Option<
        OutboundTransportEvent,
    >)
        ensures
            !self.show_tool_events ==> r is None,
            self.show_tool_events ==> (r matches Some(OutboundTransportEvent::ToolCallCompleted { participant: p, tool_name: t })
                && p == *participant && t@ == tool_name@),
    {
        if !self.show_tool_events {
            return None;
        }
        Some(
            OutboundTransportEvent::ToolCallCompleted {
                participant: participant.copy(),
                tool_name: tool_name.to_owned(),
            },
        )
    }

    /// A planned action, as the console shows it.
    pub fn action_planned(&self, participant: &ParticipantId, action: &WorkspaceAction) -> (r: Option<
        OutboundTransportEvent,
    >)
        ensures
            match planned_text(*action) {
                None => r is None,
                Some(t) => r matches Some(OutboundTransportEvent::ActionPlanned { participant: p, action: a })
                    && p == *participant && a@ == t,
            },
    {
        let text = match action {
            WorkspaceAction::LoadSkill { skill_name } => {
                let mut s = "load skill ".to_owned();
                string_push_str(&mut s, skill_name.as_str());
                s
            },
            WorkspaceAction::UnloadSkill { skill_name } => {
                let mut s = "unload skill ".to_owned();
                string_push_str(&mut s, skill_name.as_str());
                s
            },
            WorkspaceAction::ExecuteCode { .. } => {
                return None;
            },
        };
        Some(OutboundTransportEvent::ActionPlanned { participant: participant.copy(), action: text })
    }

    /// A completed action, as the console shows it.
    pub fn action_completed(
        &self,
        participant: &ParticipantId,
        action: &WorkspaceAction,
        outcome: &WorkspaceOutcome,
    ) -> (r: Option<OutboundTransportEvent>)
        ensures
            match completed_text(*action, *outcome) {
                None => r is None,
                Some(t) => r matches Some(OutboundTransportEvent::ActionCompleted { participant: p, status })
                    && p == *participant && status@ == t,
            },
    {
        let text = match (action, outcome) {
            (WorkspaceAction::LoadSkill { skill_name }, WorkspaceOutcome::SkillLoaded { .. }) => {
                let mut s = "skill loaded: ".to_owned();
                string_push_str(&mut s, skill_name.as_str());
                s
            },
            (WorkspaceAction::UnloadSkill { skill_name }, WorkspaceOutcome::SkillUnloaded { .. }) => {
                let mut s = "skill unloaded: ".to_owned();
                string_push_str(&mut s, skill_name.as_str());
                s
            },
            _ => {
                return None;
            },
        };
        Some(OutboundTransportEvent::ActionCompleted { participant: participant.copy(), status: text })
    }

    /// A failed action, as the console shows it.
    pub fn action_failed(
        &self,
        participant: &ParticipantId,
        action: &WorkspaceAction,
        error: &ActionError,
    ) -> (r: OutboundTransportEvent)
        ensures
            r matches OutboundTransportEvent::ActionFailed { participant: p, status } && p
                == *participant && status@ == failed_text(*action, *error),
    {
        let status = match action {
            WorkspaceAction::ExecuteCode { .. } => {
                let mut s = "request failed: ".to_owned();
                string_push_str(&mut s, error.user_message.as_str());
                s
            },
            WorkspaceAction::LoadSkill { skill_name } => {
                let mut s = "failed to load skill ".to_owned();
                string_push_str(&mut s, skill_name.as_str());
                string_push_str(&mut s, ": ");
                string_push_str(&mut s, error.user_message.as_str());
                s
            },
            WorkspaceAction::UnloadSkill { skill_name } => {
                let mut s = "failed to unload skill ".to_owned();
                string_push_str(&mut s, skill_name.as_str());
                string_push_str(&mut s, ": ");
                string_push_str(&mut s, error.user_message.as_str());
                s
            },
        };
        OutboundTransportEvent::ActionFailed { participant: participant.copy(), status }
    }
}

/// The session events a typed line becomes: the start of input, each
/// character, and the commit; and whether the line ends the session (it is
/// `/exit`, trimmed).
pub fn console_line_events(line: &str) -> (r: (Vec<InboundTransportEvent>, bool))
    ensures
        r.0@.len() == line@.len() + 2,
        r.0@[0] == InboundTransportEvent::InputStarted,
        forall|i: int|
            0 <= i < line@.len() ==> ((#[trigger] r.0@[i + 1]) matches InboundTransportEvent::InputDelta(d)
                && d@ == seq![line@[i]]),
        r.0@[line@.len() + 1int] == InboundTransportEvent::InputCommitted,
        r.1 == (trim(line@) == "/exit"@),
{
    let cs = chars_of(line);
    let mut events: Vec<InboundTransportEvent> = vec![InboundTransportEvent::InputStarted];
    for i in 0..cs.len()
        invariant
            cs@ == line@,
            events@.len() == i + 1,
            events@[0] == InboundTransportEvent::InputStarted,
            forall|j: int|
                0 <= j < i ==> ((#[trigger] events@[j + 1]) matches InboundTransportEvent::InputDelta(d)
                    && d@ == seq![line@[j]]),
    {
        let mut d = String::new();
        string_push(&mut d, cs[i]);
        assert(d@ =~= seq![cs@[i as int]]);
        events.push(InboundTransportEvent::InputDelta(d));
        assert(events@[i + 1] matches InboundTransportEvent::InputDelta(dd) && dd@ == seq![line@[i as int]]);
    }
    events.push(InboundTransportEvent::InputCommitted);
    let trimmed = crate::text::trim_string(line);
    let exit = str_eq(trimmed.as_str(), "/exit");
    (events, exit)
}

} // verus!
