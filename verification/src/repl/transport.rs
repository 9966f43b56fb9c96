//! The events between the console and a running session.
use vstd::prelude::*;

use crate::orchestrator::types::ParticipantId;

verus! {

/// An event from the console to the session.
#[derive(Debug, Clone, PartialEq, Eq)]
pub enum InboundTransportEvent {
    InputStarted,
    InputDelta(String),
    InputCommitted,
    Shutdown,
}

/// An event from the session to the console.
#[derive(Debug, Clone, PartialEq, Eq)]
pub enum OutboundTransportEvent {
    MessageStarted { participant: ParticipantId },
    MessageDelta { participant: ParticipantId, text: String },
    MessageCompleted { participant: ParticipantId },
    Status { participant: ParticipantId, text: String },
    ToolCallStarted { participant: ParticipantId, tool_name: String },
    ToolCallDelta { participant: ParticipantId, tool_name: String, delta: String },
    ToolCallCompleted { participant: ParticipantId, tool_name: String },
    ActionPlanned { participant: ParticipantId, action: String },
    ActionCompleted { participant: ParticipantId, status: String },
    ActionFailed { participant: ParticipantId, status: String },
}

/// How the console names a participant.
pub open spec fn label_of(p: ParticipantId) -> Seq<char> {
    match p {
        ParticipantId::Agent => "agent"@,
        ParticipantId::User => "user"@,
        ParticipantId::Custom(_) => "participant"@,
    }
}

/// How the console names a participant.
pub fn participant_label(participant: &ParticipantId) -> (r: &'static str)
    ensures
        r@ == label_of(*participant),
{
    match participant {
        ParticipantId::Agent => "agent",
        ParticipantId::User => "user",
        ParticipantId::Custom(_) => "participant",
    }
}

} // verus!
