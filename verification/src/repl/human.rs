//! The person at the console as a participant: what they type is gathered
//! until they commit it, and becomes their message for the turn.
use vstd::prelude::*;

use crate::orchestrator::types::ParticipantDecision;
use crate::repl::transport::InboundTransportEvent;
use crate::text::{str_eq, string_push_str, trim, trim_string};

verus! {

/// The text typed so far in the current input.
pub struct HumanInput {
    typed: String,
}

impl View for HumanInput {
    type V = Seq<char>;

    closed spec fn view(&self) -> Seq<char> {
        self.typed@
    }
}

impl HumanInput {
    /// Nothing typed yet.
    pub fn new() -> (r: Self)
        ensures
            r@ == Seq::<char>::empty(),
    {
        HumanInput { typed: String::new() }
    }

    /// Takes the next console event, or `None` when the console is gone.
    /// Starting an input clears what was typed and typing adds to it; both
    /// leave the turn open. Committing ends the turn with the trimmed text
    /// as the message, or with the end of the session for `/exit`; a
    /// shutdown or a closed console ends the session.
    pub fn on_event<A>(&mut self, event: Option<InboundTransportEvent>) -> (r: Option<
        ParticipantDecision<A>,
    >)
        ensures
            match event {
                Some(InboundTransportEvent::InputStarted) => r is None && final(self)@ == Seq::<
                    char,
                >::empty(),
                Some(InboundTransportEvent::InputDelta(d)) => r is None && final(self)@ == old(
                    self,
                )@ + d@,
                Some(InboundTransportEvent::InputCommitted) => if trim(old(self)@) == "/exit"@ {
                    r == Some(ParticipantDecision::<A>::Finish)
                } else {
                    r matches Some(ParticipantDecision::FinalMessage { content }) && content@ == trim(
                        old(self)@,
                    )
                },
                _ => r == Some(ParticipantDecision::<A>::Finish),
            },
    {
        match event {
            Some(InboundTransportEvent::InputStarted) => {
                self.typed = String::new();
                None
            },
            Some(InboundTransportEvent::InputDelta(delta)) => {
                string_push_str(&mut self.typed, delta.as_str());
                None
            },
            Some(InboundTransportEvent::InputCommitted) => {
                let message = trim_string(self.typed.as_str());
                if str_eq(message.as_str(), "/exit") {
                    Some(ParticipantDecision::Finish)
                } else {
                    Some(ParticipantDecision::FinalMessage { content: message })
                }
            },
            Some(InboundTransportEvent::Shutdown) | None => Some(ParticipantDecision::Finish),
        }
    }
}

} // verus!
