//! The evaluation user: a scripted one that speaks once, or a simulated one
//! that a model plays; and how the run ends for each.
use vstd::prelude::*;

use crate::evals::spec::{EvalUserMode, EvalUserSpec};
use crate::llm::types::{LlmRequest, PromptMessage};
use crate::orchestrator::types::{
    ParticipantDecision, ParticipantId, ParticipantInboxEvent, ParticipantInput, TerminationCondition,
    TrajectoryEvent,
};
use crate::text::{blank, is_blank, replace_all, replace_str, string_push_str, trim, trim_string};

verus! {

/// A user that sends one message and is then done.
#[derive(Debug, Clone)]
pub struct ScriptedUserParticipant {
    initial_message: String,
}

/// The scripted user's message: the initial message, followed by what the
/// user knows (trimmed) under a heading, unless that is blank.
pub open spec fn scripted_message(initial_message: Seq<char>, known_info: Seq<char>) -> Seq<char> {
    if blank(known_info) {
        initial_message
    } else {
        initial_message + "\n\nKnown information:\n"@ + trim(known_info)
    }
}

/// Whether the user has spoken: in the trajectory or in the inbox.
pub open spec fn user_spoke<O, A, U>(input: ParticipantInput<O, A, U>) -> bool {
    ||| exists|i: int|
        0 <= i < input.trajectory.events@.len() && (#[trigger] input.trajectory.events@[i]) matches TrajectoryEvent::ParticipantMessage {
            participant: ParticipantId::User,
            ..
        }
    ||| exists|i: int|
        0 <= i < input.inbox@.len() && (#[trigger] input.inbox@[i]) matches ParticipantInboxEvent::Message {
            from: ParticipantId::User,
            ..
        }
}

/// Whether the user has spoken, in the trajectory or in the inbox.
pub fn has_user_message<O, A, U>(input: &ParticipantInput<O, A, U>) -> (r: bool)
    ensures
        r == user_spoke(*input),
{
    for i in 0..input.trajectory.events.len()
        invariant
            forall|j: int|
                0 <= j < i ==> !((#[trigger] input.trajectory.events@[j]) matches TrajectoryEvent::ParticipantMessage {
                    participant: ParticipantId::User,
                    ..
                }),
    {
        match &input.trajectory.events[i] {
            TrajectoryEvent::ParticipantMessage { participant: ParticipantId::User, .. } => {
                return true;
            },
            _ => {},
        }
    }
    for i in 0..input.inbox.len()
        invariant
            forall|j: int|
                0 <= j < input.trajectory.events@.len() ==> !((#[trigger] input.trajectory.events@[j]) matches TrajectoryEvent::ParticipantMessage {
                    participant: ParticipantId::User,
                    ..
                }),
            forall|j: int|
                0 <= j < i ==> !((#[trigger] input.inbox@[j]) matches ParticipantInboxEvent::Message {
                    from: ParticipantId::User,
                    ..
                }),
    {
        match &input.inbox[i] {
            ParticipantInboxEvent::Message { from: ParticipantId::User, .. } => {
                return true;
            },
            _ => {},
        }
    }
    false
}

impl ScriptedUserParticipant {
    /// The scripted user of a scripted user spec.
    pub fn from_spec(spec: &EvalUserSpec) -> (r: Self)
        requires
            *spec is Scripted,
        ensures
            match *spec {
                EvalUserSpec::Scripted { known_info, initial_message, .. } => r.message()
                    == scripted_message(initial_message@, known_info@),
                _ => false,
            },
    {
        match spec {
            EvalUserSpec::Scripted { known_info, initial_message, .. } => {
                if is_blank(known_info.as_str()) {
                    ScriptedUserParticipant { initial_message: initial_message.clone() }
                } else {
                    let mut m = initial_message.clone();
                    string_push_str(&mut m, "\n\nKnown information:\n");
                    let t = trim_string(known_info.as_str());
                    string_push_str(&mut m, t.as_str());
                    assert(m@ =~= scripted_message(initial_message@, known_info@));
                    ScriptedUserParticipant { initial_message: m }
                }
            },
            _ => ScriptedUserParticipant { initial_message: String::new() },
        }
    }

    /// The message this user sends.
    pub closed spec fn message(self) -> Seq<char> {
        self.initial_message@
    }

    /// The message this user sends.
    pub fn initial_message(&self) -> (r: &str)
        ensures
            r@ == self.message(),
    {
        self.initial_message.as_str()
    }

    /// This user's turn: done once the user has spoken, else its message,
    /// which completes its loop.
    pub fn respond<O, A, U>(&self, input: &ParticipantInput<O, A, U>) -> (r: ParticipantDecision<A>)
        ensures
            user_spoke(*input) ==> r is Finish,
            !user_spoke(*input) ==> (r matches ParticipantDecision::FinalMessage { content } && content@
                == self.message()),
    {
        if has_user_message(input) {
            ParticipantDecision::Finish
        } else {
            ParticipantDecision::FinalMessage { content: self.initial_message.clone() }
        }
    }
}

/// A user played by a language model.
#[derive(Debug, Clone)]
pub struct SimulatedUserParticipant<P> {
    pub provider: P,
    pub spec: EvalUserSpec,
}

impl<P> SimulatedUserParticipant<P> {
    /// A simulated user with a model provider and its spec.
    pub fn new(provider: P, spec: EvalUserSpec) -> (r: Self)
        ensures
            r.provider == provider,
            r.spec == spec,
    {
        SimulatedUserParticipant { provider, spec }
    }
}

/// The instructions the model playing the user gets.
pub open spec fn simulated_user_system_prompt() -> Seq<char> {
    "You are playing the user in a conversation with an AI assistant. Stay in character, share only what the user would know, and reply with FINISH once the task is done or cannot go further."@
}

/// The template of the context message for the model playing the user.
pub open spec fn simulated_user_template() -> Seq<char> {
    "Simulated user context\n\ntask: {{task}}\nreason: {{reason}}\nknown_info: {{known_info}}\nunknown_info: {{unknown_info}}\n\n{{conversation_stage}}"@
}

/// `v`, or `none` when it is empty.
pub open spec fn or_none(v: Seq<char>) -> Seq<char> {
    if v.len() == 0 {
        "none"@
    } else {
        v
    }
}

/// What the model playing the user is asked to do at this stage.
pub open spec fn conversation_stage(user_already_spoke: bool) -> Seq<char> {
    if user_already_spoke {
        "Continue the conversation as the user. Respond only if the assistant's latest message calls for a user reply."@
    } else {
        "Write the first user message that starts the conversation."@
    }
}

/// The context for the model playing the user: the template with its task,
/// reason, known and unknown information (trimmed, `none` when empty) and the
/// stage of the conversation filled in, in that order.
pub open spec fn simulated_context(
    task: Seq<char>,
    reason: Seq<char>,
    known_info: Seq<char>,
    unknown_info: Seq<char>,
    user_already_spoke: bool,
) -> Seq<char> {
    replace_all(
        replace_all(
            replace_all(
                replace_all(
                    replace_all(simulated_user_template(), "{{task}}"@, trim(task)),
                    "{{reason}}"@,
                    or_none(trim(reason)),
                ),
                "{{known_info}}"@,
                or_none(trim(known_info)),
            ),
            "{{unknown_info}}"@,
            or_none(trim(unknown_info)),
        ),
        "{{conversation_stage}}"@,
        conversation_stage(user_already_spoke),
    )
}

fn trimmed_or_none(v: &str) -> (r: String)
    ensures
        r@ == or_none(trim(v@)),
{
    let t = trim_string(v);
    if t.as_str().is_empty() {
        "none".to_owned()
    } else {
        t
    }
}

/// The context message for the model playing a simulated user.
pub fn simulated_user_context(spec: &EvalUserSpec, user_already_spoke: bool) -> (r: String)
    requires
        *spec is Simulated,
    ensures
        match *spec {
            EvalUserSpec::Simulated { task, reason, known_info, unknown_info } => r@
                == simulated_context(
                task@,
                reason@,
                known_info@,
                unknown_info@,
                user_already_spoke,
            ),
            _ => false,
        },
{
    match spec {
        EvalUserSpec::Simulated { task, reason, known_info, unknown_info } => {
            proof {
                reveal_strlit("{{task}}");
                reveal_strlit("{{reason}}");
                reveal_strlit("{{known_info}}");
                reveal_strlit("{{unknown_info}}");
                reveal_strlit("{{conversation_stage}}");
            }
            let template = "Simulated user context\n\ntask: {{task}}\nreason: {{reason}}\nknown_info: {{known_info}}\nunknown_info: {{unknown_info}}\n\n{{conversation_stage}}";
            let t = trim_string(task.as_str());
            let a = replace_str(template, "{{task}}", t.as_str());
            let r = trimmed_or_none(reason.as_str());
            let b = replace_str(a.as_str(), "{{reason}}", r.as_str());
            let k = trimmed_or_none(known_info.as_str());
            let c = replace_str(b.as_str(), "{{known_info}}", k.as_str());
            let u = trimmed_or_none(unknown_info.as_str());
            let d = replace_str(c.as_str(), "{{unknown_info}}", u.as_str());
            let stage = if user_already_spoke {
                "Continue the conversation as the user. Respond only if the assistant's latest message calls for a user reply."
            } else {
                "Write the first user message that starts the conversation."
            };
            replace_str(d.as_str(), "{{conversation_stage}}", stage)
        },
        _ => String::new(),
    }
}

/// The role a participant's messages take for the model playing the user.
pub open spec fn role_of(p: ParticipantId) -> Seq<char> {
    match p {
        ParticipantId::Agent => "assistant"@,
        ParticipantId::User => "user"@,
        ParticipantId::Custom(name) => name@,
    }
}

/// The role a participant's messages take for the model playing the user.
pub fn role_for_participant(p: &ParticipantId) -> (r: String)
    ensures
        r@ == role_of(*p),
{
    match p {
        ParticipantId::Agent => "assistant".to_owned(),
        ParticipantId::User => "user".to_owned(),
        ParticipantId::Custom(name) => name.clone(),
    }
}

/// Whether a participant other than the user has written to the inbox.
pub open spec fn other_spoke_in_inbox<O, A, U>(input: ParticipantInput<O, A, U>) -> bool {
    exists|i: int|
        0 <= i < input.inbox@.len() && ((#[trigger] input.inbox@[i]) matches ParticipantInboxEvent::Message {
            from,
            ..
        } && !(from is User))
}

/// Whether a participant other than the user has written to the inbox.
pub fn has_new_non_user_inbox_message<O, A, U>(input: &ParticipantInput<O, A, U>) -> (r: bool)
    ensures
        r == other_spoke_in_inbox(*input),
{
    for i in 0..input.inbox.len()
        invariant
            forall|j: int|
                0 <= j < i ==> !((#[trigger] input.inbox@[j]) matches ParticipantInboxEvent::Message {
                    from,
                    ..
                } && !(from is User)),
    {
        match &input.inbox[i] {
            ParticipantInboxEvent::Message { from, .. } => {
                match from {
                    ParticipantId::User => {},
                    _ => {
                        return true;
                    },
                }
            },
            _ => {},
        }
    }
    false
}

/// What a simulated user does on its turn, before any model is asked.
pub enum SimulatedTurn {
    /// It has spoken and nobody has answered since: it waits.
    Wait,
    /// The model playing it is asked with this request.
    Ask(LlmRequest),
}

impl<P> SimulatedUserParticipant<P> {
    /// Plans this user's turn: it waits when it has spoken and no one else
    /// has written since; otherwise it asks the model, with its context and
    /// the conversation so far.
    pub fn plan_turn<O, A, U>(&self, input: &ParticipantInput<O, A, U>) -> (r: SimulatedTurn)
        requires
            self.spec is Simulated,
        ensures
            (user_spoke(*input) && !other_spoke_in_inbox(*input)) <==> r is Wait,
            r matches SimulatedTurn::Ask(req) ==> req.system_prompt@ == simulated_user_system_prompt()
                && req.tools@.len() == 0 && req.messages@.len() >= 1 && req.messages@[0].role@
                == "developer"@ && req.messages@[0].metadata is None && match self.spec {
                EvalUserSpec::Simulated { task, reason, known_info, unknown_info } =>
                    req.messages@[0].content@ == simulated_context(
                    task@,
                    reason@,
                    known_info@,
                    unknown_info@,
                    user_spoke(*input),
                ),
                _ => false,
            },
    {
        let spoke = has_user_message(input);
        if spoke && !has_new_non_user_inbox_message(input) {
            return SimulatedTurn::Wait;
        }
        let messages = build_simulated_user_messages(&self.spec, input, spoke);
        SimulatedTurn::Ask(
            LlmRequest {
                system_prompt: "You are playing the user in a conversation with an AI assistant. Stay in character, share only what the user would know, and reply with FINISH once the task is done or cannot go further.".to_owned(),
                messages,
                tools: Vec::new(),
            },
        )
    }
}

/// The conversation for the model playing the user: its context, then the
/// messages of the trajectory, then those in the inbox, each under the role
/// of its sender.
pub fn build_simulated_user_messages<O, A, U>(
    spec: &EvalUserSpec,
    input: &ParticipantInput<O, A, U>,
    user_already_spoke: bool,
) -> (r: Vec<PromptMessage>)
    requires
        *spec is Simulated,
    ensures
        r@.len() >= 1,
        r@[0].role@ == "developer"@,
        r@[0].metadata is None,
        match *spec {
            EvalUserSpec::Simulated { task, reason, known_info, unknown_info } => r@[0].content@
                == simulated_context(
                task@,
                reason@,
                known_info@,
                unknown_info@,
                user_already_spoke,
            ),
            _ => false,
        },
        forall|i: int| 1 <= i < r@.len() ==> (#[trigger] r@[i]).metadata is None,
{
    let mut messages: Vec<PromptMessage> = Vec::new();
    messages.push(
        PromptMessage {
            role: "developer".to_owned(),
            content: simulated_user_context(spec, user_already_spoke),
            metadata: None,
        },
    );
    for i in 0..input.trajectory.events.len()
        invariant
            messages@.len() >= 1,
            messages@[0].role@ == "developer"@,
            messages@[0].metadata is None,
            match *spec {
                EvalUserSpec::Simulated { task, reason, known_info, unknown_info } =>
                    messages@[0].content@ == simulated_context(
                    task@,
                    reason@,
                    known_info@,
                    unknown_info@,
                    user_already_spoke,
                ),
                _ => false,
            },
            forall|j: int| 1 <= j < messages@.len() ==> (#[trigger] messages@[j]).metadata is None,
    {
        match &input.trajectory.events[i] {
            TrajectoryEvent::ParticipantMessage { participant, content } => {
                messages.push(
                    PromptMessage {
                        role: role_for_participant(participant),
                        content: content.clone(),
                        metadata: None,
                    },
                );
            },
            _ => {},
        }
    }
    for i in 0..input.inbox.len()
        invariant
            messages@.len() >= 1,
            messages@[0].role@ == "developer"@,
            messages@[0].metadata is None,
            match *spec {
                EvalUserSpec::Simulated { task, reason, known_info, unknown_info } =>
                    messages@[0].content@ == simulated_context(
                    task@,
                    reason@,
                    known_info@,
                    unknown_info@,
                    user_already_spoke,
                ),
                _ => false,
            },
            forall|j: int| 1 <= j < messages@.len() ==> (#[trigger] messages@[j]).metadata is None,
    {
        match &input.inbox[i] {
            ParticipantInboxEvent::Message { from, content } => {
                messages.push(
                    PromptMessage {
                        role: role_for_participant(from),
                        content: content.clone(),
                        metadata: None,
                    },
                );
            },
            _ => {},
        }
    }
    messages
}

/// What the simulated user does with the model's reply: done when the reply,
/// trimmed, is `FINISH` or empty; otherwise the trimmed reply completes its
/// loop.
pub fn simulated_reply<A>(content: &str) -> (r: ParticipantDecision<A>)
    ensures
        (trim(content@) == "FINISH"@ || trim(content@).len() == 0) ==> r is Finish,
        !(trim(content@) == "FINISH"@ || trim(content@).len() == 0) ==> (r matches ParticipantDecision::FinalMessage {
            content: c,
        } && c@ == trim(content@)),
{
    let t = trim_string(content);
    if crate::text::str_eq(t.as_str(), "FINISH") || t.as_str().is_empty() {
        ParticipantDecision::Finish
    } else {
        ParticipantDecision::FinalMessage { content: t }
    }
}

/// The evaluation's user.
pub enum EvalUserParticipant<P> {
    Scripted(ScriptedUserParticipant),
    Simulated(SimulatedUserParticipant<P>),
}

impl<P> EvalUserParticipant<P> {
    /// The user a spec describes: scripted or simulated.
    pub fn from_spec(provider: P, spec: EvalUserSpec) -> (r: Self)
        ensures
            spec matches EvalUserSpec::Scripted { known_info, initial_message, .. } ==> (r matches EvalUserParticipant::Scripted(p)
                && p.message() == scripted_message(initial_message@, known_info@)),
            spec is Simulated ==> (r matches EvalUserParticipant::Simulated(s) && s.spec == spec
                && s.provider == provider),
    {
        match spec.mode() {
            EvalUserMode::Scripted => EvalUserParticipant::Scripted(
                ScriptedUserParticipant::from_spec(&spec),
            ),
            EvalUserMode::Simulated => EvalUserParticipant::Simulated(
                SimulatedUserParticipant::new(provider, spec),
            ),
        }
    }

    /// The participant an evaluation user is: always the user.
    pub fn id(&self) -> (r: ParticipantId)
        ensures
            r == ParticipantId::User,
    {
        ParticipantId::User
    }
}

/// How a run ends for this user: with a simulated user, when any participant
/// is done; with a scripted one, when the agent completes its loop.
pub fn termination_condition_for_user(user: &EvalUserSpec) -> (r: TerminationCondition)
    ensures
        *user is Simulated ==> r == TerminationCondition::AnyParticipantFinished,
        *user is Scripted ==> (r matches TerminationCondition::AnyOfParticipantsCompletedLoop(ps)
            && ps@ == seq![ParticipantId::Agent]),
{
    if user.is_multi_turn() {
        TerminationCondition::AnyParticipantFinished
    } else {
        let mut ps: Vec<ParticipantId> = Vec::new();
        ps.push(ParticipantId::Agent);
        assert(ps@ =~= seq![ParticipantId::Agent]);
        TerminationCondition::AnyOfParticipantsCompletedLoop(ps)
    }
}

} // verus!
