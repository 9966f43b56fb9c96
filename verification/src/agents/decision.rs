//! How an agent's streamed reply becomes what it shows and what it decides:
//! the tool calls it understands, the status lines it reports while a call is
//! streamed, and the decision it ends its turn with.
use vstd::prelude::*;

use crate::agents::workspace::WorkspaceAction;
use crate::evals::document::{doc_field, doc_str, field_of, str_of, DocValue};
use crate::llm::types::{LlmStreamEvent, LlmToolCall};
use crate::orchestrator::types::{ActionExecution, ParticipantDecision, ParticipantError};
use crate::text::{
    chars_from, chars_of, chars_upto, find_chars, first_from, string_from_chars, string_push_str,
    trim, trimmed_chars,
};

verus! {

/// The string argument `field` of a tool call's arguments, if it has one.
pub open spec fn string_argument(args: DocValue, field: Seq<char>) -> Option<Seq<char>> {
    str_of(field_of(args, field))
}

/// The message for a tool call that lacks a string argument.
pub open spec fn missing_field_message(field: Seq<char>) -> Seq<char> {
    "tool call is missing string field '"@ + field + "'"@
}

/// The message for a tool the agent does not know.
pub open spec fn unsupported_tool_message(name: Seq<char>) -> Seq<char> {
    "unsupported tool call '"@ + name + "'"@
}

/// The string argument `field` of a tool call, or the error naming it.
pub fn required_string_argument(arguments: &DocValue, field: &str) -> (r: Result<
    String,
    ParticipantError,
>)
    ensures
        match r {
            Ok(s) => string_argument(*arguments, field@) == Some(s@),
            Err(e) => string_argument(*arguments, field@) is None && e.message@
                == missing_field_message(field@),
        },
{
    match doc_str(doc_field(arguments, field)) {
        Some(s) => Ok(s.clone()),
        None => {
            let mut m = "tool call is missing string field '".to_owned();
            string_push_str(&mut m, field);
            string_push_str(&mut m, "'");
            Err(ParticipantError::new(m))
        },
    }
}

/// `r` is the decision for tool call `call`: loading or unloading the skill
/// its `skill_name` names, at once; running its `source` in its `language`,
/// blocking the agent until it ends; an error for a missing argument or an
/// unknown tool.
pub open spec fn decides(call: LlmToolCall, r: Result<ParticipantDecision<WorkspaceAction>, ParticipantError>) -> bool {
    let args = call.arguments;
    if call.name@ == "load_skill"@ {
        match string_argument(args, "skill_name"@) {
            Some(s) => r matches Ok(ParticipantDecision::Action { message: None, action: WorkspaceAction::LoadSkill { skill_name }, execution: ActionExecution::Immediate }) && skill_name@ == s,
            None => r matches Err(e) && e.message@ == missing_field_message("skill_name"@),
        }
    } else if call.name@ == "unload_skill"@ {
        match string_argument(args, "skill_name"@) {
            Some(s) => r matches Ok(ParticipantDecision::Action { message: None, action: WorkspaceAction::UnloadSkill { skill_name }, execution: ActionExecution::Immediate }) && skill_name@ == s,
            None => r matches Err(e) && e.message@ == missing_field_message("skill_name"@),
        }
    } else if call.name@ == "execute_code"@ {
        match (string_argument(args, "language"@), string_argument(args, "source"@)) {
            (Some(l), Some(s)) => r matches Ok(ParticipantDecision::Action { message: None, action: WorkspaceAction::ExecuteCode { language, source }, execution: ActionExecution::DeferredBlocking }) && language@ == l && source@ == s,
            (None, _) => r matches Err(e) && e.message@ == missing_field_message("language"@),
            (Some(_), None) => r matches Err(e) && e.message@ == missing_field_message("source"@),
        }
    } else {
        r matches Err(e) && e.message@ == unsupported_tool_message(call.name@)
    }
}

/// The decision a tool call of the model stands for.
pub fn map_tool_call_to_decision(tool_call: LlmToolCall) -> (r: Result<
    ParticipantDecision<WorkspaceAction>,
    ParticipantError,
>)
    ensures
        decides(tool_call, r),
{
    let name = tool_call.name.as_str();
    if crate::text::str_eq(name, "load_skill") {
        let skill_name = match required_string_argument(&tool_call.arguments, "skill_name") {
            Ok(s) => s,
            Err(e) => {
                return Err(e);
            },
        };
        Ok(
            ParticipantDecision::Action {
                message: None,
                action: WorkspaceAction::LoadSkill { skill_name },
                execution: ActionExecution::Immediate,
            },
        )
    } else if crate::text::str_eq(name, "unload_skill") {
        let skill_name = match required_string_argument(&tool_call.arguments, "skill_name") {
            Ok(s) => s,
            Err(e) => {
                return Err(e);
            },
        };
        Ok(
            ParticipantDecision::Action {
                message: None,
                action: WorkspaceAction::UnloadSkill { skill_name },
                execution: ActionExecution::Immediate,
            },
        )
    } else if crate::text::str_eq(name, "execute_code") {
        let language = match required_string_argument(&tool_call.arguments, "language") {
            Ok(s) => s,
            Err(e) => {
                return Err(e);
            },
        };
        let source = match required_string_argument(&tool_call.arguments, "source") {
            Ok(s) => s,
            Err(e) => {
                return Err(e);
            },
        };
        Ok(
            ParticipantDecision::Action {
                message: None,
                action: WorkspaceAction::ExecuteCode { language, source },
                execution: ActionExecution::DeferredBlocking,
            },
        )
    } else {
        let mut m = "unsupported tool call '".to_owned();
        string_push_str(&mut m, name);
        string_push_str(&mut m, "'");
        Err(ParticipantError::new(m))
    }
}

/// The status shown when the model starts calling tool `name`.
pub open spec fn tool_start_status(name: Seq<char>) -> Seq<char> {
    if name == "load_skill"@ {
        "preparing skill load"@
    } else if name == "unload_skill"@ {
        "preparing skill unload"@
    } else if name == "execute_code"@ {
        "preparing code execution"@
    } else {
        "preparing tool call: "@ + name
    }
}

/// The status shown when the model starts calling tool `tool_name`.
pub fn status_for_tool_start(tool_name: &str) -> (r: String)
    ensures
        r@ == tool_start_status(tool_name@),
{
    if crate::text::str_eq(tool_name, "load_skill") {
        "preparing skill load".to_owned()
    } else if crate::text::str_eq(tool_name, "unload_skill") {
        "preparing skill unload".to_owned()
    } else if crate::text::str_eq(tool_name, "execute_code") {
        "preparing code execution".to_owned()
    } else {
        let mut s = "preparing tool call: ".to_owned();
        string_push_str(&mut s, tool_name);
        s
    }
}

/// The skill name a partial tool-call argument text already shows: the text
/// between the first two quotes after the first `"skill_name"`.
pub open spec fn skill_hint(delta: Seq<char>) -> Option<Seq<char>> {
    let key = "\"skill_name\""@;
    let quote = seq!['"'];
    match first_from(delta, key, 0) {
        None => None,
        Some(a) => {
            let rest = delta.skip(a + key.len());
            match first_from(rest, quote, 0) {
                None => None,
                Some(b) => {
                    let after = rest.skip(b + 1);
                    match first_from(after, quote, 0) {
                        None => None,
                        Some(c) => Some(after.take(c)),
                    }
                },
            }
        },
    }
}

/// The skill name a partial tool-call argument text already shows.
pub fn extract_skill_name_hint(arguments_delta: &str) -> (r: Option<String>)
    ensures
        match r {
            Some(s) => skill_hint(arguments_delta@) == Some(s@),
            None => skill_hint(arguments_delta@) is None,
        },
{
    let text = chars_of(arguments_delta);
    let key = chars_of("\"skill_name\"");
    let quote: Vec<char> = vec!['"'];
    proof {
        reveal_strlit("\"skill_name\"");
        assert(quote@ =~= seq!['"']);
        crate::text::lemma_first_from_bounds(text@, key@, 0);
    }
    let a = match find_chars(&text, &key) {
        Some(a) => a,
        None => {
            return None;
        },
    };
    assert(a + key@.len() <= text.len());
    let rest = chars_from(&text, a + key.len());
    proof {
        crate::text::lemma_first_from_bounds(rest@, quote@, 0);
    }
    let b = match find_chars(&rest, &quote) {
        Some(b) => b,
        None => {
            return None;
        },
    };
    assert(b + 1 <= rest.len());
    let after = chars_from(&rest, b + 1);
    proof {
        crate::text::lemma_first_from_bounds(after@, quote@, 0);
    }
    let c = match find_chars(&after, &quote) {
        Some(c) => c,
        None => {
            return None;
        },
    };
    let hint = chars_upto(&after, c);
    Some(string_from_chars(hint.as_slice()))
}

/// The status shown while the arguments of a skill call stream in, once
/// they name the skill.
pub open spec fn tool_delta_status(name: Seq<char>, delta: Seq<char>) -> Option<Seq<char>> {
    match skill_hint(delta) {
        None => None,
        Some(s) => if name == "load_skill"@ {
            Some("loading skill "@ + s)
        } else if name == "unload_skill"@ {
            Some("unloading skill "@ + s)
        } else {
            None
        },
    }
}

/// The status shown while the arguments of tool `tool_name` stream in.
pub fn status_for_tool_delta(tool_name: &str, arguments_delta: &str) -> (r: Option<String>)
    ensures
        match r {
            Some(s) => tool_delta_status(tool_name@, arguments_delta@) == Some(s@),
            None => tool_delta_status(tool_name@, arguments_delta@) is None,
        },
{
    let skill_name = match extract_skill_name_hint(arguments_delta) {
        Some(s) => s,
        None => {
            return None;
        },
    };
    if crate::text::str_eq(tool_name, "load_skill") {
        let mut s = "loading skill ".to_owned();
        string_push_str(&mut s, skill_name.as_str());
        Some(s)
    } else if crate::text::str_eq(tool_name, "unload_skill") {
        let mut s = "unloading skill ".to_owned();
        string_push_str(&mut s, skill_name.as_str());
        Some(s)
    } else {
        None
    }
}

/// The status shown once the agent has decided.
pub open spec fn decision_status(d: ParticipantDecision<WorkspaceAction>) -> Seq<char> {
    match d {
        ParticipantDecision::Action { action, .. } => match action {
            WorkspaceAction::LoadSkill { skill_name } => "loading skill "@ + skill_name@,
            WorkspaceAction::UnloadSkill { skill_name } => "unloading skill "@ + skill_name@,
            WorkspaceAction::ExecuteCode { .. } => "executing code"@,
        },
        _ => "updating"@,
    }
}

/// The status shown once the agent has decided.
pub fn status_for_action_decision(decision: &ParticipantDecision<WorkspaceAction>) -> (r: String)
    ensures
        r@ == decision_status(*decision),
{
    match decision {
        ParticipantDecision::Action { action, .. } => match action {
            WorkspaceAction::LoadSkill { skill_name } => {
                let mut s = "loading skill ".to_owned();
                string_push_str(&mut s, skill_name.as_str());
                s
            },
            WorkspaceAction::UnloadSkill { skill_name } => {
                let mut s = "unloading skill ".to_owned();
                string_push_str(&mut s, skill_name.as_str());
                s
            },
            WorkspaceAction::ExecuteCode { .. } => "executing code".to_owned(),
        },
        _ => "updating".to_owned(),
    }
}

/// Something the agent shows while it takes its turn.
#[derive(Debug, Clone, PartialEq, Eq)]
pub enum AgentOutput {
    MessageStart,
    MessageDelta(String),
    MessageEnd,
    StatusUpdate(String),
    ToolCallStart(String),
    ToolCallDelta { name: String, arguments_delta: String },
    ToolCallEnd(String),
}

/// An `AgentOutput` with its texts as character sequences.
pub enum OutputView {
    MessageStart,
    MessageDelta(Seq<char>),
    MessageEnd,
    StatusUpdate(Seq<char>),
    ToolCallStart(Seq<char>),
    ToolCallDelta { name: Seq<char>, arguments_delta: Seq<char> },
    ToolCallEnd(Seq<char>),
}

impl View for AgentOutput {
    type V = OutputView;

    open spec fn view(&self) -> OutputView {
        match self {
            AgentOutput::MessageStart => OutputView::MessageStart,
            AgentOutput::MessageDelta(s) => OutputView::MessageDelta(s@),
            AgentOutput::MessageEnd => OutputView::MessageEnd,
            AgentOutput::StatusUpdate(s) => OutputView::StatusUpdate(s@),
            AgentOutput::ToolCallStart(s) => OutputView::ToolCallStart(s@),
            AgentOutput::ToolCallDelta { name, arguments_delta } => OutputView::ToolCallDelta {
                name: name@,
                arguments_delta: arguments_delta@,
            },
            AgentOutput::ToolCallEnd(s) => OutputView::ToolCallEnd(s@),
        }
    }
}

/// The outputs, each as its view.
pub open spec fn outputs_view(v: Seq<AgentOutput>) -> Seq<OutputView> {
    v.map_values(|o: AgentOutput| o@)
}

/// The text shown when a reply has neither text nor a tool call.
pub open spec fn empty_reply_text() -> Seq<char> {
    "[empty response]"@
}

/// An agent's turn while its reply streams in: the text so far, the first
/// complete tool call, and the tool whose call is being streamed.
#[derive(Debug)]
pub struct AgentTurn {
    pub content: String,
    pub tool_call: Option<LlmToolCall>,
    pub pending_tool_name: Option<String>,
}

impl AgentTurn {
    /// A turn before any of the reply has arrived (its message is opened
    /// before the first event).
    pub fn new() -> (r: Self)
        ensures
            r.content@.len() == 0,
            r.tool_call is None,
            r.pending_tool_name is None,
    {
        AgentTurn { content: String::new(), tool_call: None, pending_tool_name: None }
    }

    /// Takes one event of the streamed reply: text is shown and kept; the
    /// start of a tool call shows a status and the call; argument pieces show
    /// a status once they name a skill, and the piece; a complete call ends
    /// the call being shown (the pending one, else this one) and is kept
    /// unless one was kept before.
    pub fn on_event(&mut self, event: LlmStreamEvent) -> (r: Vec<AgentOutput>)
        ensures
            match event {
                LlmStreamEvent::Text(t) => {
                    &&& final(self).content@ == old(self).content@ + t@
                    &&& final(self).tool_call == old(self).tool_call
                    &&& final(self).pending_tool_name == old(self).pending_tool_name
                    &&& outputs_view(r@) == seq![OutputView::MessageDelta(t@)]
                },
                LlmStreamEvent::ToolCallStart { name, .. } => {
                    &&& final(self).content == old(self).content
                    &&& final(self).tool_call == old(self).tool_call
                    &&& final(self).pending_tool_name == Some(name)
                    &&& outputs_view(r@) == seq![
                        OutputView::StatusUpdate(tool_start_status(name@)),
                        OutputView::ToolCallStart(name@),
                    ]
                },
                LlmStreamEvent::ToolCallDelta { name, arguments_delta, .. } => {
                    &&& final(self).content == old(self).content
                    &&& final(self).tool_call == old(self).tool_call
                    &&& final(self).pending_tool_name == Some(name)
                    &&& outputs_view(r@) == match tool_delta_status(name@, arguments_delta@) {
                        Some(st) => seq![OutputView::StatusUpdate(st)],
                        None => Seq::empty(),
                    } + seq![
                        OutputView::ToolCallDelta { name: name@, arguments_delta: arguments_delta@ },
                    ]
                },
                LlmStreamEvent::ToolCall(call) => {
                    &&& final(self).content == old(self).content
                    &&& final(self).tool_call == match old(self).tool_call {
                        Some(c) => Some(c),
                        None => Some(call),
                    }
                    &&& final(self).pending_tool_name is None
                    &&& outputs_view(r@) == seq![
                        OutputView::ToolCallEnd(
                            match old(self).pending_tool_name {
                                Some(n) => n@,
                                None => call.name@,
                            },
                        ),
                    ]
                },
            },
    {
        let mut out: Vec<AgentOutput> = Vec::new();
        match event {
            LlmStreamEvent::Text(t) => {
                string_push_str(&mut self.content, t.as_str());
                out.push(AgentOutput::MessageDelta(t));
            },
            LlmStreamEvent::ToolCallStart { name, .. } => {
                out.push(AgentOutput::StatusUpdate(status_for_tool_start(name.as_str())));
                out.push(AgentOutput::ToolCallStart(name.clone()));
                self.pending_tool_name = Some(name);
            },
            LlmStreamEvent::ToolCallDelta { name, arguments_delta, .. } => {
                match status_for_tool_delta(name.as_str(), arguments_delta.as_str()) {
                    Some(st) => {
                        out.push(AgentOutput::StatusUpdate(st));
                    },
                    None => {},
                }
                out.push(AgentOutput::ToolCallDelta { name: name.clone(), arguments_delta });
                self.pending_tool_name = Some(name);
            },
            LlmStreamEvent::ToolCall(call) => {
                let ended = match self.pending_tool_name.take() {
                    Some(n) => n,
                    None => call.name.clone(),
                };
                out.push(AgentOutput::ToolCallEnd(ended));
                if self.tool_call.is_none() {
                    self.tool_call = Some(call);
                }
            },
        }
        assert(outputs_view(out@) =~= out@.map_values(|o: AgentOutput| o@));
        out
    }

    /// Ends the turn once the reply is complete: the message gets a notice
    /// if the reply had neither text nor a tool call, and is closed; a code
    /// call then shows its hand-off message to the user as a message of its
    /// own (and fails without one); the tool call becomes the decision,
    /// announced by a status unless it runs code; without a tool call the
    /// text is the final message.
    pub fn finish(self) -> (r: (Vec<AgentOutput>, Result<ParticipantDecision<WorkspaceAction>, ParticipantError>))
        ensures
            ({
                let empty = trim(self.content@).len() == 0 && self.tool_call is None;
                let closing = if empty {
                    seq![OutputView::MessageDelta(empty_reply_text()), OutputView::MessageEnd]
                } else {
                    seq![OutputView::MessageEnd]
                };
                match self.tool_call {
                    None => outputs_view(r.0@) == closing && (r.1 matches Ok(
                        ParticipantDecision::FinalMessage { content },
                    ) && content@ == if empty {
                        self.content@ + empty_reply_text()
                    } else {
                        self.content@
                    }),
                    Some(c) => if c.name@ == "execute_code"@ && string_argument(
                        c.arguments,
                        "handoff_user_message"@,
                    ) is None {
                        outputs_view(r.0@) == closing && (r.1 matches Err(e) && e.message@
                            == missing_field_message("handoff_user_message"@))
                    } else {
                        decides(c, r.1) && outputs_view(r.0@) == closing + (if c.name@
                            == "execute_code"@ {
                            seq![
                                OutputView::MessageStart,
                                OutputView::MessageDelta(
                                    string_argument(c.arguments, "handoff_user_message"@)->0,
                                ),
                                OutputView::MessageEnd,
                            ]
                        } else {
                            Seq::empty()
                        }) + match r.1 {
                            Ok(d) => if d matches ParticipantDecision::Action {
                                action: WorkspaceAction::ExecuteCode { .. },
                                ..
                            } {
                                Seq::empty()
                            } else {
                                seq![OutputView::StatusUpdate(decision_status(d))]
                            },
                            Err(_) => Seq::empty(),
                        }
                    },
                }
            }),
    {
        let mut out: Vec<AgentOutput> = Vec::new();
        let mut content = self.content;
        let empty = crate::text::is_blank(content.as_str()) && self.tool_call.is_none();
        if empty {
            string_push_str(&mut content, "[empty response]");
            out.push(AgentOutput::MessageDelta("[empty response]".to_owned()));
        }
        out.push(AgentOutput::MessageEnd);
        let call = match self.tool_call {
            Some(c) => c,
            None => {
                assert(outputs_view(out@) =~= out@.map_values(|o: AgentOutput| o@));
                return (out, Ok(ParticipantDecision::FinalMessage { content }));
            },
        };
        if crate::text::str_eq(call.name.as_str(), "execute_code") {
            let handoff = match required_string_argument(&call.arguments, "handoff_user_message") {
                Ok(h) => h,
                Err(e) => {
                    assert(outputs_view(out@) =~= out@.map_values(|o: AgentOutput| o@));
                    return (out, Err(e));
                },
            };
            out.push(AgentOutput::MessageStart);
            out.push(AgentOutput::MessageDelta(handoff));
            out.push(AgentOutput::MessageEnd);
        }
        let decision = map_tool_call_to_decision(call);
        match &decision {
            Ok(d) => {
                let runs_code = match d {
                    ParticipantDecision::Action { action: WorkspaceAction::ExecuteCode { .. }, .. } => true,
                    _ => false,
                };
                if !runs_code {
                    out.push(AgentOutput::StatusUpdate(status_for_action_decision(d)));
                }
            },
            Err(_) => {},
        }
        assert(outputs_view(out@) =~= out@.map_values(|o: AgentOutput| o@));
        proof {
            reveal_strlit("[empty response]");
        }
        (out, decision)
    }
}

} // verus!
