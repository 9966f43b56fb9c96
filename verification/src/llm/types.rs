//! Requests to a language model and what comes back.
use vstd::prelude::*;

use crate::evals::document::{doc_view, DocValue, DocView};

verus! {

/// A request: a system prompt, the conversation, and the tools on offer.
#[derive(Debug, Clone)]
pub struct LlmRequest {
    pub system_prompt: String,
    pub messages: Vec<PromptMessage>,
    pub tools: Vec<LlmToolDefinition>,
}

/// A complete response: its text and the first tool call, if any.
#[derive(Debug, Clone)]
pub struct LlmResponse {
    pub content: String,
    pub tool_call: Option<LlmToolCall>,
}

/// A tool the model may call.
#[derive(Debug, Clone)]
pub struct LlmToolDefinition {
    pub name: String,
    pub description: String,
    pub input_schema: DocValue,
}

/// A call of a tool by the model.
#[derive(Debug, Clone)]
pub struct LlmToolCall {
    pub call_id: Option<String>,
    pub name: String,
    pub arguments: DocValue,
}

/// A piece of a streamed response.
#[derive(Debug, Clone)]
pub enum LlmStreamEvent {
    Text(String),
    ToolCallStart { call_id: String, name: String },
    ToolCallDelta { call_id: String, name: String, arguments_delta: String },
    ToolCall(LlmToolCall),
}

/// A message of the conversation sent to the model.
#[derive(Debug, Clone)]
pub struct PromptMessage {
    pub role: String,
    pub content: String,
    pub metadata: Option<PromptMessageMetadata>,
}

/// What a tool-related message carries.
#[derive(Debug, Clone)]
pub enum PromptMessageMetadata {
    ToolCall { call_id: String, name: String, arguments: DocValue },
    ToolResult { call_id: String, name: String, output: DocValue },
}

/// A prompt message with its texts as character sequences.
pub struct PromptMessageView {
    pub role: Seq<char>,
    pub content: Seq<char>,
    pub metadata: Option<MetadataView>,
}

/// Tool metadata with its texts as character sequences.
pub enum MetadataView {
    ToolCall { call_id: Seq<char>, name: Seq<char>, arguments: DocView },
    ToolResult { call_id: Seq<char>, name: Seq<char>, output: DocView },
}

/// The view of tool metadata.
pub open spec fn metadata_view(m: PromptMessageMetadata) -> MetadataView {
    match m {
        PromptMessageMetadata::ToolCall { call_id, name, arguments } => MetadataView::ToolCall {
            call_id: call_id@,
            name: name@,
            arguments: doc_view(arguments),
        },
        PromptMessageMetadata::ToolResult { call_id, name, output } => MetadataView::ToolResult {
            call_id: call_id@,
            name: name@,
            output: doc_view(output),
        },
    }
}

impl View for PromptMessage {
    type V = PromptMessageView;

    open spec fn view(&self) -> PromptMessageView {
        PromptMessageView {
            role: self.role@,
            content: self.content@,
            metadata: match self.metadata {
                Some(m) => Some(metadata_view(m)),
                None => None,
            },
        }
    }
}

/// A text message's view.
pub open spec fn text_view(role: Seq<char>, content: Seq<char>) -> PromptMessageView {
    PromptMessageView { role, content, metadata: None }
}

/// A tool call message's view.
pub open spec fn tool_call_view(call_id: Seq<char>, name: Seq<char>, arguments: DocView) -> PromptMessageView {
    PromptMessageView {
        role: "assistant"@,
        content: Seq::empty(),
        metadata: Some(MetadataView::ToolCall { call_id, name, arguments }),
    }
}

/// A tool result message's view.
pub open spec fn tool_result_view(call_id: Seq<char>, name: Seq<char>, output: DocView) -> PromptMessageView {
    PromptMessageView {
        role: "tool"@,
        content: Seq::empty(),
        metadata: Some(MetadataView::ToolResult { call_id, name, output }),
    }
}

/// The messages, each as its view.
pub open spec fn messages_view(v: Seq<PromptMessage>) -> Seq<PromptMessageView> {
    v.map_values(|m: PromptMessage| m@)
}

impl PromptMessageMetadata {
    /// A copy of this metadata.
    pub fn copy(&self) -> (r: PromptMessageMetadata)
        ensures
            metadata_view(r) == metadata_view(*self),
    {
        match self {
            PromptMessageMetadata::ToolCall { call_id, name, arguments } => PromptMessageMetadata::ToolCall {
                call_id: call_id.clone(),
                name: name.clone(),
                arguments: arguments.copy(),
            },
            PromptMessageMetadata::ToolResult { call_id, name, output } => PromptMessageMetadata::ToolResult {
                call_id: call_id.clone(),
                name: name.clone(),
                output: output.copy(),
            },
        }
    }
}

impl PromptMessage {
    /// A copy of this message.
    pub fn copy(&self) -> (r: PromptMessage)
        ensures
            r@ == self@,
    {
        PromptMessage {
            role: self.role.clone(),
            content: self.content.clone(),
            metadata: match &self.metadata {
                Some(m) => Some(m.copy()),
                None => None,
            },
        }
    }

    /// A plain text message.
    pub fn text(role: String, content: String) -> (r: Self)
        ensures
            r.role == role,
            r.content == content,
            r.metadata is None,
    {
        PromptMessage { role, content, metadata: None }
    }

    /// The assistant's call of a tool.
    pub fn tool_call(call_id: String, name: String, arguments: DocValue) -> (r: Self)
        ensures
            r.role@ == "assistant"@,
            r.content@.len() == 0,
            r.metadata == Some(PromptMessageMetadata::ToolCall { call_id, name, arguments }),
            r@ == tool_call_view(call_id@, name@, doc_view(arguments)),
    {
        let r = PromptMessage {
            role: "assistant".to_owned(),
            content: String::new(),
            metadata: Some(PromptMessageMetadata::ToolCall { call_id, name, arguments }),
        };
        assert(r.content@ =~= Seq::<char>::empty());
        r
    }

    /// The result of a tool call.
    pub fn tool_result(call_id: String, name: String, output: DocValue) -> (r: Self)
        ensures
            r.role@ == "tool"@,
            r.content@.len() == 0,
            r.metadata == Some(PromptMessageMetadata::ToolResult { call_id, name, output }),
            r@ == tool_result_view(call_id@, name@, doc_view(output)),
    {
        let r = PromptMessage {
            role: "tool".to_owned(),
            content: String::new(),
            metadata: Some(PromptMessageMetadata::ToolResult { call_id, name, output }),
        };
        assert(r.content@ =~= Seq::<char>::empty());
        r
    }
}

/// The provider used when none is configured: it answers every request with
/// a notice.
#[derive(Debug, Clone, Copy)]
pub struct UnconfiguredLlmProvider;

impl UnconfiguredLlmProvider {
    /// The one event this provider streams.
    pub fn reply(&self) -> (r: LlmStreamEvent)
        ensures
            r matches LlmStreamEvent::Text(t) && t@ == "LLM provider is not configured yet."@,
    {
        LlmStreamEvent::Text("LLM provider is not configured yet.".to_owned())
    }
}

/// The text of a streamed response and its first complete tool call.
pub open spec fn collected_text(events: Seq<LlmStreamEvent>) -> Seq<char>
    decreases events.len(),
{
    if events.len() == 0 {
        Seq::empty()
    } else {
        collected_text(events.drop_last()) + match events.last() {
            LlmStreamEvent::Text(t) => t@,
            _ => Seq::empty(),
        }
    }
}

/// The first complete tool call of a streamed response.
pub open spec fn first_tool_call(events: Seq<LlmStreamEvent>) -> Option<LlmToolCall>
    decreases events.len(),
{
    if events.len() == 0 {
        None
    } else {
        match first_tool_call(events.drop_last()) {
            Some(c) => Some(c),
            None => match events.last() {
                LlmStreamEvent::ToolCall(c) => Some(c),
                _ => None,
            },
        }
    }
}

/// Collects a streamed response: the text pieces joined, and the first
/// complete tool call kept; starts and deltas of tool calls are skipped.
pub fn collect_response(events: Vec<LlmStreamEvent>) -> (r: LlmResponse)
    ensures
        r.content@ == collected_text(events@),
        r.tool_call == first_tool_call(events@),
{
    let ghost all = events@;
    let mut rest = events;
    let mut content = String::new();
    let mut tool_call: Option<LlmToolCall> = None;
    let mut i: usize = 0;
    let n = rest.len();
    assert(all.take(0) =~= Seq::<LlmStreamEvent>::empty());
    assert(all.skip(0) =~= all);
    while rest.len() > 0
        invariant
            rest@ == all.skip(i as int),
            i <= all.len(),
            n == all.len(),
            content@ == collected_text(all.take(i as int)),
            tool_call == first_tool_call(all.take(i as int)),
        decreases rest@.len(),
    {
        let event = rest.remove(0);
        assert(event == all[i as int]);
        assert(rest@ =~= all.skip(i + 1));
        assert(all.take(i + 1).drop_last() =~= all.take(i as int));
        match event {
            LlmStreamEvent::Text(text) => {
                crate::text::string_push_str(&mut content, text.as_str());
            },
            LlmStreamEvent::ToolCall(call) => {
                if tool_call.is_none() {
                    tool_call = Some(call);
                }
            },
            _ => {},
        }
        i = i + 1;
    }
    assert(all.take(i as int) =~= all);
    LlmResponse { content, tool_call }
}

} // verus!
