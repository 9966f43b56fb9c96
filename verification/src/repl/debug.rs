//! The document a prompt-debug record holds for a model request: the request
//! as it goes to the model, with the system prompt as its first input item.
use vstd::prelude::*;

use crate::evals::document::{doc_view, DocValue, DocView};
use crate::llm::openai::{role_named, MessageRole};
use crate::llm::types::{
    messages_view, LlmRequest, LlmToolDefinition, MetadataView, PromptMessage, PromptMessageMetadata,
    PromptMessageView,
};
use crate::text::str_eq;

verus! {

/// A mapping entry under a string key.
pub open spec fn field(key: Seq<char>, value: DocView) -> (DocView, DocView) {
    (DocView::String(key), value)
}

/// The name a role has in a request.
pub open spec fn role_wire_name(r: MessageRole) -> Seq<char> {
    match r {
        MessageRole::System => "system"@,
        MessageRole::Developer => "developer"@,
        MessageRole::User => "user"@,
        MessageRole::Assistant => "assistant"@,
    }
}

/// The content type of a role's text.
pub open spec fn role_content_type(r: MessageRole) -> Seq<char> {
    match r {
        MessageRole::Assistant => "output_text"@,
        _ => "input_text"@,
    }
}

/// A text message item under a role, its text of the given content type.
pub open spec fn message_item(role: Seq<char>, content_type: Seq<char>, text: Seq<char>) -> DocView {
    DocView::Mapping(
        seq![
            field("type"@, DocView::String("message"@)),
            field("role"@, DocView::String(role)),
            field(
                "content"@,
                DocView::Sequence(
                    seq![
                        DocView::Mapping(
                            seq![
                                field("type"@, DocView::String(content_type)),
                                field("text"@, DocView::String(text)),
                            ],
                        ),
                    ],
                ),
            ),
        ],
    )
}

/// The input item of a prompt message: a tool call, a tool result, or a text
/// under the role its role name stands for.
pub open spec fn input_item(m: PromptMessageView) -> DocView {
    match m.metadata {
        Some(MetadataView::ToolCall { call_id, name, arguments }) => DocView::Mapping(
            seq![
                field("type"@, DocView::String("function_call"@)),
                field("call_id"@, DocView::String(call_id)),
                field("name"@, DocView::String(name)),
                field("arguments"@, arguments),
            ],
        ),
        Some(MetadataView::ToolResult { call_id, output, .. }) => DocView::Mapping(
            seq![
                field("type"@, DocView::String("function_call_output"@)),
                field("call_id"@, DocView::String(call_id)),
                field("output"@, output),
            ],
        ),
        None => message_item(
            role_wire_name(role_named(m.role)),
            role_content_type(role_named(m.role)),
            m.content,
        ),
    }
}

/// The input items of the prompt messages, one by one.
pub open spec fn input_items(ms: Seq<PromptMessageView>) -> Seq<DocView> {
    ms.map_values(|m: PromptMessageView| input_item(m))
}

/// A tool as a function the model may call.
pub open spec fn tool_item(t: LlmToolDefinition) -> DocView {
    DocView::Mapping(
        seq![
            field("type"@, DocView::String("function"@)),
            field("name"@, DocView::String(t.name@)),
            field("description"@, DocView::String(t.description@)),
            field("parameters"@, doc_view(t.input_schema)),
        ],
    )
}

/// The tools as functions, one by one.
pub open spec fn tool_items(ts: Seq<LlmToolDefinition>) -> Seq<DocView> {
    ts.map_values(|t: LlmToolDefinition| tool_item(t))
}

/// The document of a streamed request: the model where one is named, the
/// stream flag, the input (the system prompt as a system message, then the
/// prompt messages), and the tools where there are any.
pub open spec fn request_doc(
    model: Option<Seq<char>>,
    system_prompt: Seq<char>,
    messages: Seq<PromptMessageView>,
    tools: Seq<LlmToolDefinition>,
) -> DocView {
    let head = match model {
        Some(m) => seq![field("model"@, DocView::String(m))],
        None => Seq::empty(),
    };
    let input = seq![message_item("system"@, "input_text"@, system_prompt)] + input_items(messages);
    let body = head + seq![
        field("stream"@, DocView::Bool(true)),
        field("input"@, DocView::Sequence(input)),
    ];
    if tools.len() == 0 {
        DocView::Mapping(body)
    } else {
        DocView::Mapping(body.push(field("tools"@, DocView::Sequence(tool_items(tools)))))
    }
}

/// A mapping entry under a string key.
fn entry(key: &str, value: DocValue) -> (r: (DocValue, DocValue))
    ensures
        (doc_view(r.0), doc_view(r.1)) == field(key@, doc_view(value)),
{
    (DocValue::String(key.to_owned()), value)
}

/// A string document.
fn text(s: &str) -> (r: DocValue)
    ensures
        doc_view(r) == DocView::String(s@),
{
    DocValue::String(s.to_owned())
}

/// A text message item.
fn message_item_doc(role: &str, content_type: &str, text_value: &str) -> (r: DocValue)
    ensures
        doc_view(r) == message_item(role@, content_type@, text_value@),
{
    let mut part: Vec<(DocValue, DocValue)> = Vec::new();
    part.push(entry("type", text(content_type)));
    part.push(entry("text", text(text_value)));
    let part_doc = DocValue::Mapping(part);
    let mut parts: Vec<DocValue> = Vec::new();
    parts.push(part_doc);
    let mut item: Vec<(DocValue, DocValue)> = Vec::new();
    item.push(entry("type", text("message")));
    item.push(entry("role", text(role)));
    item.push(entry("content", DocValue::Sequence(parts)));
    let r = DocValue::Mapping(item);
    proof {
        reveal_strlit("type");
        reveal_strlit("text");
        reveal_strlit("message");
        reveal_strlit("role");
        reveal_strlit("content");
        assert(crate::evals::document::entry_views(part@) =~= seq![
            field("type"@, DocView::String(content_type@)),
            field("text"@, DocView::String(text_value@)),
        ]);
        assert(crate::evals::document::doc_views(parts@) =~= seq![doc_view(part_doc)]);
        assert(crate::evals::document::entry_views(item@) =~= message_item(
            role@,
            content_type@,
            text_value@,
        )->Mapping_0);
    }
    r
}

/// The input item of a prompt message.
fn input_item_doc(m: &PromptMessage) -> (r: DocValue)
    ensures
        doc_view(r) == input_item(m@),
{
    match &m.metadata {
        Some(PromptMessageMetadata::ToolCall { call_id, name, arguments }) => {
            let mut item: Vec<(DocValue, DocValue)> = Vec::new();
            item.push(entry("type", text("function_call")));
            item.push(entry("call_id", text(call_id.as_str())));
            item.push(entry("name", text(name.as_str())));
            item.push(entry("arguments", arguments.copy()));
            assert(crate::evals::document::entry_views(item@) =~= input_item(m@)->Mapping_0);
            DocValue::Mapping(item)
        },
        Some(PromptMessageMetadata::ToolResult { call_id, output, .. }) => {
            let mut item: Vec<(DocValue, DocValue)> = Vec::new();
            item.push(entry("type", text("function_call_output")));
            item.push(entry("call_id", text(call_id.as_str())));
            item.push(entry("output", output.copy()));
            assert(crate::evals::document::entry_views(item@) =~= input_item(m@)->Mapping_0);
            DocValue::Mapping(item)
        },
        None => {
            let role = if str_eq(m.role.as_str(), "system") {
                MessageRole::System
            } else if str_eq(m.role.as_str(), "developer") {
                MessageRole::Developer
            } else if str_eq(m.role.as_str(), "assistant") {
                MessageRole::Assistant
            } else {
                MessageRole::User
            };
            message_item_doc(role.as_str(), role.content_type(), m.content.as_str())
        },
    }
}

/// The tool as a function item.
fn tool_item_doc(t: &LlmToolDefinition) -> (r: DocValue)
    ensures
        doc_view(r) == tool_item(*t),
{
    let mut item: Vec<(DocValue, DocValue)> = Vec::new();
    item.push(entry("type", text("function")));
    item.push(entry("name", text(t.name.as_str())));
    item.push(entry("description", text(t.description.as_str())));
    item.push(entry("parameters", t.input_schema.copy()));
    assert(crate::evals::document::entry_views(item@) =~= tool_item(*t)->Mapping_0);
    DocValue::Mapping(item)
}

/// The document of a request as it goes to the model; see `request_doc`.
pub fn request_document(model: Option<&str>, request: &LlmRequest) -> (r: DocValue)
    ensures
        doc_view(r) == request_doc(
            match model {
                Some(m) => Some(m@),
                None => None,
            },
            request.system_prompt@,
            messages_view(request.messages@),
            request.tools@,
        ),
{
    let mut input: Vec<DocValue> = Vec::new();
    input.push(message_item_doc("system", "input_text", request.system_prompt.as_str()));
    let ghost first = input@;
    for i in 0..request.messages.len()
        invariant
            input@.len() == i + 1,
            input@[0] == first[0],
            forall|j: int|
                0 <= j < i ==> doc_view(#[trigger] input@[j + 1]) == input_item(
                    request.messages@[j]@,
                ),
    {
        input.push(input_item_doc(&request.messages[i]));
    }
    let ghost items = seq![message_item("system"@, "input_text"@, request.system_prompt@)]
        + input_items(messages_view(request.messages@));
    assert(crate::evals::document::doc_views(input@) =~= items) by {
        reveal_strlit("system");
        reveal_strlit("input_text");
        assert forall|j: int| 0 <= j < items.len() implies crate::evals::document::doc_views(
            input@,
        )[j] == items[j] by {
            if j > 0 {
                assert(doc_view(input@[(j - 1) + 1]) == input_item(request.messages@[j - 1]@));
            }
        }
    }
    let mut doc: Vec<(DocValue, DocValue)> = Vec::new();
    match model {
        Some(m) => {
            doc.push(entry("model", text(m)));
        },
        None => {},
    }
    doc.push(entry("stream", DocValue::Bool(true)));
    doc.push(entry("input", DocValue::Sequence(input)));
    if request.tools.len() > 0 {
        let mut tools: Vec<DocValue> = Vec::new();
        for i in 0..request.tools.len()
            invariant
                tools@.len() == i,
                forall|j: int| 0 <= j < i ==> doc_view(#[trigger] tools@[j]) == tool_item(request.tools@[j]),
        {
            tools.push(tool_item_doc(&request.tools[i]));
        }
        assert(crate::evals::document::doc_views(tools@) =~= tool_items(request.tools@));
        doc.push(entry("tools", DocValue::Sequence(tools)));
    }
    let r = DocValue::Mapping(doc);
    proof {
        reveal_strlit("model");
        reveal_strlit("stream");
        reveal_strlit("input");
        reveal_strlit("tools");
    }
    assert(crate::evals::document::entry_views(doc@) =~= request_doc(
        match model {
            Some(m) => Some(m@),
            None => None,
        },
        request.system_prompt@,
        messages_view(request.messages@),
        request.tools@,
    )->Mapping_0);
    r
}

} // verus!
