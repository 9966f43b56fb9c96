//! The wire format of the OpenAI responses API: server-sent event blocks,
//! the events they carry, and the messages a request is made of.
use vstd::prelude::*;

use crate::evals::document::{doc_field, doc_str, field_of, str_of, DocValue};
use crate::evals::json::{json_document, parse_json};
use crate::llm::types::{LlmToolCall, LlmStreamEvent, PromptMessage, PromptMessageMetadata};
use crate::text::{
    blank, chars_of, is_blank, join, join_strings, lines_of, split_lines, str_eq, string_from_chars,
    string_push, string_push_str, trim, trim_string,
};

verus! {

/// The credentials and model of an OpenAI provider.
#[derive(Debug, Clone)]
pub struct OpenAiConfig {
    pub api_key: String,
    pub model: String,
}

/// The role of a text message.
#[derive(Debug, Clone, Copy, PartialEq, Eq, Structural)]
pub enum MessageRole {
    System,
    Developer,
    User,
    Assistant,
}

impl MessageRole {
    /// The role's name on the wire.
    pub fn as_str(self) -> (r: &'static str)
        ensures
            r@ == match self {
                MessageRole::System => "system"@,
                MessageRole::Developer => "developer"@,
                MessageRole::User => "user"@,
                MessageRole::Assistant => "assistant"@,
            },
    {
        match self {
            MessageRole::System => "system",
            MessageRole::Developer => "developer",
            MessageRole::User => "user",
            MessageRole::Assistant => "assistant",
        }
    }

    /// The content type of the role's text: the assistant's is output, the
    /// others' input.
    pub fn content_type(self) -> (r: &'static str)
        ensures
            r@ == match self {
                MessageRole::Assistant => "output_text"@,
                _ => "input_text"@,
            },
    {
        match self {
            MessageRole::Assistant => "output_text",
            _ => "input_text",
        }
    }
}

/// An item of a request's input.
#[derive(Debug, Clone)]
pub enum Message {
    Text { role: MessageRole, content: String },
    FunctionCall { call_id: String, name: String, arguments: DocValue },
    FunctionCallOutput { call_id: String, output: DocValue },
}

/// The role a prompt message's role name stands for: anything unknown is the
/// user.
pub open spec fn role_named(role: Seq<char>) -> MessageRole {
    if role == "system"@ {
        MessageRole::System
    } else if role == "developer"@ {
        MessageRole::Developer
    } else if role == "assistant"@ {
        MessageRole::Assistant
    } else {
        MessageRole::User
    }
}

/// The input item for a prompt message: a tool call or tool result as such,
/// anything else as text under its role.
pub fn message_from_prompt(message: PromptMessage) -> (r: Message)
    ensures
        match message.metadata {
            Some(PromptMessageMetadata::ToolCall { call_id, name, arguments }) => r
                == Message::FunctionCall { call_id, name, arguments },
            Some(PromptMessageMetadata::ToolResult { call_id, output, .. }) => r
                == Message::FunctionCallOutput { call_id, output },
            None => r == Message::Text {
                role: role_named(message.role@),
                content: message.content,
            },
        },
{
    match message.metadata {
        Some(PromptMessageMetadata::ToolCall { call_id, name, arguments }) => Message::FunctionCall {
            call_id,
            name,
            arguments,
        },
        Some(PromptMessageMetadata::ToolResult { call_id, output, .. }) =>
            Message::FunctionCallOutput { call_id, output },
        None => {
            let role = if str_eq(message.role.as_str(), "system") {
                MessageRole::System
            } else if str_eq(message.role.as_str(), "developer") {
                MessageRole::Developer
            } else if str_eq(message.role.as_str(), "assistant") {
                MessageRole::Assistant
            } else {
                MessageRole::User
            };
            Message::Text { role, content: message.content }
        },
    }
}

/// An event of a streamed response.
#[derive(Debug, Clone)]
pub enum OpenAiResponseEvent {
    Text(String),
    ToolCallStart { call_id: String, name: String },
    ToolCallDelta { call_id: String, name: String, arguments_delta: String },
    ToolCall(OpenAiToolCall),
}

/// A complete function call of a streamed response.
#[derive(Debug, Clone)]
pub struct OpenAiToolCall {
    pub call_id: Option<String>,
    pub name: String,
    pub arguments: DocValue,
}

/// The stream event for a response event.
pub fn event_from_openai(event: OpenAiResponseEvent) -> (r: LlmStreamEvent)
    ensures
        match event {
            OpenAiResponseEvent::Text(t) => r == LlmStreamEvent::Text(t),
            OpenAiResponseEvent::ToolCallStart { call_id, name } => r
                == LlmStreamEvent::ToolCallStart { call_id, name },
            OpenAiResponseEvent::ToolCallDelta { call_id, name, arguments_delta } => r
                == LlmStreamEvent::ToolCallDelta { call_id, name, arguments_delta },
            OpenAiResponseEvent::ToolCall(c) => r == LlmStreamEvent::ToolCall(
                LlmToolCall { call_id: c.call_id, name: c.name, arguments: c.arguments },
            ),
        },
{
    match event {
        OpenAiResponseEvent::Text(t) => LlmStreamEvent::Text(t),
        OpenAiResponseEvent::ToolCallStart { call_id, name } => LlmStreamEvent::ToolCallStart {
            call_id,
            name,
        },
        OpenAiResponseEvent::ToolCallDelta { call_id, name, arguments_delta } =>
            LlmStreamEvent::ToolCallDelta { call_id, name, arguments_delta },
        OpenAiResponseEvent::ToolCall(c) => LlmStreamEvent::ToolCall(
            LlmToolCall { call_id: c.call_id, name: c.name, arguments: c.arguments },
        ),
    }
}

/// The event name and data lines of a server-sent event block's lines: the
/// last `event: ` line names it (trimmed), each `data: ` line adds data.
pub open spec fn sse_fields(lines: Seq<Seq<char>>) -> (Option<Seq<char>>, Seq<Seq<char>>)
    decreases lines.len(),
{
    if lines.len() == 0 {
        (None, Seq::empty())
    } else {
        let (event, data) = sse_fields(lines.drop_last());
        let l = lines.last();
        if l.len() >= 7 && l.take(7) == "event: "@ {
            (Some(trim(l.skip(7))), data)
        } else if l.len() >= 6 && l.take(6) == "data: "@ {
            (event, data.push(l.skip(6)))
        } else {
            (event, data)
        }
    }
}

/// The named event and its data that a server-sent event block carries:
/// none without an event name, for the `done` event, or with blank data.
pub open spec fn sse_frame_of(block: Seq<char>) -> Option<(Seq<char>, Seq<char>)> {
    let (event, data) = sse_fields(lines_of(block));
    match event {
        None => None,
        Some(name) => if name == "done"@ {
            None
        } else {
            let d = join(data, "\n"@);
            if blank(d) {
                None
            } else {
                Some((name, d))
            }
        },
    }
}

fn starts_with_chars(line: &Vec<char>, prefix: &str) -> (r: bool)
    ensures
        r == (line@.len() >= prefix@.len() && line@.take(prefix@.len() as int) == prefix@),
{
    let p = chars_of(prefix);
    if line.len() < p.len() {
        return false;
    }
    for i in 0..p.len()
        invariant
            p@ == prefix@,
            line@.len() >= p@.len(),
            forall|j: int| 0 <= j < i ==> line@[j] == p@[j],
    {
        if line[i] != p[i] {
            assert(line@.take(p@.len() as int)[i as int] != p@[i as int]);
            return false;
        }
    }
    assert(line@.take(p@.len() as int) =~= p@);
    true
}

/// The first complete block of a server-sent event stream and the rest of
/// the buffer after it: blocks end at the first blank line (`\n\n`), which
/// belongs to neither part.
pub open spec fn sse_block_split(buffer: Seq<char>) -> Option<(Seq<char>, Seq<char>)> {
    match crate::text::first_from(buffer, seq!['\n', '\n'], 0) {
        Some(i) => Some((buffer.take(i), buffer.skip(i + 2))),
        None => None,
    }
}

/// Takes the first complete block off a buffer of streamed text; see
/// `sse_block_split`.
pub fn take_sse_block(buffer: &str) -> (r: Option<(String, String)>)
    ensures
        match (r, sse_block_split(buffer@)) {
            (Some((block, rest)), Some((b, t))) => block@ == b && rest@ == t,
            (None, None) => true,
            _ => false,
        },
{
    let cs = crate::text::chars_of(buffer);
    let sep: Vec<char> = vec!['\n', '\n'];
    assert(sep@ =~= seq!['\n', '\n']);
    proof {
        crate::text::lemma_first_from_bounds(cs@, sep@, 0);
    }
    match crate::text::find_chars(&cs, &sep) {
        Some(i) => {
            assert(i + 2 <= cs.len());
            let before = crate::text::chars_upto(&cs, i);
            let after = crate::text::chars_from(&cs, i + 2);
            Some(
                (
                    crate::text::string_from_chars(before.as_slice()),
                    crate::text::string_from_chars(after.as_slice()),
                ),
            )
        },
        None => None,
    }
}

/// The named event and its data that a server-sent event block carries.
pub fn sse_frame(block: &str) -> (r: Option<(String, String)>)
    ensures
        match (r, sse_frame_of(block@)) {
            (Some((name, data)), Some((n, d))) => name@ == n && data@ == d,
            (None, None) => true,
            _ => false,
        },
{
    let lines = split_lines(block);
    let ghost ls = lines@.map_values(|l: Vec<char>| l@);
    let mut event: Option<String> = None;
    let mut data: Vec<String> = Vec::new();
    assert(ls.take(0) =~= Seq::<Seq<char>>::empty());
    for i in 0..lines.len()
        invariant
            ls == lines@.map_values(|l: Vec<char>| l@),
            ({
                let (e, d) = sse_fields(ls.take(i as int));
                &&& match (event, e) {
                    (Some(a), Some(b)) => a@ == b,
                    (None, None) => true,
                    _ => false,
                }
                &&& data@.map_values(|x: String| x@) == d
            }),
    {
        let ghost t = ls.take(i + 1);
        assert(t.drop_last() =~= ls.take(i as int));
        assert(t.last() == lines@[i as int]@);
        let line = &lines[i];
        proof {
            reveal_strlit("event: ");
            reveal_strlit("data: ");
        }
        if starts_with_chars(line, "event: ") {
            let rest = crate::text::string_from_chars_after(line.as_slice(), 7);
            assert(rest@ =~= line@.skip(7));
            event = Some(trim_string(rest.as_str()));
        } else if starts_with_chars(line, "data: ") {
            let rest = crate::text::string_from_chars_after(line.as_slice(), 6);
            assert(rest@ =~= line@.skip(6));
            let ghost before = data@;
            data.push(rest);
            assert(data@.map_values(|x: String| x@) =~= before.map_values(|x: String| x@).push(
                line@.skip(6),
            ));
        }
    }
    assert(ls.take(ls.len() as int) =~= ls);
    let name = match event {
        Some(n) => n,
        None => {
            return None;
        },
    };
    if str_eq(name.as_str(), "done") {
        return None;
    }
    let joined = join_strings(&data, "\n");
    if is_blank(joined.as_str()) {
        return None;
    }
    Some((name, joined))
}

/// What a streamed response event's payload says, before any function-call
/// arguments are parsed.
#[derive(Debug, Clone)]
pub enum SsePayloadEvent {
    Text(String),
    ToolCallStart { call_id: String, name: String },
    ToolCallDelta { call_id: String, name: String, arguments_delta: String },
    ToolCallDone { call_id: Option<String>, name: String, arguments_text: String },
}

/// A string field of a payload, or the error naming it as missing.
fn required(v: &DocValue, key: &str, missing: &str) -> (r: Result<String, String>)
    ensures
        match str_of(field_of(*v, key@)) {
            Some(s) => r matches Ok(t) && t@ == s,
            None => r matches Err(e) && e@ == missing@,
        },
{
    match doc_str(doc_field(v, key)) {
        Some(s) => Ok(s.clone()),
        None => Err(missing.to_owned()),
    }
}

/// The field is the string `text`.
pub open spec fn field_is(v: DocValue, key: Seq<char>, text: Seq<char>) -> bool {
    str_of(field_of(v, key)) == Some(text)
}

/// What the payload of a streamed response event named `event_name` says,
/// read as `decode_response_event` reads it: a text delta; a function
/// call's argument delta; the start of a function call; the end of one with
/// its arguments as text; or nothing for other events and items. A missing
/// field of a function-call event is an error naming it.
pub open spec fn decodes(event_name: Seq<char>, payload: DocValue, r: Result<Option<SsePayloadEvent>, String>) -> bool {
    if event_name == "response.output_text.delta"@ {
        match str_of(field_of(payload, "delta"@)) {
            Some(d) => r matches Ok(Some(SsePayloadEvent::Text(t))) && t@ == d,
            None => r matches Ok(None),
        }
    } else if event_name == "response.function_call_arguments.delta"@ {
        match (
            str_of(field_of(payload, "item_id"@)),
            str_of(field_of(payload, "name"@)),
            str_of(field_of(payload, "delta"@)),
        ) {
            (Some(i), Some(n), Some(d)) => r matches Ok(
                Some(SsePayloadEvent::ToolCallDelta { call_id, name, arguments_delta }),
            ) && call_id@ == i && name@ == n && arguments_delta@ == d,
            (None, _, _) => r matches Err(e) && e@ == "missing item_id in function call delta event"@,
            (Some(_), None, _) => r matches Err(e) && e@
                == "missing name in function call delta event"@,
            (Some(_), Some(_), None) => r matches Err(e) && e@
                == "missing delta in function call delta event"@,
        }
    } else if event_name == "response.output_item.added"@ {
        match field_of(payload, "item"@) {
            None => r matches Err(e) && e@ == "missing item in output item added event"@,
            Some(item) => if !field_is(item, "type"@, "function_call"@) {
                r matches Ok(None)
            } else {
                match (str_of(field_of(item, "id"@)), str_of(field_of(item, "name"@))) {
                    (Some(i), Some(n)) => r matches Ok(
                        Some(SsePayloadEvent::ToolCallStart { call_id, name }),
                    ) && call_id@ == i && name@ == n,
                    (None, _) => r matches Err(e) && e@
                        == "missing function call id in output item added event"@,
                    (Some(_), None) => r matches Err(e) && e@
                        == "missing function call name in output item added event"@,
                }
            },
        }
    } else if event_name == "response.output_item.done"@ {
        match field_of(payload, "item"@) {
            None => r matches Err(e) && e@ == "missing item in output item done event"@,
            Some(item) => if !field_is(item, "type"@, "function_call"@) {
                r matches Ok(None)
            } else {
                match (str_of(field_of(item, "name"@)), str_of(field_of(item, "arguments"@))) {
                    (Some(n), Some(a)) => r matches Ok(
                        Some(SsePayloadEvent::ToolCallDone { call_id, name, arguments_text }),
                    ) && name@ == n && arguments_text@ == a && match (
                        call_id,
                        str_of(field_of(item, "call_id"@)),
                    ) {
                        (Some(c), Some(d)) => c@ == d,
                        (None, None) => true,
                        _ => false,
                    },
                    (None, _) => r matches Err(e) && e@
                        == "missing function call name in output item done event"@,
                    (Some(_), None) => r matches Err(e) && e@
                        == "missing arguments in function call done event"@,
                }
            },
        }
    } else {
        r matches Ok(None)
    }
}

/// An added or finished output item that is not a function call (a text
/// message, a reasoning item) is skipped: its event decodes to nothing,
/// whatever else the item holds; and an added function call with an id and
/// a name always starts a call.
pub proof fn lemma_non_call_items_are_skipped(
    event_name: Seq<char>,
    payload: DocValue,
    r: Result<Option<SsePayloadEvent>, String>,
)
    requires
        event_name == "response.output_item.added"@ || event_name == "response.output_item.done"@,
        field_of(payload, "item"@) matches Some(item) && str_of(field_of(item, "type"@)) != Some(
            "function_call"@,
        ),
        decodes(event_name, payload, r),
    ensures
        r matches Ok(None),
{
    reveal_strlit("response.output_item.added");
    reveal_strlit("response.output_item.done");
    reveal_strlit("response.output_text.delta");
    reveal_strlit("response.function_call_arguments.delta");
    assert(("response.output_item.added"@)[16] != ("response.output_text.delta"@)[16]);
    assert(("response.output_item.done"@).len() != ("response.output_text.delta"@).len());
    assert(("response.output_item.added"@).len() != ("response.function_call_arguments.delta"@).len());
    assert(("response.output_item.done"@).len() != ("response.function_call_arguments.delta"@).len());
    assert(("response.output_item.done"@).len() != ("response.output_item.added"@).len());
}

/// An added item that is a function call, with an id and a name, starts
/// that call.
pub proof fn lemma_added_call_starts(
    payload: DocValue,
    r: Result<Option<SsePayloadEvent>, String>,
)
    requires
        field_of(payload, "item"@) matches Some(item) && str_of(field_of(item, "type"@)) == Some(
            "function_call"@,
        ) && str_of(field_of(item, "id"@)) is Some && str_of(field_of(item, "name"@)) is Some,
        decodes("response.output_item.added"@, payload, r),
    ensures
        r matches Ok(Some(SsePayloadEvent::ToolCallStart { call_id, name })) && Some(call_id@) == str_of(
            field_of(field_of(payload, "item"@)->Some_0, "id"@),
        ) && Some(name@) == str_of(field_of(field_of(payload, "item"@)->Some_0, "name"@)),
{
    reveal_strlit("response.output_item.added");
    reveal_strlit("response.output_text.delta");
    reveal_strlit("response.function_call_arguments.delta");
    assert(("response.output_item.added"@)[16] != ("response.output_text.delta"@)[16]);
    assert(("response.output_item.added"@).len() != ("response.function_call_arguments.delta"@).len());
}

/// Reads the payload of a streamed response event named `event_name`: a
/// text delta; a function call's argument delta; the start of a function
/// call; the end of one with its arguments as text; or nothing for other
/// events and items. A missing field of a function-call event is an error
/// naming it.
pub fn decode_response_event(event_name: &str, payload: &DocValue) -> (r: Result<
    Option<SsePayloadEvent>,
    String,
>)
    ensures
        decodes(event_name@, *payload, r),

{
    if str_eq(event_name, "response.output_text.delta") {
        return match doc_str(doc_field(payload, "delta")) {
            Some(d) => Ok(Some(SsePayloadEvent::Text(d.clone()))),
            None => Ok(None),
        };
    }
    if str_eq(event_name, "response.function_call_arguments.delta") {
        let call_id = match required(payload, "item_id", "missing item_id in function call delta event") {
            Ok(v) => v,
            Err(e) => {
                return Err(e);
            },
        };
        let name = match required(payload, "name", "missing name in function call delta event") {
            Ok(v) => v,
            Err(e) => {
                return Err(e);
            },
        };
        let arguments_delta = match required(
            payload,
            "delta",
            "missing delta in function call delta event",
        ) {
            Ok(v) => v,
            Err(e) => {
                return Err(e);
            },
        };
        return Ok(Some(SsePayloadEvent::ToolCallDelta { call_id, name, arguments_delta }));
    }
    if str_eq(event_name, "response.output_item.added") {
        let item = match doc_field(payload, "item") {
            Some(i) => i,
            None => {
                return Err("missing item in output item added event".to_owned());
            },
        };
        let is_call = match doc_str(doc_field(item, "type")) {
            Some(t) => str_eq(t.as_str(), "function_call"),
            None => false,
        };
        if !is_call {
            return Ok(None);
        }
        let call_id = match required(item, "id", "missing function call id in output item added event") {
            Ok(v) => v,
            Err(e) => {
                return Err(e);
            },
        };
        let name = match required(
            item,
            "name",
            "missing function call name in output item added event",
        ) {
            Ok(v) => v,
            Err(e) => {
                return Err(e);
            },
        };
        return Ok(Some(SsePayloadEvent::ToolCallStart { call_id, name }));
    }
    if str_eq(event_name, "response.output_item.done") {
        let item = match doc_field(payload, "item") {
            Some(i) => i,
            None => {
                return Err("missing item in output item done event".to_owned());
            },
        };
        let is_call = match doc_str(doc_field(item, "type")) {
            Some(t) => str_eq(t.as_str(), "function_call"),
            None => false,
        };
        if !is_call {
            return Ok(None);
        }
        let name = match required(
            item,
            "name",
            "missing function call name in output item done event",
        ) {
            Ok(v) => v,
            Err(e) => {
                return Err(e);
            },
        };
        let arguments_text = match required(
            item,
            "arguments",
            "missing arguments in function call done event",
        ) {
            Ok(v) => v,
            Err(e) => {
                return Err(e);
            },
        };
        let call_id = match doc_str(doc_field(item, "call_id")) {
            Some(c) => Some(c.clone()),
            None => None,
        };
        return Ok(Some(SsePayloadEvent::ToolCallDone { call_id, name, arguments_text }));
    }
    Ok(None)
}

/// The message of an event whose payload is not JSON.
pub open spec fn payload_error(event_name: Seq<char>) -> Seq<char> {
    "failed to parse OpenAI SSE payload for event '"@ + event_name + "'"@
}

/// The message of a finished function call whose arguments are not JSON.
pub open spec fn arguments_error() -> Seq<char> {
    "failed to parse function call arguments as JSON"@
}

/// The response event a decoded payload event becomes: the same event, but
/// a finished function call carries its arguments read as JSON, and fails
/// when they are not JSON.
pub open spec fn completes(e: SsePayloadEvent, r: Result<OpenAiResponseEvent, String>) -> bool {
    match e {
        SsePayloadEvent::Text(t) => r == Ok::<OpenAiResponseEvent, String>(OpenAiResponseEvent::Text(t)),
        SsePayloadEvent::ToolCallStart { call_id, name } => r == Ok::<OpenAiResponseEvent, String>(
            OpenAiResponseEvent::ToolCallStart { call_id, name },
        ),
        SsePayloadEvent::ToolCallDelta { call_id, name, arguments_delta } => r == Ok::<
            OpenAiResponseEvent,
            String,
        >(OpenAiResponseEvent::ToolCallDelta { call_id, name, arguments_delta }),
        SsePayloadEvent::ToolCallDone { call_id, name, arguments_text } => match json_document(
            arguments_text@,
        ) {
            Ok(arguments) => r == Ok::<OpenAiResponseEvent, String>(
                OpenAiResponseEvent::ToolCall(OpenAiToolCall { call_id, name, arguments }),
            ),
            Err(_) => r matches Err(m) && m@ == arguments_error(),
        },
    }
}

/// The complete function call of a finished one, given what reading its
/// arguments as JSON gave: the call with those arguments, or the error
/// saying they are not JSON.
pub fn tool_call_from_done(
    call_id: Option<String>,
    name: String,
    arguments: Result<DocValue, String>,
) -> (r: Result<OpenAiResponseEvent, String>)
    ensures
        match arguments {
            Ok(a) => r == Ok::<OpenAiResponseEvent, String>(
                OpenAiResponseEvent::ToolCall(OpenAiToolCall { call_id, name, arguments: a }),
            ),
            Err(_) => r matches Err(m) && m@ == arguments_error(),
        },
{
    match arguments {
        Ok(a) => Ok(OpenAiResponseEvent::ToolCall(OpenAiToolCall { call_id, name, arguments: a })),
        Err(_) => Err("failed to parse function call arguments as JSON".to_owned()),
    }
}

/// Completes a decoded payload event: a finished function call gets its
/// arguments read as JSON.
pub fn complete_event(e: SsePayloadEvent) -> (r: Result<OpenAiResponseEvent, String>)
    ensures
        completes(e, r),
{
    match e {
        SsePayloadEvent::Text(t) => Ok(OpenAiResponseEvent::Text(t)),
        SsePayloadEvent::ToolCallStart { call_id, name } => Ok(
            OpenAiResponseEvent::ToolCallStart { call_id, name },
        ),
        SsePayloadEvent::ToolCallDelta { call_id, name, arguments_delta } => Ok(
            OpenAiResponseEvent::ToolCallDelta { call_id, name, arguments_delta },
        ),
        SsePayloadEvent::ToolCallDone { call_id, name, arguments_text } => {
            let parsed = parse_json(arguments_text.as_str());
            tool_call_from_done(call_id, name, parsed)
        },
    }
}

/// What a streamed block gives once its payload was decoded as `p`: the
/// decoding's error, nothing, or its event completed.
pub open spec fn block_outcome(
    p: Result<Option<SsePayloadEvent>, String>,
    r: Result<Option<OpenAiResponseEvent>, String>,
) -> bool {
    match p {
        Err(e) => r matches Err(m) && m@ == e@,
        Ok(None) => r matches Ok(None),
        Ok(Some(ev)) => match r {
            Ok(Some(x)) => completes(ev, Ok::<OpenAiResponseEvent, String>(x)),
            Ok(None) => false,
            Err(m) => completes(ev, Err::<OpenAiResponseEvent, String>(m)),
        },
    }
}

/// The response event a server-sent event block carries: nothing for a
/// block without an event name, the `done` event or blank data; an error
/// when the data is not JSON; otherwise its payload decoded and completed.
pub fn parse_sse_block(block: &str) -> (r: Result<Option<OpenAiResponseEvent>, String>)
    ensures
        match sse_frame_of(block@) {
            None => r matches Ok(None),
            Some((n, d)) => match json_document(d) {
                Err(_) => r matches Err(m) && m@ == payload_error(n),
                Ok(payload) => exists|p: Result<Option<SsePayloadEvent>, String>|
                    #[trigger] decodes(n, payload, p) && block_outcome(p, r),
            },
        },
{
    let (name, data) = match sse_frame(block) {
        Some(f) => f,
        None => {
            return Ok(None);
        },
    };
    let payload = match parse_json(data.as_str()) {
        Ok(v) => v,
        Err(_) => {
            let mut m = "failed to parse OpenAI SSE payload for event '".to_owned();
            string_push_str(&mut m, name.as_str());
            string_push(&mut m, '\'');
            proof {
                reveal_strlit("failed to parse OpenAI SSE payload for event '");
                reveal_strlit("'");
            }
            assert(m@ =~= payload_error(name@));
            return Err(m);
        },
    };
    let decoded = decode_response_event(name.as_str(), &payload);
    let ghost p = decoded;
    let r = match decoded {
        Err(e) => Err(e),
        Ok(None) => Ok(None),
        Ok(Some(ev)) => match complete_event(ev) {
            Ok(x) => Ok(Some(x)),
            Err(m) => Err(m),
        },
    };
    assert(decodes(name@, payload, p) && block_outcome(p, r));
    r
}

/// The byte length of a character in UTF-8.
pub open spec fn utf8_len(c: char) -> nat {
    if (c as u32) < 0x80 {
        1
    } else if (c as u32) < 0x800 {
        2
    } else if (c as u32) < 0x10000 {
        3
    } else {
        4
    }
}

/// The byte length of a string in UTF-8.
pub open spec fn utf8_size(s: Seq<char>) -> nat
    decreases s.len(),
{
    if s.len() == 0 {
        0
    } else {
        utf8_size(s.drop_last()) + utf8_len(s.last())
    }
}

/// The longest error body kept, in bytes.
pub const MAX_ERROR_BODY_BYTES: usize = 2000;

/// An error body as it is reported: trimmed; a notice when empty; cut to
/// its first `MAX_ERROR_BODY_BYTES` bytes, marked with `...`, when longer.
/// The cut falls on a character boundary: a body whose first
/// `MAX_ERROR_BODY_BYTES` bytes end inside a character is not accepted.
pub open spec fn error_summary(body: Seq<char>, n: int) -> Seq<char> {
    let t = trim(body);
    if t.len() == 0 {
        "<empty response body>"@
    } else if utf8_size(t) <= MAX_ERROR_BODY_BYTES {
        t
    } else {
        t.take(n) + "..."@
    }
}

proof fn lemma_utf8_size_prefix(s: Seq<char>, i: int)
    requires
        0 <= i < s.len(),
    ensures
        utf8_size(s.take(i + 1)) == utf8_size(s.take(i)) + utf8_len(s[i]),
{
    assert(s.take(i + 1).drop_last() =~= s.take(i));
}

/// A summary of an error response body; see `error_summary`.
pub fn summarize_error_body(body: &str) -> (r: String)
    requires
        utf8_size(trim(body@)) <= MAX_ERROR_BODY_BYTES || exists|n: int|
            0 <= n <= trim(body@).len() && utf8_size(#[trigger] trim(body@).take(n))
                == MAX_ERROR_BODY_BYTES,
    ensures
        exists|n: int|
            0 <= n <= trim(body@).len() && (utf8_size(trim(body@)) > MAX_ERROR_BODY_BYTES ==> utf8_size(
                #[trigger] trim(body@).take(n),
            ) == MAX_ERROR_BODY_BYTES) && r@ == error_summary(body@, n),
{
    let t = crate::text::trimmed_chars(body);
    let ghost ts = t@;
    if t.len() == 0 {
        let r = "<empty response body>".to_owned();
        proof {
            assert(ts.len() == 0);
            assert(utf8_size(ts) == 0);
            assert(r@ == error_summary(body@, 0));
            let w: int = 0;
            assert(utf8_size(trim(body@).take(w)) == 0);
        }
        return r;
    }
    let mut size: usize = 0;
    let mut i: usize = 0;
    assert(ts.take(0) =~= Seq::<char>::empty());
    while i < t.len() && size < MAX_ERROR_BODY_BYTES
        invariant
            ts == t@,
            i <= ts.len(),
            size == utf8_size(ts.take(i as int)),
            size <= MAX_ERROR_BODY_BYTES + 3,
            i > 0 ==> utf8_size(ts.take(i - 1)) < MAX_ERROR_BODY_BYTES,
        decreases ts.len() - i,
    {
        proof {
            lemma_utf8_size_prefix(ts, i as int);
        }
        let c = t[i];
        let w: usize = if (c as u32) < 0x80 {
            1
        } else if (c as u32) < 0x800 {
            2
        } else if (c as u32) < 0x10000 {
            3
        } else {
            4
        };
        size = size + w;
        i = i + 1;
    }
    if i == t.len() && size <= MAX_ERROR_BODY_BYTES {
        assert(ts.take(i as int) =~= ts);
        let r = string_from_chars(t.as_slice());
        assert(r@ == error_summary(body@, i as int));
        assert(0 <= i <= trim(body@).len() && (utf8_size(trim(body@)) > MAX_ERROR_BODY_BYTES
            ==> utf8_size(trim(body@).take(i as int)) == MAX_ERROR_BODY_BYTES) && r@
            == error_summary(body@, i as int));
        return r;
    }
    // the body is longer than the limit; the first `i` characters take it exactly
    proof {
        lemma_utf8_size_monotone(ts, i as int);
        assert(utf8_size(ts) > MAX_ERROR_BODY_BYTES);
        if size != MAX_ERROR_BODY_BYTES {
            let n = choose|n: int|
                0 <= n <= ts.len() && utf8_size(#[trigger] ts.take(n)) == MAX_ERROR_BODY_BYTES;
            lemma_utf8_size_strict(ts, n, i as int);
            if n < i {
                if n < i - 1 {
                    lemma_utf8_size_strict(ts, n, i - 1);
                }
            }
        }
    }
    let mut prefix: Vec<char> = Vec::new();
    let mut j: usize = 0;
    while j < i
        invariant
            j <= i <= ts.len(),
            ts == t@,
            prefix@ == ts.take(j as int),
        decreases i - j,
    {
        prefix.push(t[j]);
        assert(prefix@ =~= ts.take(j + 1));
        j = j + 1;
    }
    let mut r = string_from_chars(prefix.as_slice());
    crate::text::string_push_str(&mut r, "...");
    assert(utf8_size(ts) > MAX_ERROR_BODY_BYTES);
    assert(utf8_size(ts.take(i as int)) == MAX_ERROR_BODY_BYTES);
    assert(r@ == error_summary(body@, i as int));
    assert(0 <= i <= trim(body@).len() && (utf8_size(trim(body@)) > MAX_ERROR_BODY_BYTES
        ==> utf8_size(trim(body@).take(i as int)) == MAX_ERROR_BODY_BYTES) && r@ == error_summary(
        body@,
        i as int,
    ));
    r
}

/// Sizes grow with prefixes.
proof fn lemma_utf8_size_monotone(s: Seq<char>, i: int)
    requires
        0 <= i <= s.len(),
    ensures
        utf8_size(s.take(i)) <= utf8_size(s),
        i < s.len() ==> utf8_size(s.take(i)) < utf8_size(s),
    decreases s.len() - i,
{
    if i < s.len() {
        lemma_utf8_size_prefix(s, i);
        lemma_utf8_size_monotone(s, i + 1);
    } else {
        assert(s.take(i) =~= s);
    }
}

/// Between two prefixes, the longer is bigger.
proof fn lemma_utf8_size_strict(s: Seq<char>, a: int, b: int)
    requires
        0 <= a <= s.len(),
        0 <= b <= s.len(),
        a != b,
    ensures
        a < b ==> utf8_size(s.take(a)) < utf8_size(s.take(b)),
        b < a ==> utf8_size(s.take(b)) < utf8_size(s.take(a)),
{
    if a < b {
        lemma_utf8_size_monotone(s.take(b), a);
        assert(s.take(b).take(a) =~= s.take(a));
    } else {
        lemma_utf8_size_monotone(s.take(a), b);
        assert(s.take(a).take(b) =~= s.take(b));
    }
}

} // verus!