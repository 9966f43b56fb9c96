use pera::orchestrator::types::ParticipantId;
use pera::repl::output::{console_line_events, display_status, TransportOutputPolicy};
use pera::repl::render::ConsoleRenderer;
use pera::repl::transport::{InboundTransportEvent, OutboundTransportEvent};
use pera::agents::workspace::WorkspaceAction;

#[test]
fn console_streams_a_message_after_its_spinner() {
    let mut console = ConsoleRenderer::new();
    let agent = ParticipantId::Agent;
    assert_eq!(
        console.on_event(&OutboundTransportEvent::MessageStarted { participant: agent.clone() }),
        "\ragent> .  "
    );
    assert!(console.spinner_active());
    assert_eq!(console.on_tick(), "\ragent> .. ");
    assert_eq!(
        console.on_event(&OutboundTransportEvent::MessageDelta {
            participant: agent.clone(),
            text: "Hi".to_owned(),
        }),
        "\ragent> Hi"
    );
    assert!(!console.spinner_active());
    assert_eq!(
        console.on_event(&OutboundTransportEvent::MessageDelta {
            participant: agent.clone(),
            text: " there".to_owned(),
        }),
        " there"
    );
    assert_eq!(
        console.on_event(&OutboundTransportEvent::MessageCompleted { participant: agent }),
        "\nyou> "
    );
}

#[test]
fn console_shows_statuses_and_persisted_lines() {
    let mut console = ConsoleRenderer::new();
    let agent = ParticipantId::Agent;
    assert_eq!(
        console.on_event(&OutboundTransportEvent::Status {
            participant: agent.clone(),
            text: "working".to_owned(),
        }),
        "\r\x1b[2Kagent status> working .  "
    );
    assert_eq!(console.on_tick(), "\r\x1b[2Kagent status> working .. ");
    assert_eq!(
        console.on_event(&OutboundTransportEvent::ActionPlanned {
            participant: agent.clone(),
            action: "load skill git".to_owned(),
        }),
        "\r\x1b[2K\r\x1b[2Kagent action> load skill git\nyou> "
    );
    assert!(!console.spinner_active());
    assert_eq!(
        console.on_event(&OutboundTransportEvent::ToolCallCompleted {
            participant: ParticipantId::Custom("x".to_owned()),
            tool_name: "load_skill".to_owned(),
        }),
        "\r\x1b[2K\x1b[36mparticipant debug> tool load_skill ready\x1b[0m\nyou> "
    );
}

#[test]
fn console_output_hides_code_and_names_skill_actions() {
    let policy = TransportOutputPolicy { show_tool_events: false };
    let agent = ParticipantId::Agent;
    assert_eq!(display_status("executing code"), "working");
    assert_eq!(display_status("skill action claimed by worker-1"), "working");
    assert_eq!(display_status("loading skill git"), "loading skill git");
    assert!(policy.tool_call_start(&agent, "load_skill").is_none());
    assert!(policy
        .action_planned(
            &agent,
            &WorkspaceAction::ExecuteCode { language: "python".to_owned(), source: "1".to_owned() }
        )
        .is_none());
    assert_eq!(
        policy.action_planned(&agent, &WorkspaceAction::LoadSkill { skill_name: "git".to_owned() }),
        Some(OutboundTransportEvent::ActionPlanned {
            participant: agent.clone(),
            action: "load skill git".to_owned(),
        })
    );
}

#[test]
fn typed_lines_become_input_events() {
    let (events, exit) = console_line_events("hi");
    assert_eq!(
        events,
        vec![
            InboundTransportEvent::InputStarted,
            InboundTransportEvent::InputDelta("h".to_owned()),
            InboundTransportEvent::InputDelta("i".to_owned()),
            InboundTransportEvent::InputCommitted,
        ]
    );
    assert!(!exit);
    assert!(console_line_events("  /exit ").1);
}

use pera::evals::document::DocValue;
use pera::llm::types::{LlmRequest, LlmToolDefinition, PromptMessage, PromptMessageMetadata};
use pera::repl::debug::request_document;

fn text_doc(v: &str) -> DocValue {
    DocValue::String(v.to_owned())
}

fn mapping(entries: Vec<(&str, DocValue)>) -> DocValue {
    DocValue::Mapping(entries.into_iter().map(|(k, v)| (text_doc(k), v)).collect())
}

fn message_doc(role: &str, content_type: &str, text: &str) -> DocValue {
    mapping(vec![
        ("type", text_doc("message")),
        ("role", text_doc(role)),
        (
            "content",
            DocValue::Sequence(vec![mapping(vec![
                ("type", text_doc(content_type)),
                ("text", text_doc(text)),
            ])]),
        ),
    ])
}

#[test]
fn debug_request_lists_system_prompt_messages_and_tools() {
    let request = LlmRequest {
        system_prompt: "Be brief.".to_owned(),
        messages: vec![
            PromptMessage { role: "user".to_owned(), content: "hi".to_owned(), metadata: None },
            PromptMessage { role: "assistant".to_owned(), content: "hello".to_owned(), metadata: None },
            PromptMessage { role: "tool".to_owned(), content: "odd".to_owned(), metadata: None },
            PromptMessage {
                role: "assistant".to_owned(),
                content: String::new(),
                metadata: Some(PromptMessageMetadata::ToolCall {
                    call_id: "c1".to_owned(),
                    name: "execute_code".to_owned(),
                    arguments: mapping(vec![("source", text_doc("1"))]),
                }),
            },
            PromptMessage {
                role: "tool".to_owned(),
                content: String::new(),
                metadata: Some(PromptMessageMetadata::ToolResult {
                    call_id: "c1".to_owned(),
                    name: "execute_code".to_owned(),
                    output: DocValue::Bool(true),
                }),
            },
        ],
        tools: vec![LlmToolDefinition {
            name: "execute_code".to_owned(),
            description: "Run code.".to_owned(),
            input_schema: mapping(vec![("type", text_doc("object"))]),
        }],
    };
    let doc = request_document(Some("gpt-test"), &request);
    let expected = mapping(vec![
        ("model", text_doc("gpt-test")),
        ("stream", DocValue::Bool(true)),
        (
            "input",
            DocValue::Sequence(vec![
                message_doc("system", "input_text", "Be brief."),
                message_doc("user", "input_text", "hi"),
                message_doc("assistant", "output_text", "hello"),
                message_doc("user", "input_text", "odd"),
                mapping(vec![
                    ("type", text_doc("function_call")),
                    ("call_id", text_doc("c1")),
                    ("name", text_doc("execute_code")),
                    ("arguments", mapping(vec![("source", text_doc("1"))])),
                ]),
                mapping(vec![
                    ("type", text_doc("function_call_output")),
                    ("call_id", text_doc("c1")),
                    ("output", DocValue::Bool(true)),
                ]),
            ]),
        ),
        (
            "tools",
            DocValue::Sequence(vec![mapping(vec![
                ("type", text_doc("function")),
                ("name", text_doc("execute_code")),
                ("description", text_doc("Run code.")),
                ("parameters", mapping(vec![("type", text_doc("object"))])),
            ])]),
        ),
    ]);
    assert_eq!(doc, expected);
}

#[test]
fn debug_request_without_model_or_tools_leaves_them_out() {
    let request = LlmRequest { system_prompt: "S".to_owned(), messages: Vec::new(), tools: Vec::new() };
    assert_eq!(
        request_document(None, &request),
        mapping(vec![
            ("stream", DocValue::Bool(true)),
            ("input", DocValue::Sequence(vec![message_doc("system", "input_text", "S")])),
        ])
    );
}

use pera::orchestrator::types::ParticipantDecision;
use pera::repl::human::HumanInput;

#[test]
fn typed_input_becomes_the_persons_message() {
    let mut input = HumanInput::new();
    assert!(input.on_event::<()>(Some(InboundTransportEvent::InputStarted)).is_none());
    assert!(input.on_event::<()>(Some(InboundTransportEvent::InputDelta("  hi".to_owned()))).is_none());
    assert!(input.on_event::<()>(Some(InboundTransportEvent::InputDelta(" there\n".to_owned()))).is_none());
    match input.on_event::<()>(Some(InboundTransportEvent::InputCommitted)) {
        Some(ParticipantDecision::FinalMessage { content }) => assert_eq!(content, "hi there"),
        _ => panic!("a committed line is the person's message"),
    }
    assert!(input.on_event::<()>(Some(InboundTransportEvent::InputStarted)).is_none());
    assert!(input.on_event::<()>(Some(InboundTransportEvent::InputDelta(" /exit ".to_owned()))).is_none());
    assert!(matches!(
        input.on_event::<()>(Some(InboundTransportEvent::InputCommitted)),
        Some(ParticipantDecision::Finish)
    ));
    assert!(matches!(input.on_event::<()>(None), Some(ParticipantDecision::Finish)));
    assert!(matches!(
        input.on_event::<()>(Some(InboundTransportEvent::Shutdown)),
        Some(ParticipantDecision::Finish)
    ));
}
