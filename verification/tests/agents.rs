use pera::agents::decision::{
    extract_skill_name_hint, map_tool_call_to_decision, status_for_tool_delta,
    status_for_tool_start, AgentOutput, AgentTurn,
};
use pera::agents::prompt::{
    prompt_messages, CodePromptBuilder, PromptContext, ProviderBackedPromptBuilder,
};
use pera::agents::workspace::{
    AgentWorkspaceTool, WorkspaceAction, WorkspaceActiveSkill, WorkspaceAvailableSkill,
    WorkspaceObservation, WorkspaceOutcome,
};
use pera::domain::ids::{ActionId, RunId, WorkItemId};
use pera::domain::value::Value;
use pera::evals::document::{DocNumber, DocValue};
use pera::llm::types::{LlmStreamEvent, LlmToolCall, PromptMessage, PromptMessageMetadata};
use pera::orchestrator::types::{
    ActionError, ActionErrorOrigin, ActionExecution, ParticipantDecision, ParticipantId,
    ParticipantInboxEvent, ParticipantInput, RunLimits, TaskSpec, Trajectory, TrajectoryEvent,
    WorkItem,
};

fn s(v: &str) -> DocValue {
    DocValue::String(v.to_owned())
}

fn object(entries: &[(&str, DocValue)]) -> DocValue {
    DocValue::Mapping(entries.iter().map(|(k, v)| (s(k), v.clone())).collect())
}

fn get<'a>(doc: &'a DocValue, key: &str) -> Option<&'a DocValue> {
    match doc {
        DocValue::Mapping(entries) => entries
            .iter()
            .find(|(k, _)| matches!(k, DocValue::String(name) if name == key))
            .map(|(_, v)| v),
        _ => None,
    }
}

fn get_str<'a>(doc: &'a DocValue, key: &str) -> Option<&'a str> {
    match get(doc, key) {
        Some(DocValue::String(v)) => Some(v.as_str()),
        _ => None,
    }
}

/// The compact JSON text of a document built from strings, lists and
/// objects.
fn json_text(doc: &DocValue) -> String {
    match doc {
        DocValue::String(v) => format!("{v:?}"),
        DocValue::Sequence(items) => {
            format!("[{}]", items.iter().map(json_text).collect::<Vec<_>>().join(","))
        }
        DocValue::Mapping(entries) => format!(
            "{{{}}}",
            entries
                .iter()
                .map(|(k, v)| format!("{}:{}", json_text(k), json_text(v)))
                .collect::<Vec<_>>()
                .join(",")
        ),
        DocValue::Null => "null".to_owned(),
        DocValue::Bool(b) => b.to_string(),
        _ => panic!("unexpected document"),
    }
}

fn call(name: &str, arguments: DocValue) -> LlmToolCall {
    LlmToolCall { call_id: None, name: name.to_owned(), arguments }
}

#[test]
fn maps_load_skill_tool_call_to_action() {
    let decision =
        map_tool_call_to_decision(call("load_skill", object(&[("skill_name", s("secret-service"))])))
            .unwrap();

    assert_eq!(
        decision,
        ParticipantDecision::Action {
            message: None,
            action: WorkspaceAction::LoadSkill { skill_name: "secret-service".to_owned() },
            execution: ActionExecution::Immediate,
        }
    );
}

#[test]
fn maps_unload_skill_tool_call_to_action() {
    let decision = map_tool_call_to_decision(call(
        "unload_skill",
        object(&[("skill_name", s("secret-service"))]),
    ))
    .unwrap();

    assert_eq!(
        decision,
        ParticipantDecision::Action {
            message: None,
            action: WorkspaceAction::UnloadSkill { skill_name: "secret-service".to_owned() },
            execution: ActionExecution::Immediate,
        }
    );
}

#[test]
fn maps_execute_code_tool_call_to_action() {
    let decision = map_tool_call_to_decision(call(
        "execute_code",
        object(&[
            ("language", s("python")),
            ("source", s("print(1)")),
            ("handoff_user_message", s("Running a quick check.")),
        ]),
    ))
    .unwrap();

    assert_eq!(
        decision,
        ParticipantDecision::Action {
            message: None,
            action: WorkspaceAction::ExecuteCode {
                language: "python".to_owned(),
                source: "print(1)".to_owned(),
            },
            execution: ActionExecution::DeferredBlocking,
        }
    );
}

#[test]
fn unknown_tools_and_missing_arguments_are_errors() {
    let err = map_tool_call_to_decision(call("teleport", object(&[]))).unwrap_err();
    assert_eq!(err.message, "unsupported tool call 'teleport'");
    let err = map_tool_call_to_decision(call("load_skill", object(&[("skill_name", DocValue::Null)])))
        .unwrap_err();
    assert_eq!(err.message, "tool call is missing string field 'skill_name'");
    let err = map_tool_call_to_decision(call("execute_code", object(&[("language", s("python"))])))
        .unwrap_err();
    assert_eq!(err.message, "tool call is missing string field 'source'");
}

#[test]
fn statuses_follow_the_streamed_tool_call() {
    assert_eq!(status_for_tool_start("load_skill"), "preparing skill load");
    assert_eq!(status_for_tool_start("fetch"), "preparing tool call: fetch");
    assert_eq!(extract_skill_name_hint("{\"skill_name\": \"git\"}"), Some("git".to_owned()));
    assert_eq!(extract_skill_name_hint("{\"skill_name\": \"gi"), None);
    assert_eq!(extract_skill_name_hint("{\"other\": 1}"), None);
    assert_eq!(
        status_for_tool_delta("unload_skill", "{\"skill_name\":\"sqlite\""),
        Some("unloading skill sqlite".to_owned())
    );
    assert_eq!(status_for_tool_delta("execute_code", "{\"skill_name\":\"sqlite\""), None);
}

#[test]
fn agent_turn_shows_text_and_ends_with_the_final_message() {
    let mut turn = AgentTurn::new();
    assert_eq!(
        turn.on_event(LlmStreamEvent::Text("Hello".to_owned())),
        vec![AgentOutput::MessageDelta("Hello".to_owned())]
    );
    let (outputs, decision) = turn.finish();
    assert_eq!(outputs, vec![AgentOutput::MessageEnd]);
    assert_eq!(decision.unwrap(), ParticipantDecision::FinalMessage { content: "Hello".to_owned() });
}

#[test]
fn agent_turn_marks_an_empty_reply() {
    let turn = AgentTurn::new();
    let (outputs, decision) = turn.finish();
    assert_eq!(
        outputs,
        vec![AgentOutput::MessageDelta("[empty response]".to_owned()), AgentOutput::MessageEnd]
    );
    assert_eq!(
        decision.unwrap(),
        ParticipantDecision::FinalMessage { content: "[empty response]".to_owned() }
    );
}

#[test]
fn agent_turn_hands_off_before_running_code() {
    let mut turn = AgentTurn::new();
    let started = turn.on_event(LlmStreamEvent::ToolCallStart {
        call_id: "c1".to_owned(),
        name: "execute_code".to_owned(),
    });
    assert_eq!(
        started,
        vec![
            AgentOutput::StatusUpdate("preparing code execution".to_owned()),
            AgentOutput::ToolCallStart("execute_code".to_owned()),
        ]
    );
    let ended = turn.on_event(LlmStreamEvent::ToolCall(call(
        "execute_code",
        object(&[
            ("language", s("python")),
            ("source", s("1 + 1")),
            ("handoff_user_message", s("Adding.")),
        ]),
    )));
    assert_eq!(ended, vec![AgentOutput::ToolCallEnd("execute_code".to_owned())]);
    let (outputs, decision) = turn.finish();
    assert_eq!(
        outputs,
        vec![
            AgentOutput::MessageEnd,
            AgentOutput::MessageStart,
            AgentOutput::MessageDelta("Adding.".to_owned()),
            AgentOutput::MessageEnd,
        ]
    );
    assert!(matches!(
        decision.unwrap(),
        ParticipantDecision::Action { action: WorkspaceAction::ExecuteCode { .. }, .. }
    ));
}

#[test]
fn agent_turn_announces_a_skill_load() {
    let mut turn = AgentTurn::new();
    turn.on_event(LlmStreamEvent::ToolCall(call(
        "load_skill",
        object(&[("skill_name", s("git"))]),
    )));
    let (outputs, _) = turn.finish();
    assert_eq!(
        outputs,
        vec![AgentOutput::MessageEnd, AgentOutput::StatusUpdate("loading skill git".to_owned())]
    );
}

fn limits() -> RunLimits {
    RunLimits {
        max_steps: 10,
        max_steps_per_agent_loop: 10,
        max_actions: 10,
        max_messages: 10,
        max_failed_actions: None,
        max_consecutive_failed_actions: None,
        max_blocked_action_wait_ms: None,
        max_duration_ms: Some(10_000),
    }
}

fn empty_observation() -> WorkspaceObservation {
    WorkspaceObservation { available_tools: vec![], available_skills: vec![], active_skills: vec![] }
}

fn input(
    content: &str,
    observation: WorkspaceObservation,
    inbox: Vec<ParticipantInboxEvent<WorkspaceAction, WorkspaceOutcome>>,
    events: Vec<TrajectoryEvent<WorkspaceObservation, WorkspaceAction, WorkspaceOutcome>>,
) -> ParticipantInput<WorkspaceObservation, WorkspaceAction, WorkspaceOutcome> {
    ParticipantInput {
        run_id: RunId { value: 1 },
        agent_loop_id: WorkItemId { value: 2 },
        agent_loop_iteration: 1,
        participant: ParticipantId::Agent,
        work_item: Some(WorkItem {
            id: WorkItemId { value: 3 },
            from: ParticipantId::User,
            content: content.to_owned(),
        }),
        task: TaskSpec { id: "task".to_owned(), instructions: "Do the work".to_owned() },
        limits: limits(),
        observation,
        inbox,
        trajectory: Trajectory { run_id: RunId { value: 4 }, events },
    }
}

fn tool_result<'a>(messages: &'a [PromptMessage], name: &str) -> Option<&'a PromptMessage> {
    messages.iter().find(|m| {
        matches!(&m.metadata, Some(PromptMessageMetadata::ToolResult { name: n, .. }) if n == name)
    })
}

#[test]
fn prompt_builder_includes_available_and_active_skills() {
    let builder = ProviderBackedPromptBuilder;
    let observation = WorkspaceObservation {
        available_tools: vec![AgentWorkspaceTool {
            name: "load_skill".to_owned(),
            description: "Activate a skill.".to_owned(),
            input_schema: object(&[
                ("type", s("object")),
                ("properties", object(&[("skill_name", object(&[("type", s("string"))]))])),
                ("required", DocValue::Sequence(vec![s("skill_name")])),
            ]),
        }],
        available_skills: vec![WorkspaceAvailableSkill {
            skill_name: "sqlite".to_owned(),
            description: "Use when you need structured data queries.".to_owned(),
        }],
        active_skills: vec![WorkspaceActiveSkill {
            skill_name: "git".to_owned(),
            instructions: "Use this skill for repository inspection.".to_owned(),
            python_stub: "def status() -> str: ...".to_owned(),
        }],
    };
    let input = input(
        "Help me inspect the repo",
        observation,
        vec![ParticipantInboxEvent::Message {
            from: ParticipantId::User,
            content: "Help me inspect the repo".to_owned(),
        }],
        vec![TrajectoryEvent::ParticipantMessage {
            participant: ParticipantId::User,
            content: "Help me inspect the repo".to_owned(),
        }],
    );

    let context = builder.build_context(&input);
    let prompt = builder.build_system_prompt(&context);
    let task_message = builder.build_user_task_message(&context).unwrap();

    assert!(prompt.contains("You are a helpful assistant that solves user tasks."));
    assert!(prompt.contains("Skills are instruction packages that extend agent capabilities."));
    assert!(prompt.contains("The prompt includes a user message with:"));
    assert!(prompt.contains("<available-skills>"));
    assert!(prompt.contains("- name: sqlite"));
    assert!(prompt.contains("when_to_use: Use when you need structured data queries."));
    assert!(prompt.contains("</available-skills>"));
    assert!(!prompt.contains("Use this skill for repository inspection."));
    assert!(!prompt.contains("def status() -> str: ..."));
    assert_eq!(task_message.role, "user");
    assert!(task_message.content.contains("<task>"));
    assert!(task_message.content.contains("Help me inspect the repo"));
    assert!(task_message.content.contains("<declarations>"));
    assert!(task_message.content.contains("def status() -> str: ..."));
}

#[test]
fn task_message_has_exact_layout() {
    let builder = ProviderBackedPromptBuilder;
    let mut observation = empty_observation();
    observation.active_skills = vec![
        WorkspaceActiveSkill {
            skill_name: "a".to_owned(),
            instructions: String::new(),
            python_stub: "  def a() -> int: ...\n".to_owned(),
        },
        WorkspaceActiveSkill {
            skill_name: "b".to_owned(),
            instructions: String::new(),
            python_stub: "   ".to_owned(),
        },
    ];
    let context = builder.build_context(&input("Do it", observation, vec![], vec![]));
    let message = builder.build_user_task_message(&context).unwrap();
    assert_eq!(
        message.content,
        "<task>\nDo it\n</task>\n\n<declarations>\n```python\ndef a() -> int: ...\n```\n</declarations>\n"
    );
    let prompt = builder.build_system_prompt(&context);
    assert!(prompt.contains("<available-skills>\nno skill available\n</available-skills>\n"));
}

#[test]
fn prompt_messages_include_assistant_handoff_and_code_block() {
    let builder = ProviderBackedPromptBuilder;
    let input = input(
        "Check something",
        empty_observation(),
        vec![],
        vec![
            TrajectoryEvent::ParticipantMessage {
                participant: ParticipantId::User,
                content: "Check something".to_owned(),
            },
            TrajectoryEvent::ParticipantMessage {
                participant: ParticipantId::Agent,
                content: "Running a quick check.".to_owned(),
            },
            TrajectoryEvent::ActionRequested {
                participant: ParticipantId::Agent,
                action: WorkspaceAction::ExecuteCode {
                    language: "python".to_owned(),
                    source: "result = 1 + 1\nresult".to_owned(),
                },
                execution: ActionExecution::DeferredBlocking,
            },
        ],
    );

    let context = builder.build_context(&input);
    assert!(context.transcript.iter().any(|message| message.content == "Running a quick check."));
    assert!(context.transcript.iter().any(|message| matches!(
        &message.metadata,
        Some(PromptMessageMetadata::ToolCall { name, arguments, .. })
            if name == "execute_code"
                && get_str(arguments, "source") == Some("result = 1 + 1\nresult")
    )));
}

#[test]
fn prompt_messages_render_code_execution_results_as_python() {
    let builder = ProviderBackedPromptBuilder;
    let input = input(
        "Check something",
        empty_observation(),
        vec![ParticipantInboxEvent::ActionCompleted {
            action_id: ActionId { value: 7 },
            outcome: WorkspaceOutcome::CodeExecuted {
                language: "python".to_owned(),
                result: Some(Value::List(vec![
                    Value::Record {
                        name: "meeting".to_owned(),
                        fields: vec![
                            ("city".to_owned(), Value::String("Berlin".to_owned())),
                            ("title".to_owned(), Value::String("Delta Review".to_owned())),
                        ],
                    },
                    Value::Bool(true),
                ])),
            },
        }],
        vec![],
    );

    let context = builder.build_context(&input);
    let rendered = context
        .inbox
        .iter()
        .find(|message| matches!(
            &message.metadata,
            Some(PromptMessageMetadata::ToolResult { name, output, .. })
                if name == "code_executed" && get(output, "result").is_some()
        ))
        .expect("expected code execution tool result");

    match &rendered.metadata {
        Some(PromptMessageMetadata::ToolResult { name, output, .. }) => {
            assert_eq!(name, "code_executed");
            assert_eq!(get_str(output, "language"), Some("python"));
            let result = get_str(output, "result").expect("missing string result");
            assert!(result.contains("Meeting("));
            assert!(result.contains("Delta Review"));
            assert!(result.contains("Berlin"));
            assert!(result.contains("True"));
        }
        _ => panic!("expected tool result metadata"),
    }
}

#[test]
fn prompt_transcript_persists_code_execution_results_as_system_messages() {
    let builder = ProviderBackedPromptBuilder;
    let input = input(
        "Check something",
        empty_observation(),
        vec![],
        vec![TrajectoryEvent::ActionCompleted {
            participant: ParticipantId::Agent,
            action_id: ActionId { value: 8 },
            outcome: WorkspaceOutcome::CodeExecuted {
                language: "python".to_owned(),
                result: Some(Value::List(vec![Value::Int(1), Value::String("two".to_owned())])),
            },
        }],
    );

    let context = builder.build_context(&input);
    let rendered = tool_result(&context.transcript, "code_executed")
        .expect("expected persisted code execution result in transcript");

    assert_eq!(rendered.role, "tool");
    match &rendered.metadata {
        Some(PromptMessageMetadata::ToolResult { output, .. }) => {
            assert!(json_text(output).contains("\"language\":\"python\""));
            assert!(json_text(output).contains("[1, \\\"two\\\"]"));
        }
        _ => panic!("expected tool result metadata"),
    }
}

#[test]
fn prompt_transcript_persists_non_code_action_completions() {
    let builder = ProviderBackedPromptBuilder;
    let input = input(
        "Check something",
        empty_observation(),
        vec![],
        vec![TrajectoryEvent::ActionCompleted {
            participant: ParticipantId::Agent,
            action_id: ActionId { value: 9 },
            outcome: WorkspaceOutcome::SkillLoaded { skill_name: "travel-policy".to_owned() },
        }],
    );

    let context = builder.build_context(&input);
    let rendered = tool_result(&context.transcript, "skill_loaded")
        .expect("expected persisted skill completion in transcript");

    assert_eq!(rendered.role, "tool");
}

#[test]
fn prompt_messages_include_action_failures_as_system_messages() {
    let builder = ProviderBackedPromptBuilder;
    let input = input(
        "Check something",
        empty_observation(),
        vec![],
        vec![TrajectoryEvent::ActionFailed {
            participant: ParticipantId::Agent,
            action_id: ActionId { value: 10 },
            error: ActionError {
                user_message: "Variable lookup failed".to_owned(),
                detail: "name_lookup for 'meetings'".to_owned(),
                origin: ActionErrorOrigin::Interpreter,
            },
        }],
    );

    let context = builder.build_context(&input);
    let rendered = tool_result(&context.transcript, "action_error")
        .expect("expected action error tool result in transcript");

    match &rendered.metadata {
        Some(PromptMessageMetadata::ToolResult { output, .. }) => {
            assert!(json_text(output).contains("Variable lookup failed"));
            assert!(json_text(output).contains("name_lookup for 'meetings'"));
            assert_eq!(get_str(output, "origin"), Some("Interpreter"));
        }
        _ => panic!("expected tool result metadata"),
    }
}

#[test]
fn transcript_suppresses_duplicate_inbox_action_completion() {
    let builder = ProviderBackedPromptBuilder;
    let action_id = ActionId { value: 11 };
    let load = || WorkspaceAction::LoadSkill { skill_name: "calendar-ops".to_owned() };
    let loaded = || WorkspaceOutcome::SkillLoaded { skill_name: "calendar-ops".to_owned() };
    let input = input(
        "Check something",
        empty_observation(),
        vec![ParticipantInboxEvent::ActionCompleted { action_id, outcome: loaded() }],
        vec![
            TrajectoryEvent::ActionRequested {
                participant: ParticipantId::Agent,
                action: load(),
                execution: ActionExecution::Immediate,
            },
            TrajectoryEvent::ActionScheduled {
                participant: ParticipantId::Agent,
                action_id,
                action: load(),
                execution: ActionExecution::Immediate,
            },
            TrajectoryEvent::ActionCompleted {
                participant: ParticipantId::Agent,
                action_id,
                outcome: loaded(),
            },
        ],
    );

    let context = builder.build_context(&input);

    assert!(tool_result(&context.transcript, "skill_loaded").is_some());
    assert!(tool_result(&context.inbox, "skill_loaded").is_none());
    match &context.transcript[0].metadata {
        Some(PromptMessageMetadata::ToolCall { call_id, .. }) => assert_eq!(call_id, "history-call-0"),
        _ => panic!("expected the request as a tool call"),
    }
    match &context.transcript[1].metadata {
        Some(PromptMessageMetadata::ToolResult { call_id, .. }) => assert_eq!(call_id, "history-call-0"),
        _ => panic!("expected the completion as a tool result"),
    }
}

#[test]
fn prompt_messages_drop_the_inbox_messages_the_transcript_ends_with() {
    let text = |role: &str, content: &str| PromptMessage {
        role: role.to_owned(),
        content: content.to_owned(),
        metadata: None,
    };
    let context = PromptContext {
        task_id: "t".to_owned(),
        work_item: None,
        tools: vec![],
        available_skills: vec![],
        active_skills: vec![],
        inbox: vec![text("user", "b"), text("user", "c")],
        transcript: vec![text("user", "a"), text("user", "b")],
    };
    let messages = prompt_messages(&context);
    let contents: Vec<&str> = messages.iter().map(|m| m.content.as_str()).collect();
    assert_eq!(contents, vec!["a", "b", "c"]);
}

use pera::llm::openai::take_sse_block;

#[test]
fn sse_blocks_end_at_the_first_blank_line() {
    assert_eq!(
        take_sse_block("event: a\ndata: 1\n\nevent: b"),
        Some(("event: a\ndata: 1".to_owned(), "event: b".to_owned()))
    );
    assert_eq!(take_sse_block("\n\n"), Some((String::new(), String::new())));
    assert_eq!(take_sse_block("event: a\ndata: 1\n"), None);
    assert_eq!(
        take_sse_block("x\n\n\ny"),
        Some(("x".to_owned(), "\ny".to_owned()))
    );
}

use pera::llm::openai::{parse_sse_block, OpenAiResponseEvent};

#[test]
fn sse_blocks_read_their_json_payload() {
    let block = "event: response.output_text.delta\ndata: {\"delta\": \"Hel\"}";
    match parse_sse_block(block).unwrap() {
        Some(OpenAiResponseEvent::Text(t)) => assert_eq!(t, "Hel"),
        other => panic!("unexpected event {other:?}"),
    }
    assert!(parse_sse_block("data: {}").unwrap().is_none());
    assert!(parse_sse_block("event: done\ndata: [DONE]").unwrap().is_none());
    assert!(parse_sse_block("event: response.created\ndata:  ").unwrap().is_none());
    assert!(parse_sse_block("event: response.created\ndata: {\"x\": 1}").unwrap().is_none());
}

#[test]
fn sse_blocks_with_bad_json_name_their_event() {
    let err = parse_sse_block("event: response.output_text.delta\ndata: {oops").unwrap_err();
    assert_eq!(err, "failed to parse OpenAI SSE payload for event 'response.output_text.delta'");
}

#[test]
fn finished_function_calls_carry_their_arguments_as_json() {
    let block = "event: response.output_item.done\ndata: {\"item\": {\"type\": \"function_call\", \"name\": \"execute_code\", \"call_id\": \"c1\", \"arguments\": \"{\\\"source\\\": \\\"print(1)\\\", \\\"n\\\": 2}\"}}";
    match parse_sse_block(block).unwrap() {
        Some(OpenAiResponseEvent::ToolCall(call)) => {
            assert_eq!(call.call_id.as_deref(), Some("c1"));
            assert_eq!(call.name, "execute_code");
            assert_eq!(
                call.arguments,
                DocValue::Mapping(vec![
                    (DocValue::String("n".to_owned()), DocValue::Number(DocNumber::PosInt(2))),
                    (DocValue::String("source".to_owned()), DocValue::String("print(1)".to_owned())),
                ])
            );
        }
        other => panic!("unexpected event {other:?}"),
    }
    let bad = "event: response.output_item.done\ndata: {\"item\": {\"type\": \"function_call\", \"name\": \"f\", \"arguments\": \"not json\"}}";
    assert_eq!(
        parse_sse_block(bad).unwrap_err(),
        "failed to parse function call arguments as JSON"
    );
    let missing = "event: response.output_item.done\ndata: {\"item\": {\"type\": \"function_call\", \"name\": \"f\"}}";
    assert_eq!(
        parse_sse_block(missing).unwrap_err(),
        "missing arguments in function call done event"
    );
}

use pera::orchestrator::schedule::TurnSelection;
use pera::orchestrator::state::RunState;
use pera::orchestrator::turn::{plan_turn, TurnPlan};
use pera::orchestrator::types::{FinishReason, InitialInboxMessage, TerminationCondition};

fn two_party_state(messages: Vec<InitialInboxMessage>) -> RunState<u8, u8, u8> {
    let task = TaskSpec { id: "t".to_owned(), instructions: "do".to_owned() };
    RunState::new(
        RunId { value: 1 },
        &task,
        0u8,
        vec![ParticipantId::Agent, ParticipantId::User],
        &messages,
    )
}

#[test]
fn turn_plans_pick_the_addressed_participant_then_deadlock() {
    let mut state = two_party_state(vec![InitialInboxMessage {
        to: ParticipantId::User,
        from: ParticipantId::Agent,
        content: "hi".to_owned(),
    }]);
    let mut next = 0usize;
    let condition = TerminationCondition::AnyParticipantFinished;
    match plan_turn(&mut state, &mut next, &condition, 5, WorkItemId { value: 9 }) {
        TurnPlan::Picked { index, selection: TurnSelection::Turn(start) } => {
            assert_eq!(index, 1);
            assert_eq!(start.agent_loop_iteration, 1);
            assert_eq!(start.agent_loop_id, WorkItemId { value: 9 });
            assert_eq!(start.inbox.len(), 1);
        }
        _ => panic!("expected the user to be picked"),
    }
    assert_eq!(next, 0);

    let mut idle = two_party_state(vec![]);
    let mut next = 1usize;
    match plan_turn(&mut idle, &mut next, &condition, 5, WorkItemId { value: 9 }) {
        TurnPlan::Finish(reason) => assert!(matches!(reason, FinishReason::Deadlocked)),
        _ => panic!("expected a deadlock"),
    }
    assert_eq!(next, 1);
}
