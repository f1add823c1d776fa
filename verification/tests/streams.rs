use omini::api::anthropic;
use omini::api::anthropic::AnthropicStream;
use omini::api::openai::OpenAiStream;
use omini::api::openai_request;
use omini::api::sse::SseEvent;
use omini::api::sse::SseParser;
use omini::api::ApiCompletion;
use omini::api::ApiEvent;
use omini::api::FinishReason;
use omini::api::Usage;
use omini::engine::execute_tool;
use omini::engine::order_results;
use omini::engine::QueryAction;
use omini::engine::QueryEngine;
use omini::engine::QueryEvent;
use omini::engine::DEFAULT_MAX_TURNS;
use omini::json::Json;
use omini::tools::ToolResult;
use omini::types::config::ThinkingEffort;
use omini::types::events::EngineToRuntimeEvent;
use omini::types::message::ContentBlock;
use omini::types::message::Message;
use omini::types::message::Role;
use omini::types::message::ToolResultBlock;
use omini::types::message::ToolUseBlock;
use omini::types::tool::ToolDefinition;

fn text(s: &str) -> ContentBlock {
    ContentBlock::from_text(s.to_string())
}

fn call(id: &str, name: &str, input: Vec<(String, Json)>) -> ToolUseBlock {
    ToolUseBlock {
        id: id.to_string(),
        name: name.to_string(),
        input,
    }
}

fn answer(id: &str, content: &str) -> ToolResultBlock {
    ToolResultBlock {
        tool_use_id: id.to_string(),
        is_error: false,
        content: content.to_string(),
        metadata: None,
    }
}

fn entry(key: &str, value: Json) -> (String, Json) {
    (key.to_string(), value)
}

fn string(s: &str) -> Json {
    Json::Str(s.to_string())
}

#[test]
fn anthropic_stream_makes_an_answer() {
    let mut stream = AnthropicStream::new();
    assert_eq!(
        stream.on_event("message_start", r#"{"message":{"usage":{"input_tokens":12}}}"#),
        None
    );
    stream.on_event("content_block_start", r#"{"content_block":{"type":"thinking"}}"#);
    assert_eq!(
        stream.on_event(
            "content_block_delta",
            r#"{"delta":{"type":"thinking_delta","thinking":"hm"}}"#
        ),
        Some(ApiEvent::Thinking("hm".to_string()))
    );
    stream.on_event("content_block_stop", "{}");
    stream.on_event("content_block_start", r#"{"content_block":{"type":"text"}}"#);
    assert_eq!(
        stream.on_event(
            "content_block_delta",
            r#"{"delta":{"type":"text_delta","text":"Hello, "}}"#
        ),
        Some(ApiEvent::Text("Hello, ".to_string()))
    );
    stream.on_event(
        "content_block_delta",
        r#"{"delta":{"type":"text_delta","text":"world"}}"#,
    );
    stream.on_event("content_block_stop", "{}");
    stream.on_event(
        "content_block_start",
        r#"{"content_block":{"type":"tool_use","id":"t1","name":"bash"}}"#,
    );
    stream.on_event(
        "content_block_delta",
        r#"{"delta":{"type":"input_json_delta","partial_json":"{\"command\":"}}"#,
    );
    stream.on_event(
        "content_block_delta",
        r#"{"delta":{"type":"input_json_delta","partial_json":"\"ls\"}"}}"#,
    );
    let used = call("t1", "bash", vec![entry("command", string("ls"))]);
    assert_eq!(
        stream.on_event("content_block_stop", "{}"),
        Some(ApiEvent::ToolUse(used.clone()))
    );
    stream.on_event(
        "message_delta",
        r#"{"usage":{"output_tokens":7},"delta":{"stop_reason":"tool_use"}}"#,
    );
    let done = stream.on_event("message_stop", "{}");
    assert_eq!(
        done,
        Some(ApiEvent::Done(ApiCompletion {
            message: Message::new(
                Role::Assistant,
                vec![
                    ContentBlock::from_thinking("hm".to_string()),
                    text("Hello, world"),
                    ContentBlock::ToolUse(used),
                ],
            ),
            finish_reason: FinishReason::ToolUse,
            usage: Usage {
                prompt_tokens: 12,
                completion_tokens: 7,
            },
        }))
    );
}

#[test]
fn anthropic_stream_passes_over_noise() {
    let mut stream = AnthropicStream::new();
    assert_eq!(stream.on_event("ping", "{}"), None);
    assert_eq!(stream.on_event("content_block_delta", ""), None);
    assert_eq!(stream.on_event("content_block_delta", "not json"), None);
    assert_eq!(stream.on_event("something_new", "{}"), None);
    assert_eq!(stream.on_event("content_block_stop", "{}"), None);
    assert!(stream.content_blocks.is_empty());
}

#[test]
fn anthropic_stop_reasons_are_read() {
    let reasons = [
        ("end_turn", FinishReason::Stop),
        ("stop_sequence", FinishReason::Stop),
        ("max_tokens", FinishReason::Length),
        ("tool_use", FinishReason::ToolUse),
        ("refusal", FinishReason::Error("refusal".to_string())),
    ];
    for (name, reason) in reasons {
        let mut stream = AnthropicStream::new();
        stream.on_event(
            "message_delta",
            &format!("{{\"delta\":{{\"stop_reason\":\"{name}\"}}}}"),
        );
        assert_eq!(stream.finish_reason, reason);
    }
}

#[test]
fn ten_broken_events_in_a_row_end_a_stream() {
    let mut stream = AnthropicStream::new();
    for _ in 0..9 {
        assert!(!stream.on_error());
    }
    assert!(stream.on_error());

    let mut stream = OpenAiStream::new();
    for _ in 0..9 {
        assert!(!stream.on_error());
    }
    stream.on_event("{}");
    assert!(!stream.on_error());
}

#[test]
fn anthropic_request_is_built() {
    let body = anthropic::request_body(
        "opus",
        Json::Array(Vec::new()),
        None,
        &Some("Be brief.".to_string()),
        None,
    );
    assert_eq!(body.str_at("model"), Some("opus".to_string()));
    assert_eq!(body.u64_at("max_tokens"), Some(4096));
    assert_eq!(body.str_at("system"), Some("Be brief.".to_string()));
    assert_eq!(body.get("stream"), Some(&Json::Bool(true)));
    assert!(body.get("temperature").is_none());
    assert_eq!(
        anthropic::request_url("https://api.example"),
        "https://api.example/v1/messages"
    );
}

#[test]
fn openai_stream_makes_an_answer() {
    let mut stream = OpenAiStream::new();
    let (sent, end) = stream.on_event(
        r#"{"choices":[{"delta":{"reasoning_content":"hm","content":"Hel"}}]}"#,
    );
    assert!(!end);
    assert_eq!(
        sent,
        vec![
            ApiEvent::Text("Hel".to_string()),
            ApiEvent::Thinking("hm".to_string())
        ]
    );
    stream.on_event(r#"{"choices":[{"delta":{"content":"lo"}}]}"#);
    stream.on_event(
        r#"{"choices":[{"delta":{"tool_calls":[{"index":0,"id":"t1","function":{"name":"read","arguments":"{\"file"}}]}}]}"#,
    );
    let (sent, _) = stream.on_event(
        r#"{"choices":[{"delta":{"tool_calls":[{"index":0,"function":{"arguments":"_path\":\"a\"}"}}]},"finish_reason":"tool_calls"}],"usage":{"prompt_tokens":3,"completion_tokens":4}}"#,
    );
    let used = call("t1", "read", vec![entry("file_path", string("a"))]);
    assert_eq!(sent, vec![ApiEvent::ToolUse(used.clone())]);
    let (sent, end) = stream.on_event("[DONE]");
    assert!(sent.is_empty());
    assert!(end);
    let last = stream.finish();
    assert_eq!(
        last,
        vec![ApiEvent::Done(ApiCompletion {
            message: Message::new(
                Role::Assistant,
                vec![
                    ContentBlock::ToolUse(used),
                    text("Hello"),
                    ContentBlock::from_thinking("hm".to_string()),
                ],
            ),
            finish_reason: FinishReason::ToolUse,
            usage: Usage {
                prompt_tokens: 3,
                completion_tokens: 4,
            },
        })]
    );
}

#[test]
fn openai_calls_are_handed_on_in_the_order_of_their_index() {
    let mut stream = OpenAiStream::new();
    let (sent, _) = stream.on_event(
        r#"{"choices":[{"delta":{"tool_calls":[{"index":1,"id":"b","function":{"name":"n","arguments":"{}"}},{"index":0,"id":"a","function":{"name":"m","arguments":"{}"}}]},"finish_reason":"tool_calls"}]}"#,
    );
    assert_eq!(
        sent,
        vec![
            ApiEvent::ToolUse(call("a", "m", Vec::new())),
            ApiEvent::ToolUse(call("b", "n", Vec::new()))
        ]
    );
}

#[test]
fn openai_finish_reasons_are_read() {
    let reasons = [
        ("stop", FinishReason::Stop),
        ("length", FinishReason::Length),
        ("tool_calls", FinishReason::ToolUse),
        ("filter", FinishReason::Error("filter".to_string())),
    ];
    for (name, reason) in reasons {
        let mut stream = OpenAiStream::new();
        stream.on_event(&format!(
            "{{\"choices\":[{{\"delta\":{{}},\"finish_reason\":\"{name}\"}}]}}"
        ));
        assert_eq!(stream.finish_reason, reason);
    }
}

#[test]
fn openai_request_is_built() {
    let messages = vec![
        Message::from_user_text("hi".to_string()),
        Message::new(
            Role::Assistant,
            vec![
                ContentBlock::from_thinking("hm".to_string()),
                text("ok"),
                ContentBlock::ToolUse(call("t1", "bash", vec![entry("command", string("ls"))])),
            ],
        ),
        Message::new(
            Role::User,
            vec![ContentBlock::ToolResult(answer("t1", "out")), text("dropped")],
        ),
        Message::new(Role::User, vec![text("one"), text("two")]),
        Message::new(Role::User, Vec::new()),
    ];
    let list =
        openai_request::convert_messages_to_openai(&messages, &Some("Be brief.".to_string()));
    assert_eq!(list.len(), 5);
    assert_eq!(list[0].str_at("role"), Some("system".to_string()));
    assert_eq!(list[1].str_at("content"), Some("hi".to_string()));
    assert_eq!(list[2].str_at("content"), Some("ok".to_string()));
    assert_eq!(list[2].str_at("reasoning_content"), Some("hm".to_string()));
    assert_eq!(list[3].str_at("role"), Some("tool".to_string()));
    assert_eq!(list[3].str_at("tool_call_id"), Some("t1".to_string()));
    match list[4].get("content") {
        Some(Json::Array(parts)) => {
            assert_eq!(parts[1].str_at("text"), Some("two".to_string()));
        }
        _ => panic!("no parts"),
    }
    match list[2].get("tool_calls") {
        Some(Json::Array(calls)) => {
            let function = calls[0].get("function").unwrap();
            assert_eq!(
                function.str_at("arguments"),
                Some("{\"command\":\"ls\"}".to_string())
            );
        }
        _ => panic!("no tool calls"),
    }

    let tools = vec![ToolDefinition {
        name: "bash".to_string(),
        description: "run".to_string(),
        input_schema: Json::Object(Vec::new()),
    }];
    let body = openai_request::request_body(
        "m",
        &messages,
        &None,
        None,
        Some(ThinkingEffort::High),
        None,
        &Some(tools),
    );
    assert_eq!(body.u64_at("max_tokens"), Some(16384));
    assert_eq!(body.str_at("reasoning_effort"), Some("high".to_string()));
    let plain =
        openai_request::request_body("m", &messages, &None, None, Some(ThinkingEffort::Off), None, &None);
    assert_eq!(plain.u64_at("max_tokens"), Some(8192));
    assert!(plain.get("reasoning_effort").is_none());
    assert!(plain.get("tools").is_none());
    assert_eq!(
        openai_request::request_url("https://api.example"),
        "https://api.example/chat/completions"
    );
    assert_eq!(openai_request::bearer("key"), "Bearer key");
}

#[test]
fn server_sent_events_are_read_line_by_line() {
    let mut parser = SseParser::new();
    for line in [": comment", "event: ping", "data: one", "data:two", "id: 3"] {
        assert_eq!(parser.on_line(line), None);
    }
    assert_eq!(
        parser.on_line(""),
        Some(SseEvent {
            event: "ping".to_string(),
            data: "one\ntwo".to_string()
        })
    );
    assert_eq!(parser.on_line(""), None);
}

fn done(content: Vec<ContentBlock>, finish_reason: FinishReason) -> QueryEvent {
    QueryEvent::Streamed(ApiEvent::Done(ApiCompletion {
        message: Message::new(Role::Assistant, content),
        finish_reason,
        usage: Usage {
            prompt_tokens: 1,
            completion_tokens: 1,
        },
    }))
}

/// Begins a turn without messages of the user, up to where the answer is read.
fn begin(engine: &mut QueryEngine, messages: &mut Vec<Message>) {
    assert!(matches!(engine.step(messages, false, QueryEvent::Turn).1, QueryAction::Gather));
    let (told, action) = engine.step(messages, false, QueryEvent::Gathered(Vec::new()));
    assert_eq!(told, vec![EngineToRuntimeEvent::TurnStarted]);
    assert!(matches!(action, QueryAction::Ask));
    assert!(matches!(engine.step(messages, false, QueryEvent::Asked).1, QueryAction::Read));
}

#[test]
fn query_runs_until_the_model_asks_for_no_more_tools() {
    let mut engine = QueryEngine::new(Some(5));
    let mut messages = vec![Message::from_user_text("go".to_string())];
    begin(&mut engine, &mut messages);
    let used = call("t1", "bash", Vec::new());
    let event = QueryEvent::Streamed(ApiEvent::ToolUse(used.clone()));
    let (told, action) = engine.step(&mut messages, false, event);
    assert_eq!(told, vec![EngineToRuntimeEvent::ToolUse(used.clone())]);
    assert!(matches!(action, QueryAction::Start(run) if run == used));
    let event = done(vec![ContentBlock::ToolUse(used.clone())], FinishReason::ToolUse);
    engine.step(&mut messages, false, event);
    let (told, action) = engine.step(&mut messages, false, QueryEvent::StreamEnded);
    assert!(matches!(&told[..], [EngineToRuntimeEvent::MessageProduced(_)]));
    assert!(matches!(action, QueryAction::Collect));
    assert_eq!(messages.len(), 2);
    let (block, told) = execute_tool(&used, false, Some(ToolResult::ok("out".to_string())));
    assert!(matches!(told, Some(EngineToRuntimeEvent::ToolResult(_))));
    engine.step(&mut messages, false, QueryEvent::ToolEnded(block));
    let (told, _) = engine.step(&mut messages, false, QueryEvent::ToolFailed("x".to_string()));
    assert_eq!(
        told,
        vec![EngineToRuntimeEvent::Error("Tool task panicked: x".to_string())]
    );
    let (told, action) = engine.step(&mut messages, false, QueryEvent::ToolsEnded);
    assert_eq!(told.len(), 2);
    assert_eq!(told[1], EngineToRuntimeEvent::TurnEnded);
    assert!(matches!(action, QueryAction::Turn));
    assert_eq!(messages.len(), 3);
    assert_eq!(
        messages[2].content,
        vec![ContentBlock::ToolResult(answer("t1", "out"))]
    );
    begin(&mut engine, &mut messages);
    engine.step(&mut messages, false, done(vec![text("end")], FinishReason::Stop));
    engine.step(&mut messages, false, QueryEvent::StreamEnded);
    match engine.step(&mut messages, false, QueryEvent::ToolsEnded).1 {
        QueryAction::End(result) => {
            assert_eq!(result.turns, 2);
            assert!(result.had_tool_use);
            assert_eq!(result.finish_reason, FinishReason::Stop);
        }
        _ => panic!("the query went on"),
    }
    let answers = messages.iter().filter(|m| m.role == Role::Assistant).count();
    assert_eq!(answers, 2);
}

#[test]
fn query_takes_up_what_the_user_sends() {
    let mut engine = QueryEngine::new(Some(1));
    let mut messages: Vec<Message> = Vec::new();
    engine.step(&mut messages, false, QueryEvent::Turn);
    let sent = Message::from_user_text("wait".to_string());
    let (told, _) = engine.step(&mut messages, false, QueryEvent::Gathered(vec![sent.clone()]));
    assert_eq!(
        told,
        vec![
            EngineToRuntimeEvent::UserMessageProduced(sent.clone()),
            EngineToRuntimeEvent::TurnStarted
        ]
    );
    assert_eq!(messages, vec![sent]);
    assert!(matches!(
        engine.step(&mut messages, false, QueryEvent::ToolsEnded).1,
        QueryAction::Nothing
    ));
    let (told, action) =
        engine.step(&mut messages, false, QueryEvent::AskFailed("no net".to_string()));
    assert_eq!(
        told,
        vec![EngineToRuntimeEvent::Error("LLM request failed: no net".to_string())]
    );
    assert!(matches!(action, QueryAction::End(result) if result.turns == 0));
}

#[test]
fn query_stops_on_errors_and_when_cancelled() {
    let mut messages: Vec<Message> = Vec::new();
    let mut engine = QueryEngine::new(None);
    assert_eq!(engine.max_turns, DEFAULT_MAX_TURNS);
    assert!(matches!(
        engine.step(&mut messages, true, QueryEvent::Turn).1,
        QueryAction::End(_)
    ));
    let mut engine = QueryEngine::new(None);
    begin(&mut engine, &mut messages);
    let event = QueryEvent::Streamed(ApiEvent::Text("x".to_string()));
    let (told, action) = engine.step(&mut messages, true, event);
    assert!(told.is_empty());
    assert!(matches!(action, QueryAction::Close));
    let (told, action) =
        engine.step(&mut messages, false, QueryEvent::StreamFailed("gone".to_string()));
    assert_eq!(
        told,
        vec![EngineToRuntimeEvent::Error("Stream error: gone".to_string())]
    );
    assert!(matches!(action, QueryAction::Close));
    let (told, action) = engine.step(&mut messages, false, QueryEvent::StreamEnded);
    assert_eq!(
        told,
        vec![EngineToRuntimeEvent::Error(
            "Stream ended unexpectedly".to_string()
        )]
    );
    assert!(matches!(action, QueryAction::End(_)));
    let mut engine = QueryEngine::new(None);
    begin(&mut engine, &mut messages);
    let (told, _) = engine.step(&mut messages, true, QueryEvent::StreamEnded);
    assert!(told.is_empty());
    let mut none = QueryEngine::new(Some(0));
    assert!(matches!(
        none.step(&mut messages, false, QueryEvent::Turn).1,
        QueryAction::End(_)
    ));
}

#[test]
fn results_follow_the_calls() {
    let message = Message::new(
        Role::Assistant,
        vec![
            ContentBlock::ToolUse(call("a", "x", Vec::new())),
            text("between"),
            ContentBlock::ToolUse(call("b", "x", Vec::new())),
            ContentBlock::ToolUse(call("c", "x", Vec::new())),
        ],
    );
    let ordered = order_results(
        &message,
        &vec![answer("b", "2"), answer("z", "?"), answer("a", "1")],
    );
    assert_eq!(ordered.role, Role::User);
    assert_eq!(
        ordered.content,
        vec![
            ContentBlock::ToolResult(answer("a", "1")),
            ContentBlock::ToolResult(answer("b", "2"))
        ]
    );
}

#[test]
fn calls_that_cannot_run_are_answered() {
    let used = call("t", "dance", Vec::new());
    let (block, told) = execute_tool(&used, true, None);
    assert!(block.is_error);
    assert_eq!(block.content, "Execution cancelled");
    assert_eq!(told, None);
    let (block, _) = execute_tool(&used, false, None);
    assert_eq!(block.content, "Unknown tool: dance");
}
