use zero_agent::anthropic::{apply_sse_json, on_sse_event, parse_stop_reason, parse_usage, AnthropicProvider, ParseState};
use zero_agent::json::Json;
use zero_agent::openai::{apply_openai_json, on_openai_event, OpenAIParseState, OpenAIProvider};
use zero_agent::types::{
    AssistantContentBlock, ContentBlock, LlmContext, Message, Model, StopReason, StreamEvent, StreamOptions,
    ToolSpec, UserMessage,
};

fn json(text: &str) -> Json {
    Json::parse(text).expect("valid JSON")
}

#[test]
fn anthropic_stream_text_and_tool_call() {
    let mut st = ParseState::new("model-a".to_string());
    let ev = on_sse_event("message_start", r#"{"message":{"model":"model-x","usage":{"input_tokens":10,"cache_read_input_tokens":3}}}"#, &mut st);
    assert_eq!(ev.len(), 1);
    match &ev[0] {
        StreamEvent::Start(m) => assert_eq!(m.model, "model-x"),
        _ => panic!("expected Start"),
    }
    assert!(on_sse_event("content_block_start", r#"{"index":0,"content_block":{"type":"text"}}"#, &mut st).is_empty());
    let ev = on_sse_event("content_block_delta", r#"{"index":0,"delta":{"type":"text_delta","text":"Hel"}}"#, &mut st);
    assert!(matches!(&ev[0], StreamEvent::TextDelta { index: 0, delta } if delta == "Hel"));
    on_sse_event("content_block_delta", r#"{"index":0,"delta":{"type":"text_delta","text":"lo"}}"#, &mut st);
    on_sse_event("content_block_start", r#"{"index":1,"content_block":{"type":"tool_use","id":"t1","name":"calc"}}"#, &mut st);
    let ev = on_sse_event("content_block_delta", r#"{"index":1,"delta":{"type":"input_json_delta","partial_json":"{\"a\":"}}"#, &mut st);
    assert!(matches!(&ev[0], StreamEvent::ToolCallDelta { index: 1, .. }));
    on_sse_event("content_block_delta", r#"{"index":1,"delta":{"type":"input_json_delta","partial_json":"1}"}}"#, &mut st);
    let ev = on_sse_event("content_block_stop", r#"{"index":1}"#, &mut st);
    match &ev[0] {
        StreamEvent::ToolCallEnd { index, tool_call } => {
            assert_eq!(*index, 1);
            assert_eq!(tool_call.id, "t1");
            assert_eq!(tool_call.name, "calc");
            assert_eq!(tool_call.arguments.to_json_string(), r#"{"a":1}"#);
        }
        _ => panic!("expected ToolCallEnd"),
    }
    on_sse_event("message_delta", r#"{"delta":{"stop_reason":"tool_use"},"usage":{"output_tokens":7}}"#, &mut st);
    let ev = on_sse_event("message_stop", "{}", &mut st);
    match &ev[0] {
        StreamEvent::Done(m) => {
            assert_eq!(m.text_output(), "Hello");
            assert_eq!(m.tool_calls().len(), 1);
            assert!(m.stop_reason == StopReason::ToolUse);
            assert_eq!(m.usage.input_tokens, 10);
            assert_eq!(m.usage.output_tokens, 7);
            assert_eq!(m.usage.cache_read_tokens, 3);
        }
        _ => panic!("expected Done"),
    }
}

#[test]
fn anthropic_bad_data_and_unknown_events_are_ignored() {
    let mut st = ParseState::new("m".to_string());
    assert!(on_sse_event("content_block_delta", "not json", &mut st).is_empty());
    assert!(on_sse_event("ping", "{}", &mut st).is_empty());
    // a tool block whose arguments are not JSON ends with an empty object
    on_sse_event("content_block_start", r#"{"index":0,"content_block":{"type":"tool_use","id":"x","name":"n"}}"#, &mut st);
    on_sse_event("content_block_delta", r#"{"index":0,"delta":{"type":"input_json_delta","partial_json":"{oops"}}"#, &mut st);
    let ev = on_sse_event("content_block_stop", r#"{"index":0}"#, &mut st);
    match &ev[0] {
        StreamEvent::ToolCallEnd { tool_call, .. } => assert_eq!(tool_call.arguments.to_json_string(), "{}"),
        _ => panic!("expected ToolCallEnd"),
    }
}

#[test]
fn stop_reasons_and_usage() {
    assert!(parse_stop_reason("end_turn") == StopReason::Stop);
    assert!(parse_stop_reason("tool_use") == StopReason::ToolUse);
    assert!(parse_stop_reason("max_tokens") == StopReason::Length);
    assert!(parse_stop_reason("error") == StopReason::Error);
    assert!(parse_stop_reason("whatever") == StopReason::Stop);
    let u = parse_usage(&json(r#"{"input_tokens":1,"output_tokens":2,"cache_read_input_tokens":3,"cache_creation_input_tokens":4}"#));
    assert_eq!((u.input_tokens, u.output_tokens, u.cache_read_tokens, u.cache_write_tokens), (1, 2, 3, 4));
    let u = parse_usage(&json("{}"));
    assert_eq!(u.input_tokens, 0);
}

fn context() -> LlmContext {
    let mut messages = Vec::new();
    messages.push(Message::User(UserMessage::new("hi")));
    LlmContext {
        system_prompt: Some("sys".to_string()),
        messages,
        tools: vec![ToolSpec { name: "t".to_string(), description: "d".to_string(), parameters: json("{}") }],
    }
}

#[test]
fn anthropic_request() {
    let model = Model::anthropic("model-a", "key");
    let opts = StreamOptions { temperature: Some("0.5".to_string()), max_tokens: None };
    let body = AnthropicProvider.build_request(&model, &context(), &opts).to_json_string();
    assert!(body.contains(r#""max_tokens":8192"#));
    assert!(body.contains(r#""stream":true"#));
    assert!(body.contains(r#""messages":[{"content":[{"text":"hi","type":"text"}],"role":"user"}]"#));
    assert!(body.contains(r#""cache_control":{"type":"ephemeral"}"#));
    assert!(body.contains(r#""temperature":0.5"#));
    assert!(body.contains(r#""tools":[{"description":"d","input_schema":{},"name":"t"}]"#));
    assert_eq!(AnthropicProvider.request_url(&model), "https://api.anthropic.com/v1/messages");
}

#[test]
fn openai_stream_text_and_tool_call() {
    let mut st = OpenAIParseState::new("gpt".to_string());
    let ev = on_openai_event(r#"{"choices":[{"delta":{"content":"Hi"}}]}"#, &mut st);
    assert!(matches!(&ev[0], StreamEvent::Start(_)));
    assert!(matches!(&ev[1], StreamEvent::TextDelta { delta, .. } if delta == "Hi"));
    on_openai_event(r#"{"choices":[{"delta":{"tool_calls":[{"index":0,"id":"c1","function":{"name":"calc","arguments":"{\"x\""}}]}}]}"#, &mut st);
    on_openai_event(r#"{"choices":[{"delta":{"tool_calls":[{"index":0,"function":{"arguments":":2}"}}]},"finish_reason":"tool_calls"}]}"#, &mut st);
    let ev = on_openai_event("  [DONE]  ", &mut st);
    match &ev[0] {
        StreamEvent::Done(m) => {
            assert_eq!(m.text_output(), "Hi");
            let calls = m.tool_calls();
            assert_eq!(calls.len(), 1);
            assert_eq!(calls[0].id, "c1");
            assert_eq!(calls[0].arguments.to_json_string(), r#"{"x":2}"#);
            assert!(m.stop_reason == StopReason::ToolUse);
            assert!(matches!(m.content[1], AssistantContentBlock::ToolUse(_)));
        }
        _ => panic!("expected Done"),
    }
}

#[test]
fn openai_request() {
    let model = Model::openai("gpt", "key");
    let opts = StreamOptions::default();
    let body = OpenAIProvider.build_request(&model, &context(), &opts).to_json_string();
    assert!(body.contains(r#""stream_options":{"include_usage":true}"#));
    assert!(body.contains(r#""messages":[{"content":"sys","role":"system"},{"content":"hi","role":"user"}]"#));
    assert!(body.contains(r#""max_tokens":4096"#));
    assert!(!body.contains("temperature"));
    assert_eq!(OpenAIProvider.request_url(&model), "https://api.openai.com/v1/chat/completions");
    let text = ContentBlock::text("abc");
    assert_eq!(text.as_text(), Some("abc"));
}

#[test]
fn parsed_events_apply_directly() {
    let mut st = ParseState::new("m".to_string());
    apply_sse_json("content_block_start", &json(r#"{"index":0,"content_block":{"type":"thinking"}}"#), &mut st);
    let ev = apply_sse_json("content_block_delta", &json(r#"{"index":0,"delta":{"type":"thinking_delta","thinking":"hmm"}}"#), &mut st);
    assert!(ev.is_empty());
    apply_sse_json("content_block_stop", &json(r#"{"index":0}"#), &mut st);
    apply_sse_json("message_delta", &json(r#"{"delta":{"stop_reason":"max_tokens"}}"#), &mut st);
    let m = st.finalize();
    assert!(matches!(&m.content[0], AssistantContentBlock::Thinking { thinking } if thinking == "hmm"));
    assert!(m.stop_reason == StopReason::Length);

    let mut os = OpenAIParseState::new("g".to_string());
    let ev = apply_openai_json(&json(r#"{"choices":[{"delta":{}}],"usage":{"prompt_tokens":3,"completion_tokens":4}}"#), &mut os);
    assert_eq!(ev.len(), 1);
    assert!(matches!(&ev[0], StreamEvent::Start(_)));
    let m = os.finalize();
    assert_eq!((m.usage.input_tokens, m.usage.output_tokens), (3, 4));
}

#[test]
fn openai_start_comes_once() {
    let mut st = OpenAIParseState::new("g".to_string());
    // no delta yet: no Start
    assert!(on_openai_event(r#"{"choices":[]}"#, &mut st).is_empty());
    let mut starts = 0;
    for chunk in [r#"{"choices":[{"delta":{"content":"a"}}]}"#, r#"{"choices":[{"delta":{"content":"b"}}]}"#, "not json", r#"{"choices":[{"delta":{}}]}"#] {
        let ev = on_openai_event(chunk, &mut st);
        for (i, e) in ev.iter().enumerate() {
            if let StreamEvent::Start(m) = e {
                assert_eq!(i, 0);
                assert_eq!(m.model, "g");
                starts += 1;
            }
        }
    }
    assert_eq!(starts, 1);
}

#[test]
fn openai_tool_calls_end_in_increasing_index_order() {
    let mut st = OpenAIParseState::new("gpt".to_string());
    on_openai_event(r#"{"choices":[{"delta":{"tool_calls":[{"index":5,"id":"c5","function":{"name":"e","arguments":"{}"}}]}}]}"#, &mut st);
    on_openai_event(r#"{"choices":[{"delta":{"tool_calls":[{"index":0,"id":"c0","function":{"name":"a","arguments":"not json"}}]}}]}"#, &mut st);
    on_openai_event(r#"{"choices":[{"delta":{"tool_calls":[{"index":2,"id":"c2","function":{"name":"c"}},{"index":5,"function":{"arguments":""}}]}}]}"#, &mut st);
    let m = st.finalize();
    let calls = m.tool_calls();
    let ids: Vec<&str> = calls.iter().map(|c| c.id.as_str()).collect();
    assert_eq!(ids, vec!["c0", "c2", "c5"]);
    assert_eq!(calls[0].arguments.to_json_string(), r#""not json""#);
    assert_eq!(calls[1].arguments.to_json_string(), r#""""#);
    assert_eq!(calls[2].arguments.to_json_string(), "{}");
    // the buffers are emptied: a second end adds nothing more
    assert_eq!(st.finalize().tool_calls().len(), 3);
}

#[test]
fn anthropic_interleaved_blocks_keep_their_own_buffers() {
    let mut st = ParseState::new("m".to_string());
    on_sse_event("content_block_start", r#"{"index":3,"content_block":{"type":"tool_use","id":"t3","name":"x"}}"#, &mut st);
    on_sse_event("content_block_start", r#"{"index":1,"content_block":{"type":"thinking"}}"#, &mut st);
    on_sse_event("content_block_delta", r#"{"index":3,"delta":{"type":"input_json_delta","partial_json":"{\"k\":"}}"#, &mut st);
    on_sse_event("content_block_delta", r#"{"index":1,"delta":{"type":"thinking_delta","thinking":"ab"}}"#, &mut st);
    on_sse_event("content_block_delta", r#"{"index":3,"delta":{"type":"input_json_delta","partial_json":"7}"}}"#, &mut st);
    on_sse_event("content_block_stop", r#"{"index":1}"#, &mut st);
    // a delta for a block that is closed or was never opened changes nothing
    on_sse_event("content_block_delta", r#"{"index":1,"delta":{"type":"thinking_delta","thinking":"zz"}}"#, &mut st);
    on_sse_event("content_block_stop", r#"{"index":9}"#, &mut st);
    on_sse_event("content_block_stop", r#"{"index":3}"#, &mut st);
    let m = st.finalize();
    assert_eq!(m.content.len(), 2);
    assert!(matches!(&m.content[0], AssistantContentBlock::Thinking { thinking } if thinking == "ab"));
    let calls = m.tool_calls();
    assert_eq!(calls[0].id, "t3");
    assert_eq!(calls[0].arguments.to_json_string(), r#"{"k":7}"#);
}
