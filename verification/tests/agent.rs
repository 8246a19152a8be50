use std::sync::Arc;
use zero_agent::agent_loop::{
    blocked_result, call_position, find_tool, make_tool_result_message, order_results, unknown_tool_result, AgentRun,
    ReplyStep, StreamCollector, TurnBegin,
};
use zero_agent::context::{
    compose_system_prompt, escape_xml, tool_lineup, AgentContextBuilder, ContextTool, ToolExecutionMode, ToolSlot,
};
use zero_agent::event::AgentEvent;
use zero_agent::json::Json;
use zero_agent::prompts::{MAIN_AGENT_SYSTEM_PROMPT, SUB_AGENT_SYSTEM_PROMPT, TODO_INSTRUCTIONS};
use zero_agent::skill::Skill;
use zero_agent::subagent::SubAgentDef;
use zero_agent::todo::TodoTool;
use zero_agent::tool::{partition_tool_calls, ToolResult};
use zero_agent::types::{timestamp_of, AssistantContentBlock, AssistantMessage, Message, Model, StopReason, StreamEvent, ToolCall};

fn call(id: &str, name: &str) -> ToolCall {
    ToolCall { id: id.to_string(), name: name.to_string(), arguments: Json::Null }
}

fn reply(blocks: Vec<AssistantContentBlock>, stop: StopReason) -> AssistantMessage {
    let mut m = AssistantMessage::empty("m".to_string());
    m.content = blocks;
    m.stop_reason = stop;
    m
}

#[test]
fn escape_xml_replaces_markup() {
    assert_eq!(escape_xml("a<b>&\"c\"'d'"), "a&lt;b&gt;&amp;&quot;c&quot;&apos;d&apos;");
    assert_eq!(escape_xml("plain text"), "plain text");
    assert!(!escape_xml("<<>>\"'").contains('<'));
}

#[test]
fn builtin_prompts_share_the_todo_instructions() {
    assert!(MAIN_AGENT_SYSTEM_PROMPT.contains(TODO_INSTRUCTIONS));
    assert!(SUB_AGENT_SYSTEM_PROMPT.contains(TODO_INSTRUCTIONS));
    assert!(MAIN_AGENT_SYSTEM_PROMPT.starts_with("You are an intelligent orchestration agent"));
    assert!(SUB_AGENT_SYSTEM_PROMPT.contains("You cannot spawn further sub-agents"));
}

#[test]
fn system_prompt_parts_in_order() {
    let skills: Vec<Arc<Skill<u32>>> =
        vec![Arc::new(Skill::new("calc", "Math & more").with_instruction("Be exact"))];
    let defs: Vec<Arc<SubAgentDef<u32>>> = vec![Arc::new(SubAgentDef::new("w", "<writer>", ""))];
    let p = compose_system_prompt(false, &skills, &defs, "Base prompt");
    let expected = format!(
        "{}\n\nThe following skills provide specialized instructions and tools for specific tasks.\n\n<available_skills>\n  <skill>\n    <name>calc</name>\n    <description>Math &amp; more</description>\n  </skill>\n</available_skills>\n\nThe following sub-agents are available for delegation. Use `spawn_subagent` or `parallel_subagent` to dispatch them.\n\n<available_sub_agents>\n  <sub_agent>\n    <name>w</name>\n    <description>&lt;writer&gt;</description>\n  </sub_agent>\n</available_sub_agents>\n\n## Skill: calc\n- Be exact\n\n\nBase prompt",
        MAIN_AGENT_SYSTEM_PROMPT
    );
    assert_eq!(p, expected);
    // a sub-agent lists no sub-agents, and without skills or base only the built-in prompt remains
    let p = compose_system_prompt::<u32>(true, &vec![], &defs, "");
    assert_eq!(p, SUB_AGENT_SYSTEM_PROMPT);
}

#[test]
fn lineup_of_main_and_sub_agents() {
    let flags = vec![vec![false, true], vec![true]];
    let main = tool_lineup(false, 1, &flags);
    assert_eq!(
        main,
        vec![
            ToolSlot::Todo,
            ToolSlot::JsonValidate,
            ToolSlot::Extra(0),
            ToolSlot::SkillTool { skill: 0, tool: 0 },
            ToolSlot::SkillTool { skill: 0, tool: 1 },
            ToolSlot::SkillTool { skill: 1, tool: 0 },
            ToolSlot::SpawnSubAgent,
            ToolSlot::ParallelSubAgent,
        ]
    );
    let sub = tool_lineup(true, 0, &flags);
    assert_eq!(sub, vec![ToolSlot::Todo, ToolSlot::JsonValidate, ToolSlot::SkillTool { skill: 0, tool: 0 }]);
}

#[test]
fn builder_builds_context() {
    let b: AgentContextBuilder<u32, (), ()> = AgentContextBuilder::new("Base", Model::anthropic("m", "k"))
        .skill(Skill::new("s", "d").with_tool(10).with_tool(11))
        .sub_agent(SubAgentDef::new("helper", "Helps", "Help."))
        .tool(5)
        .max_iterations(3)
        .tool_execution(ToolExecutionMode::Sequential);
    let flags = vec![vec![false, true]];
    let ctx = b.build("fresh".to_string(), &flags);
    assert_eq!(ctx.session_id, "fresh");
    assert_eq!(ctx.max_iterations, 3);
    assert!(ctx.tool_execution == ToolExecutionMode::Sequential);
    assert!(ctx.messages.is_empty());
    assert_eq!(ctx.tools.len(), 7);
    assert!(matches!(ctx.tools[0], ContextTool::Todo(_)));
    assert!(matches!(ctx.tools[1], ContextTool::JsonValidate(_)));
    assert!(matches!(ctx.tools[2], ContextTool::Custom(5)));
    assert!(matches!(ctx.tools[3], ContextTool::Custom(10)));
    assert!(matches!(ctx.tools[4], ContextTool::Custom(11)));
    match &ctx.tools[5] {
        ContextTool::SpawnSubAgent(t) => assert_eq!(t.child_session_id("helper", 1), "fresh/helper-1"),
        _ => panic!("expected spawn_subagent"),
    }
    assert!(matches!(ctx.tools[6], ContextTool::ParallelSubAgent(_)));
    assert!(ctx.system_prompt.ends_with("Base"));

    let sub: AgentContextBuilder<u32, (), ()> = AgentContextBuilder::new("", Model::anthropic("m", "k"))
        .session_id("given".to_string())
        .is_subagent(true)
        .skill(Skill::new("s", "d").with_tool(10).with_tool(11));
    let ctx = sub.build("unused".to_string(), &flags);
    assert_eq!(ctx.session_id, "given");
    assert_eq!(ctx.tools.len(), 3);
    assert!(matches!(ctx.tools[2], ContextTool::Custom(10)));
    assert!(ToolExecutionMode::default() == ToolExecutionMode::Parallel);
}

#[test]
fn run_finishes_on_reply_without_tool_calls() {
    let (mut run, start) = AgentRun::start("s1".to_string(), "sys".to_string(), Vec::new(), 5, "hello");
    assert_eq!(start.session_id(), "s1");
    let ctx = match run.begin_turn(Vec::new()) {
        TurnBegin::Call { event, context } => {
            assert!(matches!(event, AgentEvent::TurnStart { .. }));
            context
        }
        TurnBegin::Exhausted(_) => panic!("turns left"),
    };
    assert_eq!(ctx.system_prompt.as_deref(), Some("sys"));
    assert_eq!(ctx.messages.len(), 1);
    let r = reply(vec![AssistantContentBlock::Text { text: "answer".to_string() }], StopReason::Stop);
    match run.on_reply(r) {
        ReplyStep::Finished { text, event } => {
            assert_eq!(text, "answer");
            assert!(matches!(event, AgentEvent::TurnEnd { .. }));
        }
        _ => panic!("expected the run to finish"),
    }
    let (messages, end) = run.finish();
    assert_eq!(messages.len(), 2);
    assert!(matches!(messages[1], Message::Assistant(_)));
    assert!(matches!(end, AgentEvent::AgentEnd { .. }));
}

#[test]
fn run_with_tools_then_limit() {
    let (mut run, _) = AgentRun::start("s".to_string(), "sys".to_string(), Vec::new(), 1, "go");
    assert!(matches!(run.begin_turn(Vec::new()), TurnBegin::Call { .. }));
    let r = reply(vec![AssistantContentBlock::ToolUse(call("c1", "todo"))], StopReason::ToolUse);
    let (calls, back) = match run.on_reply(r) {
        ReplyStep::RunTools { calls, reply } => (calls, reply),
        _ => panic!("expected tool calls"),
    };
    assert_eq!(calls.len(), 1);
    let result = make_tool_result_message(&calls[0], ToolResult::ok("fine".to_string()));
    assert_eq!(result.tool_call_id, "c1");
    assert_eq!(result.content[0].as_text(), Some("fine"));
    let ev = run.end_turn(back, vec![result]);
    assert!(matches!(ev, AgentEvent::TurnEnd { ref tool_results, .. } if tool_results.len() == 1));
    match run.begin_turn(Vec::new()) {
        TurnBegin::Exhausted(m) => assert_eq!(m, "agent reached max_iterations (1)"),
        _ => panic!("expected the limit"),
    }
    let (messages, _) = run.finish();
    assert_eq!(messages.len(), 3);
}

#[test]
fn run_fails_on_error_with_tool_calls() {
    let (mut run, _) = AgentRun::start("s".to_string(), "sys".to_string(), Vec::new(), 2, "go");
    run.begin_turn(Vec::new());
    let mut r = reply(vec![AssistantContentBlock::ToolUse(call("c1", "x"))], StopReason::Error);
    r.error_message = Some("overloaded".to_string());
    match run.on_reply(r) {
        ReplyStep::Failed(m) => assert_eq!(m, "LLM stopped with Error: overloaded"),
        _ => panic!("expected failure"),
    }
    let mut r = reply(vec![AssistantContentBlock::ToolUse(call("c1", "x"))], StopReason::Aborted);
    r.error_message = None;
    match run.on_reply(r) {
        ReplyStep::Failed(m) => assert_eq!(m, "LLM stopped with Aborted: "),
        _ => panic!("expected failure"),
    }
    // without tool calls an error reply still ends the run with its text
    let r = reply(vec![AssistantContentBlock::Text { text: "partial".to_string() }], StopReason::Error);
    assert!(matches!(run.on_reply(r), ReplyStep::Finished { .. }));
}

#[test]
fn stream_collector_keeps_last_final_message() {
    let mut c = StreamCollector::new("s".to_string());
    let evs = c.on_event(StreamEvent::Start(AssistantMessage::empty("m".to_string())));
    assert_eq!(evs.len(), 2);
    assert!(matches!(evs[0], AgentEvent::MessageStart { .. }));
    assert!(matches!(evs[1], AgentEvent::MessageDelta { .. }));
    let evs = c.on_event(StreamEvent::TextDelta { index: 0, delta: "x".to_string() });
    assert_eq!(evs.len(), 1);
    let mut done = AssistantMessage::empty("m".to_string());
    done.content.push(AssistantContentBlock::Text { text: "x".to_string() });
    let evs = c.on_event(StreamEvent::Done(done));
    assert!(matches!(evs[0], AgentEvent::MessageEnd { .. }));
    assert_eq!(c.finish().ok().unwrap().text_output(), "x");
    let empty = StreamCollector::new("s".to_string());
    assert_eq!(empty.finish().err().unwrap(), "stream ended without Done event");
}

#[test]
fn tool_dispatch_helpers() {
    let names = vec!["todo", "json_validate", "todo"];
    assert_eq!(find_tool(&names, "todo"), Some(0));
    assert_eq!(find_tool(&names, "json_validate"), Some(1));
    assert_eq!(find_tool(&names, "nope"), None);
    assert_eq!(unknown_tool_result("nope").content, "unknown tool: nope");
    assert!(unknown_tool_result("nope").is_error);
    assert_eq!(blocked_result("policy").content, "tool call blocked: policy");
    let calls = vec![call("a", "x"), call("b", "y"), call("a", "z")];
    assert_eq!(call_position(&calls, "b"), Some(1));
    assert_eq!(call_position(&calls, "a"), Some(0));
    assert_eq!(call_position(&calls, "q"), None);
}

#[test]
fn partition_puts_unsafe_call_alone_then_resumes_safe_batch() {
    let calls = vec![call("a", "u"), call("b", "s")];
    let batches = partition_tool_calls(&calls, &vec![false, true]);
    assert_eq!(batches.len(), 2);
    assert!(!batches[0].safe && batches[1].safe);
    assert_eq!(batches[0].calls[0].id, "a");
    assert_eq!(batches[1].calls[0].id, "b");
}

#[test]
fn partition_merges_consecutive_safe_calls() {
    let calls = vec![call("1", "a"), call("2", "b"), call("3", "c"), call("4", "d")];
    let batches = partition_tool_calls(&calls, &vec![true, true, false, true]);
    let shape: Vec<(bool, usize)> = batches.iter().map(|b| (b.safe, b.calls.len())).collect();
    assert_eq!(shape, vec![(true, 2), (false, 1), (true, 1)]);
}

#[test]
fn todo_creates_in_one_safe_batch_keep_their_order() {
    // three creates issued together form one safe batch; run in order, they keep ids 1..3
    let mut todo = TodoTool::new();
    let calls = vec![
        ToolCall { id: "c1".into(), name: "todo".into(), arguments: Json::parse(r#"{"operation":"create","id":1,"title":"A"}"#).unwrap() },
        ToolCall { id: "c2".into(), name: "todo".into(), arguments: Json::parse(r#"{"operation":"create","id":2,"title":"B"}"#).unwrap() },
        ToolCall { id: "c3".into(), name: "todo".into(), arguments: Json::parse(r#"{"operation":"create","id":3,"title":"C"}"#).unwrap() },
    ];
    let safe: Vec<bool> = calls.iter().map(|c| todo.is_concurrency_safe(&c.arguments)).collect();
    let batches = partition_tool_calls(&calls, &safe);
    assert_eq!(batches.len(), 1);
    let mut results = Vec::new();
    for c in &batches[0].calls {
        let r = todo.execute(&c.id, &c.arguments);
        results.push(make_tool_result_message(c, r));
    }
    assert_eq!(results.len(), 3);
    assert_eq!(results[0].tool_call_id, "c1");
    assert_eq!(results[1].tool_call_id, "c2");
    assert_eq!(results[2].tool_call_id, "c3");
    for r in &results {
        assert!(!r.is_error, "create failed: {:?}", r.content);
        let txt = r.content[0].as_text().unwrap();
        assert!(txt.contains("Created todo"), "unexpected: {txt}");
    }
    let list = todo.execute("l", &Json::parse(r#"{"operation":"list"}"#).unwrap());
    assert!(list.content.contains("#1: A") && list.content.contains("pending"));
    assert!(list.content.contains("#2: B"));
    assert!(list.content.contains("#3: C"));
}

#[test]
fn todo_create_with_parallel_false_is_still_a_safe_call() {
    let mut todo = TodoTool::new();
    let calls = vec![
        ToolCall { id: "p1".into(), name: "todo".into(), arguments: Json::parse(r#"{"operation":"create","id":1,"title":"P-false","parallel":false}"#).unwrap() },
        ToolCall { id: "p2".into(), name: "todo".into(), arguments: Json::parse(r#"{"operation":"create","id":2,"title":"P-true","parallel":true}"#).unwrap() },
    ];
    let safe: Vec<bool> = calls.iter().map(|c| todo.is_concurrency_safe(&c.arguments)).collect();
    let batches = partition_tool_calls(&calls, &safe);
    assert_eq!(batches.len(), 1);
    assert!(batches[0].safe);
    for c in &batches[0].calls {
        assert!(!todo.execute(&c.id, &c.arguments).is_error);
    }
    let txt = todo.execute("l", &Json::parse(r#"{"operation":"list"}"#).unwrap()).content;
    assert!(txt.contains("parallel=false"));
    assert!(txt.contains("parallel=true"));
}

#[test]
fn results_follow_call_order_whatever_order_they_complete_in() {
    let calls = vec![call("1", "safe_a"), call("2", "safe_b")];
    let batches = partition_tool_calls(&calls, &vec![true, true]);
    assert_eq!(batches.len(), 1);
    assert_eq!(batches[0].calls.len(), 2);
    // the second call completes first; the results still follow the calls
    let completed = vec![
        (call("2", "safe_b"), ToolResult::ok("safe_b".to_string())),
        (call("1", "safe_a"), ToolResult::ok("safe_a".to_string())),
    ];
    let results = order_results(&calls, &completed).unwrap();
    assert_eq!(results.len(), 2);
    assert_eq!(results[0].tool_call_id, "1");
    assert_eq!(results[1].tool_call_id, "2");
    assert_eq!(results[0].content[0].as_text(), Some("safe_a"));
}

#[test]
fn unsafe_call_gets_a_batch_of_its_own() {
    let calls = vec![call("1", "safe_x"), call("2", "unsafe_y")];
    let batches = partition_tool_calls(&calls, &vec![true, false]);
    assert_eq!(batches.len(), 2);
    assert!(batches[0].safe);
    assert!(!batches[1].safe);
    assert_eq!(batches[0].calls[0].name, "safe_x");
    assert_eq!(batches[1].calls[0].name, "unsafe_y");
}

#[test]
fn ordering_fails_for_unknown_or_missing_results() {
    let calls = vec![call("1", "a"), call("2", "b")];
    assert!(order_results(&calls, &vec![(call("1", "a"), ToolResult::ok("x".to_string()))]).is_none());
    assert!(order_results(&calls, &vec![(call("9", "z"), ToolResult::ok("x".to_string()))]).is_none());
}

#[test]
fn todo_lifecycle_around_an_unsafe_call() {
    let mut todo = TodoTool::new();
    let names = vec!["todo", "writer"];
    let calls = vec![
        ToolCall { id: "a".into(), name: "todo".into(), arguments: Json::parse(r#"{"operation":"create","id":1,"title":"Task 1"}"#).unwrap() },
        call("b", "writer"),
    ];
    // todo is safe, the writer is not: two batches, run in order
    let safe: Vec<bool> = calls.iter().map(|c| find_tool(&names, &c.name) == Some(0)).collect();
    let batches = partition_tool_calls(&calls, &safe);
    assert_eq!(batches.len(), 2);
    let mut results = Vec::new();
    let mut writer_runs = 0;
    for b in &batches {
        for c in &b.calls {
            let r = if c.name == "todo" {
                todo.execute(&c.id, &c.arguments)
            } else {
                writer_runs += 1;
                ToolResult::ok("writer".to_string())
            };
            results.push(make_tool_result_message(c, r));
        }
    }
    assert_eq!(results.len(), 2);
    assert_eq!(results[0].tool_call_id, "a");
    assert_eq!(results[1].tool_call_id, "b");
    assert!(!results[0].is_error);
    assert_eq!(writer_runs, 1);

    let r2 = todo.execute("u", &Json::parse(r#"{"operation":"update","id":1,"status":"in_progress"}"#).unwrap());
    assert!(r2.content.contains("in_progress"));
    let r3 = todo.execute("d", &Json::parse(r#"{"operation":"complete","id":1}"#).unwrap());
    assert!(r3.content.contains("Completed todo #1"));
    let list = todo.execute("l", &Json::parse(r#"{"operation":"list"}"#).unwrap());
    assert!(list.content.contains("completed"));
}

#[test]
fn timestamp_keeps_the_millisecond_reading_or_zero_before_the_epoch() {
    assert_eq!(timestamp_of(Some(1_700_000_000_123)), 1_700_000_000_123);
    assert_eq!(timestamp_of(Some(0)), 0);
    assert_eq!(timestamp_of(None), 0);
    assert_eq!(timestamp_of(Some((1u128 << 64) + 5)), 5);
}

#[test]
fn replacing_entities_in_escaped_text_gives_it_back() {
    for s in ["a<b>&\"c\"'d'", "&lt; already", "plain", "&amp;&", "", "'&apos;'"] {
        let e = escape_xml(s);
        let back = e
            .replace("&lt;", "<")
            .replace("&gt;", ">")
            .replace("&quot;", "\"")
            .replace("&apos;", "'")
            .replace("&amp;", "&");
        assert_eq!(back, s);
    }
}
