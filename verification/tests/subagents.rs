use std::sync::Arc;
use zero_agent::json::Json;
use zero_agent::skill::Skill;
use zero_agent::spawn::{ParallelSubAgentTool, SpawnSubAgentTool, MAX_PARALLEL};
use zero_agent::subagent::{SubAgentDef, SubAgentRegistry};
use zero_agent::types::Model;

fn json(text: &str) -> Json {
    Json::parse(text).expect("valid JSON")
}

fn registry() -> Arc<SubAgentRegistry<u32>> {
    let mut reg = SubAgentRegistry::new();
    reg.register(SubAgentDef::new("writer", "Writes text", "You write."));
    reg.register(SubAgentDef::new("coder", "Writes code", "You code."));
    Arc::new(reg)
}

#[test]
fn registry_is_ordered_by_name_and_replaces() {
    let mut reg: SubAgentRegistry<u32> = SubAgentRegistry::new();
    reg.register(SubAgentDef::new("zeta", "z", ""));
    reg.register(SubAgentDef::new("alpha", "a", ""));
    reg.register(SubAgentDef::new("mid", "m", ""));
    reg.register(SubAgentDef::new("alpha", "a2", ""));
    assert_eq!(reg.names(), vec!["alpha", "mid", "zeta"]);
    assert_eq!(reg.descriptions(), vec!["  - alpha: a2", "  - mid: m", "  - zeta: z"]);
    assert_eq!(reg.get("mid").unwrap().description, "m");
    assert!(reg.get("nope").is_none());
}

#[test]
fn def_builders() {
    let d: SubAgentDef<u32> = SubAgentDef::new("n", "d", "p").with_skill(Skill::new("s", "sd")).with_tool(3);
    assert_eq!(d.skills.len(), 1);
    assert_eq!(d.extra_tools, vec![3]);
    assert_eq!(d.system_prompt, "p");
}

#[test]
fn spawn_resolves_arguments() {
    let tool = SpawnSubAgentTool::new(registry(), Model::anthropic("m", "k"), "parent".to_string());
    let t = tool.resolve(&json(r#"{"agent_name": "coder", "prompt": "do it"}"#)).ok().unwrap();
    assert_eq!(t.agent_name, "coder");
    assert_eq!(t.prompt, "do it");
    assert_eq!(t.def.system_prompt, "You code.");
    let e = tool.resolve(&json(r#"{"prompt": "do it"}"#)).err().unwrap();
    assert!(e.is_error);
    assert_eq!(e.content, "missing required argument: agent_name");
    let e = tool.resolve(&json(r#"{"agent_name": "coder"}"#)).err().unwrap();
    assert_eq!(e.content, "missing required argument: prompt");
    let e = tool.resolve(&json(r#"{"agent_name": "poet", "prompt": "x"}"#)).err().unwrap();
    assert_eq!(e.content, "unknown sub-agent: 'poet'. Available: [coder, writer]");
}

#[test]
fn spawn_session_ids_and_outcomes() {
    let tool = SpawnSubAgentTool::new(registry(), Model::anthropic("m", "k"), "parent".to_string());
    assert_eq!(tool.child_session_id("coder", 7), "parent/coder-7");
    let ok = tool.outcome("coder", Ok("done".to_string()));
    assert!(!ok.is_error);
    assert_eq!(ok.content, "done");
    let err = tool.outcome("coder", Err("boom".to_string()));
    assert!(err.is_error);
    assert_eq!(err.content, "sub-agent 'coder' error: boom");
    assert_eq!(tool.name(), "spawn_subagent");
    assert!(tool.is_agent_spawner());
}

#[test]
fn spawn_schema_lists_agents() {
    let tool = SpawnSubAgentTool::new(registry(), Model::anthropic("m", "k"), "p".to_string());
    let s = tool.parameters_schema().to_json_string();
    assert!(s.contains("Available sub-agents:\\n  - coder: Writes code\\n  - writer: Writes text"));
    let empty: SpawnSubAgentTool<u32> =
        SpawnSubAgentTool::new(Arc::new(SubAgentRegistry::new()), Model::anthropic("m", "k"), "p".to_string());
    assert!(empty.parameters_schema().to_json_string().contains("(no sub-agents registered)"));
}

#[test]
fn parallel_reads_tasks() {
    let tool = ParallelSubAgentTool::new(registry(), Model::openai("m", "k"), "p".to_string());
    assert_eq!(tool.tasks(&json("{}")).err().unwrap().content, "missing required argument: tasks");
    assert_eq!(tool.tasks(&json(r#"{"tasks": []}"#)).err().unwrap().content, "tasks array is empty");
    let args = json(r#"{"tasks": [{"agent_name": "writer", "prompt": "a"}, {"prompt": "b"}, {"agent_name": "x", "prompt": "c"}, {"agent_name": "coder"}]}"#);
    let tasks = tool.tasks(&args).ok().unwrap();
    assert_eq!(tasks.len(), 4);
    let t0 = tool.resolve_task(0, &tasks[0]).ok().unwrap();
    assert_eq!(t0.agent_name, "writer");
    assert_eq!(tool.resolve_task(1, &tasks[1]).err().unwrap().content, "tasks[1] missing 'agent_name'");
    assert_eq!(
        tool.resolve_task(2, &tasks[2]).err().unwrap().content,
        "tasks[2] unknown sub-agent: 'x'. Available: [coder, writer]"
    );
    assert_eq!(tool.resolve_task(3, &tasks[3]).err().unwrap().content, "tasks[3] missing 'prompt'");
    assert_eq!(MAX_PARALLEL, 4);
}

#[test]
fn parallel_report_keeps_task_order() {
    let tool = ParallelSubAgentTool::new(registry(), Model::openai("m", "k"), "p".to_string());
    let r = tool.report(&vec![Some(Ok("one".to_string())), Some(Err("bad".to_string())), None]);
    assert!(!r.is_error);
    assert_eq!(
        r.content,
        "## Task 1 Result\none\n\n## Task 2 Error\nbad\n\n## Task 3 Error\ntask did not complete"
    );
    assert_eq!(tool.child_session_id("writer", 12), "p/writer-12");
    assert!(tool.parameters_schema().to_json_string().contains("\"maxItems\":16"));
}

#[test]
fn child_session_ids_differ_with_the_number() {
    let tool = SpawnSubAgentTool::new(registry(), Model::anthropic("m", "k"), "p".to_string());
    let a = tool.child_session_id("a-1", 2);
    let b = tool.child_session_id("a", 12);
    let c = tool.child_session_id("a-1", 3);
    assert_eq!(a, "p/a-1-2");
    assert_eq!(b, "p/a-12");
    assert_ne!(a, b);
    assert_ne!(a, c);
}
