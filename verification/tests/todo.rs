use zero_agent::json::Json;
use zero_agent::todo::{TodoStatus, TodoTool};
use zero_agent::tool::ToolResult;

fn args(text: &str) -> Json {
    Json::parse(text).expect("test arguments are valid JSON")
}

fn exec(tool: &mut TodoTool, text: &str) -> ToolResult {
    let a = args(text);
    assert!(tool.accepts(&a));
    tool.execute("", &a)
}

#[test]
fn test_create_and_list() {
    let mut t = TodoTool::new();
    exec(&mut t, r#"{"operation": "create", "title": "Step 1", "parallel": false}"#);
    exec(&mut t, r#"{"operation": "create", "title": "Step 2", "parallel": true, "notes": "can run concurrently"}"#);
    let r = exec(&mut t, r#"{"operation": "list"}"#);
    assert!(r.content.contains("Step 1"));
    assert!(r.content.contains("Step 2"));
    assert!(r.content.contains("parallel=true"));
}

#[test]
fn test_depends_on() {
    let mut t = TodoTool::new();
    exec(&mut t, r#"{"operation": "create", "title": "Task A"}"#);
    exec(&mut t, r#"{"operation": "create", "title": "Task B"}"#);
    let r = exec(&mut t, r#"{"operation": "create", "title": "Task C", "depends_on": [1, 2]}"#);
    assert!(r.content.contains("depends_on"));
    let list = exec(&mut t, r#"{"operation": "list"}"#);
    assert!(list.content.contains("depends_on=[1, 2]"));
}

#[test]
fn test_forward_depends_on() {
    let mut t = TodoTool::new();
    let r = exec(&mut t, r#"{"operation": "create", "title": "Task X", "depends_on": [99]}"#);
    assert!(!r.is_error, "forward depends_on should be allowed at create time");
}

#[test]
fn test_update_parallel_and_deps() {
    let mut t = TodoTool::new();
    exec(&mut t, r#"{"operation": "create", "title": "Task A"}"#);
    exec(&mut t, r#"{"operation": "create", "title": "Task B"}"#);
    exec(&mut t, r#"{"operation": "update", "id": 2, "parallel": true, "depends_on": [1]}"#);
    let r = exec(&mut t, r#"{"operation": "list"}"#);
    assert!(r.content.contains("parallel=true"));
    assert!(r.content.contains("depends_on=[1]"));
}

#[test]
fn test_complete() {
    let mut t = TodoTool::new();
    exec(&mut t, r#"{"operation": "create", "title": "Task B"}"#);
    exec(&mut t, r#"{"operation": "complete", "id": 1}"#);
    let r = exec(&mut t, r#"{"operation": "list"}"#);
    assert!(r.content.contains("completed"));
}

#[test]
fn test_not_found() {
    let mut t = TodoTool::new();
    let r = exec(&mut t, r#"{"operation": "complete", "id": 99}"#);
    assert!(r.is_error);
}

#[test]
fn todo_is_marked_concurrency_safe() {
    let t = TodoTool::new();
    assert!(t.is_concurrency_safe(&Json::Null));
    assert!(t.is_concurrency_safe(&args(r#"{"operation":"create","title":"x"}"#)));
}

#[test]
fn requested_id_is_used_when_free_and_replaced_when_taken() {
    let mut t = TodoTool::new();
    let r = exec(&mut t, r#"{"operation": "create", "id": 5, "title": "Five"}"#);
    assert!(!r.is_error);
    assert!(r.content.contains("#5"));
    // 5 is taken: the new item gets the largest id plus one
    let r = exec(&mut t, r#"{"operation": "create", "id": 5, "title": "Again"}"#);
    assert!(r.content.contains("#6"));
    let ids: Vec<usize> = t.items().iter().map(|i| i.id).collect();
    assert_eq!(ids, vec![5, 6]);
}

#[test]
fn failed_calls_leave_the_list_unchanged() {
    let mut t = TodoTool::new();
    exec(&mut t, r#"{"operation": "create", "title": "Only"}"#);
    let before = exec(&mut t, r#"{"operation": "list"}"#).content;
    let r = exec(&mut t, r#"{"operation": "update", "id": 42, "status": "completed"}"#);
    assert!(r.is_error);
    let r = exec(&mut t, r#"{"operation": "frobnicate"}"#);
    assert!(r.is_error);
    let r = exec(&mut t, r#"{"operation": "create"}"#);
    assert!(r.is_error);
    assert_eq!(exec(&mut t, r#"{"operation": "list"}"#).content, before);
}

#[test]
fn complete_marks_only_that_item() {
    let mut t = TodoTool::new();
    exec(&mut t, r#"{"operation": "create", "title": "A"}"#);
    exec(&mut t, r#"{"operation": "create", "title": "B"}"#);
    let r = exec(&mut t, r#"{"operation": "complete", "id": 2}"#);
    assert!(r.content.contains("Completed todo #2"));
    let items = t.items();
    assert!(items[0].status == TodoStatus::Pending);
    assert!(items[1].status == TodoStatus::Completed);
}

#[test]
fn list_of_empty_tool() {
    let mut t = TodoTool::new();
    let r = exec(&mut t, r#"{"operation": "list"}"#);
    assert!(!r.is_error);
    assert_eq!(r.content, "No todo items.");
}

#[test]
fn schema_lists_the_operations() {
    let t = TodoTool::new();
    let s = t.parameters_schema().to_json_string();
    assert!(s.contains("\"operation\""));
    assert!(s.contains("\"complete\""));
    assert!(s.contains("\"depends_on\""));
    assert_eq!(t.name(), "todo");
}

#[test]
fn each_error_has_its_message() {
    let mut t = TodoTool::new();
    assert_eq!(exec(&mut t, r#"{}"#).content, "missing required argument: operation");
    assert_eq!(exec(&mut t, r#"{"operation": "frobnicate"}"#).content, "unknown operation: frobnicate");
    assert_eq!(exec(&mut t, r#"{"operation": "create"}"#).content, "'create' requires 'title'");
    assert_eq!(exec(&mut t, r#"{"operation": "update"}"#).content, "'update' requires 'id'");
    assert_eq!(exec(&mut t, r#"{"operation": "update", "id": 3}"#).content, "todo #3 not found");
    assert_eq!(exec(&mut t, r#"{"operation": "complete"}"#).content, "'complete' requires 'id'");
    exec(&mut t, r#"{"operation": "create", "title": "A"}"#);
    let r = exec(&mut t, r#"{"operation": "update", "id": 1, "status": "sleeping"}"#);
    assert!(r.is_error);
    assert_eq!(r.content, "unknown status: sleeping");
}

#[test]
fn create_message_and_listing_format() {
    let mut t = TodoTool::new();
    let r = exec(&mut t, r#"{"operation": "create", "title": "Plan", "parallel": true, "depends_on": [4]}"#);
    assert!(r.content.starts_with("Created todo #1: Plan [parallel=true"));
    let r = exec(&mut t, r#"{"operation": "update", "id": 1, "status": "in_progress", "notes": "halfway"}"#);
    assert!(!r.is_error);
    assert!(r.content.contains("in_progress"));
    let list = exec(&mut t, r#"{"operation": "list"}"#).content;
    assert!(list.contains("#1: Plan"));
    assert!(list.contains("in_progress"));
    assert!(list.contains("depends_on=[4]"));
    assert!(list.contains("halfway"));
}

#[test]
fn calls_keep_items_in_place() {
    let mut t = TodoTool::new();
    exec(&mut t, r#"{"operation": "create", "id": 7, "title": "A"}"#);
    exec(&mut t, r#"{"operation": "create", "id": 3, "title": "B"}"#);
    let before: Vec<usize> = t.items().iter().map(|i| i.id).collect();
    exec(&mut t, r#"{"operation": "update", "id": 3, "status": "completed", "parallel": true}"#);
    exec(&mut t, r#"{"operation": "complete", "id": 7}"#);
    exec(&mut t, r#"{"operation": "update", "id": 7, "status": "bogus", "notes": "x"}"#);
    let after: Vec<usize> = t.items().iter().map(|i| i.id).collect();
    assert_eq!(before, after);
    assert!(t.items()[0].notes.is_none());
    exec(&mut t, r#"{"operation": "create", "title": "C"}"#);
    let ids: Vec<usize> = t.items().iter().map(|i| i.id).collect();
    assert_eq!(ids, vec![7, 3, 8]);
}
