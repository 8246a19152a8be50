use zero_agent::json::Json;
use zero_agent::json_validate::{validation_report, JsonValidateTool};
use zero_agent::tool::ToolResult;

fn json(text: &str) -> Json {
    Json::parse(text).expect("valid JSON")
}

fn run(schema: &str, data: &str) -> ToolResult {
    let args = json(&format!("{{\"schema\": {}, \"data\": {}}}", schema, data));
    JsonValidateTool.execute("", &args)
}

#[test]
fn test_valid() {
    let r = run(
        r#"{ "type": "object", "properties": { "name": { "type": "string" } }, "required": ["name"] }"#,
        r#"{ "name": "Alice" }"#,
    );
    assert!(!r.is_error);
    assert!(r.content.contains("Valid"));
}

#[test]
fn test_invalid_type() {
    let r = run(
        r#"{ "type": "object", "properties": { "age": { "type": "integer" } }, "required": ["age"] }"#,
        r#"{ "age": "not-a-number" }"#,
    );
    assert!(!r.is_error);
    assert!(r.content.contains("Invalid"));
}

#[test]
fn test_missing_required() {
    let r = run(r#"{ "type": "object", "required": ["id"] }"#, r#"{}"#);
    assert!(r.content.contains("Invalid"));
}

#[test]
fn test_bad_schema() {
    let r = JsonValidateTool.execute("", &json(r#"{ "schema": "not-an-object", "data": {} }"#));
    assert!(r.is_error);
}

#[test]
fn valid_message_is_exact() {
    let r = run(r#"{ "type": "integer" }"#, "3");
    assert_eq!(r.content, "Valid: the data conforms to the schema.");
}

#[test]
fn invalid_report_counts_errors_and_gives_paths() {
    let r = run(
        r#"{ "type": "object", "properties": { "age": { "type": "integer" } }, "required": ["age"] }"#,
        r#"{ "age": "x" }"#,
    );
    assert!(r.content.starts_with("Invalid: 1 error(s) found:\n- "));
    assert!(r.content.ends_with("(path: /age)"));
}

#[test]
fn data_given_as_json_text_is_read_as_json() {
    let r = run(r#"{ "type": "object", "required": ["a"] }"#, r#""{\"a\": 1}""#);
    assert_eq!(r.content, "Valid: the data conforms to the schema.");
    // text that is not JSON stays a string
    let r = run(r#"{ "type": "string" }"#, r#""plain words""#);
    assert_eq!(r.content, "Valid: the data conforms to the schema.");
}

#[test]
fn missing_arguments_are_errors() {
    let r = JsonValidateTool.execute("", &json(r#"{ "data": 1 }"#));
    assert!(r.is_error);
    assert_eq!(r.content, "missing required argument: schema");
    let r = JsonValidateTool.execute("", &json(r#"{ "schema": {} }"#));
    assert!(r.is_error);
    assert_eq!(r.content, "missing required argument: data");
}

#[test]
fn bad_schema_message_names_the_problem() {
    let r = JsonValidateTool.execute("", &json(r#"{ "schema": "not-an-object", "data": {} }"#));
    assert!(r.content.starts_with("invalid schema: "));
}

#[test]
fn validation_is_concurrency_safe_and_named() {
    assert!(JsonValidateTool.is_concurrency_safe(&Json::Null));
    assert_eq!(JsonValidateTool.name(), "json_validate");
    let s = JsonValidateTool.parameters_schema().to_json_string();
    assert!(s.contains("\"required\":[\"schema\",\"data\"]"));
}

#[test]
fn report_formats_each_outcome() {
    let r = validation_report(Ok(vec![("a is bad".to_string(), "/a".to_string()), ("b".to_string(), "".to_string())]));
    assert!(!r.is_error);
    assert_eq!(r.content, "Invalid: 2 error(s) found:\n- a is bad (path: /a)\n- b (path: )");
    let r = validation_report(Ok(vec![]));
    assert_eq!(r.content, "Valid: the data conforms to the schema.");
    let r = validation_report(Err("oops".to_string()));
    assert!(r.is_error);
    assert_eq!(r.content, "invalid schema: oops");
}
