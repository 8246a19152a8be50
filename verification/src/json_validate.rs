//! The JSON-validation tool: checks a JSON value against a JSON Schema with `jsonschema`.
use vstd::prelude::*;
use crate::json::{Json, JsonVal, json_parse, json_to_value, obj, jstr, member, object};
use crate::schema::{typed_param, str_array, strs_view, typed_param_exec, str_array_exec};
use crate::text::{owned, decimal, seq_join, decimal_usize, join_strings, strings_view};
use crate::tool::{ToolResult, ToolResultV};

verus! {

/// What the validation tool is for, as the model is told.
pub const VALIDATE_DESCRIPTION: &'static str = "Validate a JSON value against a JSON Schema. Returns a list of validation errors, or confirms the data is valid.";

/// What `jsonschema` reports for a schema and a value: the compile error's message, or
/// each validation error's message and instance path, in the order it yields them.
pub uninterp spec fn schema_check(schema: JsonVal, data: JsonVal) -> Result<Seq<(Seq<char>, Seq<char>)>, Seq<char>>;

/// Calls `jsonschema::validator_for` on the schema and `Validator::iter_errors` on the data
/// (both converted to `serde_json::Value`), keeping each error's text and instance path,
/// and the compile error's text. The contract claims that the outcome is a function of the
/// two values alone (named `schema_check`): this build of `jsonschema` resolves no external
/// references, so nothing is fetched, and its keyword validators walk the instance's
/// members in their (sorted) order, using their hash maps for lookups only.
#[verifier::external_body]
fn validate_with_schema(schema: &Json, data: &Json) -> (r: Result<Vec<(String, String)>, String>)
    ensures
        match r {
            Ok(v) => schema_check(schema@, data@) == Ok::<Seq<(Seq<char>, Seq<char>)>, Seq<char>>(
                v@.map_values(|e: (String, String)| (e.0@, e.1@)),
            ),
            Err(e) => schema_check(schema@, data@) == Err::<Seq<(Seq<char>, Seq<char>)>, Seq<char>>(e@),
        },
{
    let d = json_to_value(data);
    match jsonschema::validator_for(&json_to_value(schema)) {
        Ok(v) => Ok(v.iter_errors(&d).map(|e| (e.to_string(), e.instance_path().to_string())).collect()),
        Err(e) => Err(e.to_string()),
    }
}

/// The data to check: a string that holds JSON is read as that JSON, anything else is taken as it is.
pub open spec fn data_of(d: JsonVal) -> JsonVal {
    match d {
        JsonVal::Str(s) => match json_parse(s) {
            Some(v) => v,
            None => JsonVal::Str(s),
        },
        other => other,
    }
}

/// One error line: `- message (path: /a/b)`.
pub open spec fn error_line(e: (Seq<char>, Seq<char>)) -> Seq<char> {
    "- "@ + e.0 + " (path: "@ + e.1 + ")"@
}

/// What the tool answers for its arguments.
pub open spec fn validate_step(args: JsonVal) -> ToolResultV {
    match args.get("schema"@) {
        None => ToolResultV::err("missing required argument: schema"@),
        Some(schema) => match args.get("data"@) {
            None => ToolResultV::err("missing required argument: data"@),
            Some(d) => report_view(schema_check(schema, data_of(d))),
        },
    }
}

/// What the tool answers for the outcome of a check: the schema's error, that the data is
/// valid, or the number of errors and one line for each.
pub open spec fn report_view(check: Result<Seq<(Seq<char>, Seq<char>)>, Seq<char>>) -> ToolResultV {
    match check {
        Err(e) => ToolResultV::err("invalid schema: "@ + e),
        Ok(errors) => if errors.len() == 0 {
            ToolResultV::ok("Valid: the data conforms to the schema."@)
        } else {
            ToolResultV::ok(
                "Invalid: "@ + decimal(errors.len()) + " error(s) found:\n"@
                    + seq_join(errors.map_values(|e: (Seq<char>, Seq<char>)| error_line(e)), "\n"@),
            )
        },
    }
}

/// The answer for the outcome of a check (as `validate_with_schema` gives it): each error
/// is a message and an instance path.
pub fn validation_report(check: Result<Vec<(String, String)>, String>) -> (r: ToolResult)
    ensures
        r@ == report_view(match check {
            Ok(v) => Ok::<Seq<(Seq<char>, Seq<char>)>, Seq<char>>(v@.map_values(|e: (String, String)| (e.0@, e.1@))),
            Err(e) => Err::<Seq<(Seq<char>, Seq<char>)>, Seq<char>>(e@),
        }),
{
    match check {
        Err(e) => {
            let mut m = owned("invalid schema: ");
            m.append(e.as_str());
            ToolResult::err(m)
        },
        Ok(errors) => {
            if errors.len() == 0 {
                ToolResult::ok(owned("Valid: the data conforms to the schema."))
            } else {
                let ghost ev = errors@.map_values(|e: (String, String)| (e.0@, e.1@));
                let mut lines: Vec<String> = Vec::new();
                let mut i: usize = 0;
                while i < errors.len()
                    invariant
                        i <= errors@.len(),
                        ev == errors@.map_values(|e: (String, String)| (e.0@, e.1@)),
                        strings_view(lines@) == ev.take(i as int).map_values(|e: (Seq<char>, Seq<char>)| error_line(e)),
                    decreases errors@.len() - i,
                {
                    let ghost prev = strings_view(lines@);
                    let mut l = owned("- ");
                    l.append(errors[i].0.as_str());
                    l.append(" (path: ");
                    l.append(errors[i].1.as_str());
                    l.append(")");
                    lines.push(l);
                    assert(strings_view(lines@) =~= prev.push(error_line(ev[i as int])));
                    assert(ev.take(i + 1).map_values(|e: (Seq<char>, Seq<char>)| error_line(e))
                        =~= ev.take(i as int).map_values(|e: (Seq<char>, Seq<char>)| error_line(e)).push(error_line(ev[i as int])));
                    i = i + 1;
                }
                assert(ev.take(errors@.len() as int) =~= ev);
                let mut m = owned("Invalid: ");
                m.append(decimal_usize(errors.len()).as_str());
                m.append(" error(s) found:\n");
                m.append(join_strings(&lines, "\n").as_str());
                ToolResult::ok(m)
            }
        },
    }
}

/// The parameter schema of the validation tool.
pub open spec fn validate_schema() -> JsonVal {
    obj(seq![
        ("type"@, jstr("object"@)),
        ("properties"@, obj(seq![
            ("schema"@, typed_param("object"@, "The JSON Schema to validate against."@)),
            ("data"@, obj(seq![("description"@, jstr("The JSON value to validate."@))])),
        ])),
        ("required"@, str_array(seq!["schema"@, "data"@])),
    ])
}

/// Validates a JSON value against a JSON Schema.
pub struct JsonValidateTool;

impl JsonValidateTool {
    pub fn name(&self) -> (r: &'static str)
        ensures
            r@ == "json_validate"@,
    {
        "json_validate"
    }

    pub fn description(&self) -> (r: &'static str)
        ensures
            r@ == VALIDATE_DESCRIPTION@,
    {
        VALIDATE_DESCRIPTION
    }

    /// The parameters: `schema`, an object, and `data`, any value; both required.
    pub fn parameters_schema(&self) -> (r: Json)
        ensures
            r@ == validate_schema(),
    {
        let schema = typed_param_exec("object", "The JSON Schema to validate against.");
        let mut dm: Vec<(String, Json)> = Vec::new();
        dm.push(member("description", Json::string("The JSON value to validate.")));
        let data = object(dm);
        let mut p: Vec<(String, Json)> = Vec::new();
        p.push(member("schema", schema));
        p.push(member("data", data));
        let props = object(p);
        let mut req: Vec<&str> = Vec::new();
        req.push("schema");
        req.push("data");
        let required = str_array_exec(&req);
        let mut m: Vec<(String, Json)> = Vec::new();
        m.push(member("type", Json::string("object")));
        m.push(member("properties", props));
        m.push(member("required", required));
        let r = object(m);
        proof {
            let sv = validate_schema();
            assert(strs_view(req@) =~= seq!["schema"@, "data"@]);
            assert(data@->Object_0 =~= seq![("description"@, jstr("The JSON value to validate."@))]);
            assert(props@->Object_0 =~= sv->Object_0[1].1->Object_0);
            assert(r@->Object_0 =~= sv->Object_0);
        }
        r
    }

    /// Validation only reads its arguments, so every call may run together with others.
    pub fn is_concurrency_safe(&self, args: &Json) -> (r: bool)
        ensures
            r,
    {
        true
    }

    /// Checks `args.data` against `args.schema` (a string `data` that holds JSON is read as
    /// that JSON) and reports the outcome; a schema that does not compile is an error.
    pub fn execute(&self, tool_call_id: &str, args: &Json) -> (r: ToolResult)
        ensures
            r@ == validate_step(args@),
    {
        let schema = match args.get("schema") {
            Some(s) => s,
            None => return ToolResult::err(owned("missing required argument: schema")),
        };
        let data = match args.get("data") {
            Some(Json::Str(s)) => match Json::parse(s.as_str()) {
                Some(v) => v,
                None => Json::Str(s.clone()),
            },
            Some(d) => d.clone(),
            None => return ToolResult::err(owned("missing required argument: data")),
        };
        validation_report(validate_with_schema(schema, &data))
    }
}

} // verus!
