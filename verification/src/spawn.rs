//! The two tools that hand work to registered sub-agents: `spawn_subagent` (one task, its
//! result awaited) and `parallel_subagent` (several tasks, their results reported in the
//! order given). What they decide is stated here: how the arguments are read, which
//! definition is chosen, the child's session id and how outcomes are reported. Running the
//! child agents is done by the caller.
use vstd::prelude::*;
use std::sync::Arc;
use crate::json::{Json, JsonVal, json_vals, obj, jstr, member, object, array};
use crate::subagent::{SubAgentDef, SubAgentRegistry, find_def, description_line};
use crate::tool::{ToolResult, ToolResultV};
use crate::types::Model;
use crate::text::{owned, seq_join, join_strings, strings_view, decimal, decimal_usize, decimal_string, digit_char};

verus! {

/// What `parallel_subagent` is for, as the model is told.
pub const PARALLEL_DESCRIPTION: &'static str = "Spawn multiple pre-defined sub-agents in parallel. All tasks run concurrently; results are returned in original order. Use when tasks are independent of each other.";

/// What `spawn_subagent` is for, as the model is told.
pub const SPAWN_DESCRIPTION: &'static str = "Spawn a pre-defined sub-agent to handle an isolated task. The sub-agent runs in its own context — only the final result is returned. Use this for tasks that require isolation or a specialized agent.";

/// How many sub-agents of one `parallel_subagent` call run at the same time.
pub const MAX_PARALLEL: usize = 4;

/// The list of registered sub-agents shown in a schema: one line per definition, or a
/// note that there are none.
pub open spec fn available_text<T>(agents: Seq<Arc<SubAgentDef<T>>>) -> Seq<char> {
    if agents.len() == 0 {
        "  (no sub-agents registered)"@
    } else {
        seq_join(agents.map_values(|d: Arc<SubAgentDef<T>>| description_line(d)), "\n"@)
    }
}

/// The names of the registered sub-agents, separated by `, `.
pub open spec fn names_text<T>(agents: Seq<Arc<SubAgentDef<T>>>) -> Seq<char> {
    seq_join(agents.map_values(|d: Arc<SubAgentDef<T>>| d.name@), ", "@)
}

/// The message for a name no sub-agent is registered under.
pub open spec fn unknown_agent_text<T>(agents: Seq<Arc<SubAgentDef<T>>>, name: Seq<char>) -> Seq<char> {
    "unknown sub-agent: '"@ + name + "'. Available: ["@ + names_text(agents) + "]"@
}

/// What a task's arguments ask for: the agent name, the prompt and the definition, or the
/// message of what is wrong, each message after `prefix`.
pub open spec fn task_resolution<T>(
    agents: Seq<Arc<SubAgentDef<T>>>,
    args: JsonVal,
    missing_name: Seq<char>,
    missing_prompt: Seq<char>,
    prefix: Seq<char>,
) -> Result<(Seq<char>, Seq<char>, Arc<SubAgentDef<T>>), Seq<char>> {
    match args.at("agent_name"@).as_str() {
        None => Err(missing_name),
        Some(name) => match args.at("prompt"@).as_str() {
            None => Err(missing_prompt),
            Some(prompt) => match find_def(agents, name) {
                None => Err(prefix + unknown_agent_text(agents, name)),
                Some(d) => Ok((name, prompt, d)),
            },
        },
    }
}

/// The session id of a child: `{parent}/{agent_name}-{seq}`.
pub open spec fn child_session_text(parent: Seq<char>, agent_name: Seq<char>, seq: u64) -> Seq<char> {
    parent + "/"@ + agent_name + "-"@ + decimal(seq as nat)
}

/// A decimal numeral is made of digits, at least one.
proof fn lemma_decimal_digits(n: nat)
    ensures
        decimal(n).len() >= 1,
        forall|i: int| 0 <= i < decimal(n).len() ==> '0' <= #[trigger] decimal(n)[i] <= '9',
    decreases n,
{
    if n >= 10 {
        lemma_decimal_digits(n / 10);
        let d = decimal(n / 10);
        assert forall|i: int| 0 <= i < decimal(n).len() implies '0' <= #[trigger] decimal(n)[i] <= '9' by {
            if i < d.len() {
                assert(decimal(n)[i] == d[i]);
            }
        }
    }
}

/// Different numbers have different numerals.
proof fn lemma_decimal_injective(a: nat, b: nat)
    requires
        decimal(a) == decimal(b),
    ensures
        a == b,
    decreases a,
{
    if a < 10 && b < 10 {
        assert(decimal(a) == seq![digit_char(a)]);
        assert(decimal(b) == seq![digit_char(b)]);
        assert(seq![digit_char(a)][0] == digit_char(a));
        assert(seq![digit_char(b)][0] == digit_char(b));
        assert(decimal(a)[0] == decimal(b)[0]);
        lemma_digit_injective(a, b);
    } else if a < 10 {
        lemma_decimal_digits(b / 10);
        assert(decimal(b).len() >= 2);
    } else if b < 10 {
        lemma_decimal_digits(a / 10);
        assert(decimal(a).len() >= 2);
    } else {
        assert(decimal(a).drop_last() =~= decimal(a / 10));
        assert(decimal(b).drop_last() =~= decimal(b / 10));
        lemma_decimal_injective(a / 10, b / 10);
        assert(decimal(a) == decimal(a / 10).push(digit_char(a % 10)));
        assert(decimal(b) == decimal(b / 10).push(digit_char(b % 10)));
        assert(decimal(a / 10).push(digit_char(a % 10)).last() == digit_char(a % 10));
        assert(decimal(b / 10).push(digit_char(b % 10)).last() == digit_char(b % 10));
        assert(decimal(a).last() == decimal(b).last());
        lemma_digit_injective(a % 10, b % 10);
    }
}

proof fn lemma_digit_injective(a: nat, b: nat)
    requires
        a < 10,
        b < 10,
        digit_char(a) == digit_char(b),
    ensures
        a == b,
{
}

/// Children started with different sequence numbers never share a session id, whatever
/// their agents are called: the numeral after the last `-` tells the number.
pub proof fn law_child_session_ids_distinct(parent: Seq<char>, n1: Seq<char>, s1: u64, n2: Seq<char>, s2: u64)
    requires
        s1 != s2,
    ensures
        child_session_text(parent, n1, s1) != child_session_text(parent, n2, s2),
{
    let d1 = decimal(s1 as nat);
    let d2 = decimal(s2 as nat);
    lemma_decimal_digits(s1 as nat);
    lemma_decimal_digits(s2 as nat);
    let x = child_session_text(parent, n1, s1);
    let y = child_session_text(parent, n2, s2);
    if x == y {
        assert(x =~= parent + "/"@ + n1 + "-"@ + d1);
        assert(y =~= parent + "/"@ + n2 + "-"@ + d2);
        reveal_strlit("-");
        let len = x.len();
        if d1.len() < d2.len() {
            let k = len - d1.len() - 1;
            assert(x[k] == '-');
            assert(y[k] == d2[k - (len - d2.len())]);
        } else if d2.len() < d1.len() {
            let k = len - d2.len() - 1;
            assert(y[k] == '-');
            assert(x[k] == d1[k - (len - d1.len())]);
        } else {
            assert forall|i: int| 0 <= i < d1.len() implies d1[i] == d2[i] by {
                assert(x[len - d1.len() + i] == d1[i]);
                assert(y[len - d2.len() + i] == d2[i]);
            }
            assert(d1 =~= d2);
            lemma_decimal_injective(s1 as nat, s2 as nat);
        }
    }
}

/// A sub-agent chosen for a task, with the prompt to give it.
pub struct SpawnTarget<T> {
    pub agent_name: String,
    pub prompt: String,
    pub def: Arc<SubAgentDef<T>>,
}

/// The target as plain values: agent name, prompt, definition.
pub open spec fn target_view<T>(t: SpawnTarget<T>) -> (Seq<char>, Seq<char>, Arc<SubAgentDef<T>>) {
    (t.agent_name@, t.prompt@, t.def)
}

/// A resolution as the tool reports it: the target, or a failed result with the message.
pub open spec fn resolution_matches<T>(
    r: Result<SpawnTarget<T>, ToolResult>,
    expected: Result<(Seq<char>, Seq<char>, Arc<SubAgentDef<T>>), Seq<char>>,
) -> bool {
    match r {
        Ok(t) => expected == Ok::<(Seq<char>, Seq<char>, Arc<SubAgentDef<T>>), Seq<char>>(target_view(t)),
        Err(e) => expected == Err::<(Seq<char>, Seq<char>, Arc<SubAgentDef<T>>), Seq<char>>(e@.content)
            && e@.is_error,
    }
}

/// The `- name: description` lines of the registry, or the note that it is empty.
fn available<T>(registry: &SubAgentRegistry<T>) -> (r: String)
    ensures
        r@ == available_text(registry@),
{
    if registry.is_empty() {
        owned("  (no sub-agents registered)")
    } else {
        join_strings(&registry.descriptions(), "\n")
    }
}

/// The names of the registry joined with `, `.
fn names_joined<T>(registry: &SubAgentRegistry<T>) -> (r: String)
    ensures
        r@ == names_text(registry@),
{
    let names = registry.names();
    let mut owned_names: Vec<String> = Vec::new();
    let mut i: usize = 0;
    while i < names.len()
        invariant
            i <= names@.len(),
            names@.len() == registry@.len(),
            forall|k: int| 0 <= k < names@.len() ==> (#[trigger] names@[k])@ == registry@[k].name@,
            strings_view(owned_names@) == registry@.take(i as int).map_values(|d: Arc<SubAgentDef<T>>| d.name@),
        decreases names@.len() - i,
    {
        let ghost prev = strings_view(owned_names@);
        owned_names.push(owned(names[i]));
        assert(strings_view(owned_names@) =~= prev.push(registry@[i as int].name@));
        assert(registry@.take(i + 1).map_values(|d: Arc<SubAgentDef<T>>| d.name@)
            =~= registry@.take(i as int).map_values(|d: Arc<SubAgentDef<T>>| d.name@).push(registry@[i as int].name@));
        i = i + 1;
    }
    assert(registry@.take(registry@.len() as int) =~= registry@);
    join_strings(&owned_names, ", ")
}

/// Reads `agent_name` and `prompt` from `args` and looks the name up.
fn resolve_with<T>(
    registry: &SubAgentRegistry<T>,
    args: &Json,
    missing_name: String,
    missing_prompt: String,
    prefix: String,
) -> (r: Result<SpawnTarget<T>, ToolResult>)
    ensures
        resolution_matches(r, task_resolution(registry@, args@, missing_name@, missing_prompt@, prefix@)),
{
    let agent_name = match args.str_at("agent_name") {
        Some(n) => n,
        None => return Err(ToolResult::err(missing_name)),
    };
    let prompt = match args.str_at("prompt") {
        Some(p) => p,
        None => return Err(ToolResult::err(missing_prompt)),
    };
    match registry.get(agent_name) {
        Some(def) => Ok(SpawnTarget { agent_name: owned(agent_name), prompt: owned(prompt), def }),
        None => {
            let ghost p = prefix@;
            let mut m = prefix;
            m.append("unknown sub-agent: '");
            m.append(agent_name);
            m.append("'. Available: [");
            m.append(names_joined(registry).as_str());
            m.append("]");
            assert(m@ =~= p + unknown_agent_text(registry@, agent_name@));
            Err(ToolResult::err(m))
        },
    }
}

/// `{parent}/{agent_name}-{seq}`.
fn child_session(parent: &str, agent_name: &str, seq: u64) -> (r: String)
    ensures
        r@ == child_session_text(parent@, agent_name@, seq),
{
    let mut s = owned(parent);
    s.append("/");
    s.append(agent_name);
    s.append("-");
    s.append(decimal_string(seq).as_str());
    s
}

/// A `{"type": "string", "description": ...}` schema.
pub open spec fn string_param(description: Seq<char>) -> JsonVal {
    obj(seq![("type"@, jstr("string"@)), ("description"@, jstr(description))])
}

fn string_param_exec(description: &str) -> (r: Json)
    ensures
        r@ == string_param(description@),
{
    let mut m: Vec<(String, Json)> = Vec::new();
    m.push(member("type", Json::string("string")));
    m.push(member("description", Json::string(description)));
    let r = object(m);
    assert(r@->Object_0 =~= string_param(description@)->Object_0);
    r
}

/// `["agent_name", "prompt"]`.
pub open spec fn required_name_prompt() -> JsonVal {
    JsonVal::Array(seq![jstr("agent_name"@), jstr("prompt"@)])
}

fn required_name_prompt_exec() -> (r: Json)
    ensures
        r@ == required_name_prompt(),
{
    let mut v: Vec<Json> = Vec::new();
    v.push(Json::string("agent_name"));
    v.push(Json::string("prompt"));
    let r = array(v);
    assert(r@->Array_0 =~= required_name_prompt()->Array_0);
    r
}

/// An object schema with the two properties `agent_name` and `prompt`, both required.
pub open spec fn name_prompt_schema(name_description: Seq<char>, prompt_description: Seq<char>) -> JsonVal {
    obj(seq![
        ("type"@, jstr("object"@)),
        ("properties"@, obj(seq![
            ("agent_name"@, string_param(name_description)),
            ("prompt"@, string_param(prompt_description)),
        ])),
        ("required"@, required_name_prompt()),
    ])
}

fn name_prompt_schema_exec(name_description: &str, prompt_description: &str) -> (r: Json)
    ensures
        r@ == name_prompt_schema(name_description@, prompt_description@),
{
    let mut p: Vec<(String, Json)> = Vec::new();
    p.push(member("agent_name", string_param_exec(name_description)));
    p.push(member("prompt", string_param_exec(prompt_description)));
    let props = object(p);
    assert(props@->Object_0 =~= seq![
        ("agent_name"@, string_param(name_description@)),
        ("prompt"@, string_param(prompt_description@)),
    ]);
    let mut m: Vec<(String, Json)> = Vec::new();
    m.push(member("type", Json::string("object")));
    m.push(member("properties", props));
    m.push(member("required", required_name_prompt_exec()));
    let r = object(m);
    assert(r@->Object_0 =~= name_prompt_schema(name_description@, prompt_description@)->Object_0);
    r
}

// ---------------------------------------------------------------------------
// spawn_subagent
// ---------------------------------------------------------------------------

/// The parameter schema of `spawn_subagent` for the given registry.
pub open spec fn spawn_schema<T>(agents: Seq<Arc<SubAgentDef<T>>>) -> JsonVal {
    name_prompt_schema(
        "Name of the sub-agent to spawn.\nAvailable sub-agents:\n"@ + available_text(agents),
        "The task prompt to send to the sub-agent."@,
    )
}

/// What `spawn_subagent` does with an outcome of the child run.
pub open spec fn spawn_outcome_view(agent_name: Seq<char>, outcome: Result<Seq<char>, Seq<char>>) -> ToolResultV {
    match outcome {
        Ok(out) => ToolResultV::ok(out),
        Err(e) => ToolResultV::err("sub-agent '"@ + agent_name + "' error: "@ + e),
    }
}

/// Dispatches one registered sub-agent by name; the child runs in its own context and only
/// its final output comes back.
pub struct SpawnSubAgentTool<T> {
    registry: Arc<SubAgentRegistry<T>>,
    model: Model,
    parent_session_id: String,
}

impl<T> SpawnSubAgentTool<T> {
    pub fn new(registry: Arc<SubAgentRegistry<T>>, model: Model, parent_session_id: String) -> (r: Self)
        ensures
            r.registry() == registry,
            r.model() == model,
            r.parent_session_id()@ == parent_session_id@,
    {
        SpawnSubAgentTool { registry, model, parent_session_id }
    }

    pub closed spec fn registry(&self) -> Arc<SubAgentRegistry<T>> {
        self.registry
    }

    pub closed spec fn model(&self) -> Model {
        self.model
    }

    pub closed spec fn parent_session_id(&self) -> String {
        self.parent_session_id
    }

    /// The model children run with.
    pub fn child_model(&self) -> (r: &Model)
        ensures
            *r == self.model(),
    {
        &self.model
    }

    pub fn name(&self) -> (r: &'static str)
        ensures
            r@ == "spawn_subagent"@,
    {
        "spawn_subagent"
    }

    /// This tool starts agents, so sub-agents never get it.
    pub fn is_agent_spawner(&self) -> (r: bool)
        ensures
            r,
    {
        true
    }

    pub fn description(&self) -> (r: &'static str)
        ensures
            r@ == SPAWN_DESCRIPTION@,
    {
        SPAWN_DESCRIPTION
    }

    /// The parameters: the name of a registered sub-agent (the schema lists them) and the
    /// prompt.
    pub fn parameters_schema(&self) -> (r: Json)
        ensures
            r@ == spawn_schema(self.registry()@),
    {
        let mut d = owned("Name of the sub-agent to spawn.\nAvailable sub-agents:\n");
        d.append(available(&self.registry).as_str());
        name_prompt_schema_exec(d.as_str(), "The task prompt to send to the sub-agent.")
    }

    /// Reads `agent_name` and `prompt` and finds the definition; a missing argument or an
    /// unknown name is a failed result.
    pub fn resolve(&self, args: &Json) -> (r: Result<SpawnTarget<T>, ToolResult>)
        ensures
            resolution_matches(r, task_resolution(
                self.registry()@,
                args@,
                "missing required argument: agent_name"@,
                "missing required argument: prompt"@,
                ""@,
            )),
    {
        proof { reveal_strlit(""); }
        let e: &str = "";
        assert(e@ =~= Seq::<char>::empty());
        resolve_with(
            &self.registry,
            args,
            owned("missing required argument: agent_name"),
            owned("missing required argument: prompt"),
            owned(e),
        )
    }

    /// The session id of the child started as number `seq`: `{parent}/{agent_name}-{seq}`.
    pub fn child_session_id(&self, agent_name: &str, seq: u64) -> (r: String)
        ensures
            r@ == child_session_text(self.parent_session_id()@, agent_name@, seq),
    {
        child_session(self.parent_session_id.as_str(), agent_name, seq)
    }

    /// The result of the call once the child has run: its output, or a failed result that
    /// names the sub-agent.
    pub fn outcome(&self, agent_name: &str, outcome: Result<String, String>) -> (r: ToolResult)
        ensures
            r@ == spawn_outcome_view(agent_name@, match outcome {
                Ok(o) => Ok::<Seq<char>, Seq<char>>(o@),
                Err(e) => Err::<Seq<char>, Seq<char>>(e@),
            }),
    {
        match outcome {
            Ok(out) => ToolResult::ok(out),
            Err(e) => {
                let mut m = owned("sub-agent '");
                m.append(agent_name);
                m.append("' error: ");
                m.append(e.as_str());
                ToolResult::err(m)
            },
        }
    }
}

// ---------------------------------------------------------------------------
// parallel_subagent
// ---------------------------------------------------------------------------

/// The parameter schema of `parallel_subagent` for the given registry.
pub open spec fn parallel_schema<T>(agents: Seq<Arc<SubAgentDef<T>>>) -> JsonVal {
    obj(seq![
        ("type"@, jstr("object"@)),
        ("properties"@, obj(seq![
            ("tasks"@, obj(seq![
                ("type"@, jstr("array"@)),
                ("description"@, jstr("List of independent tasks to run in parallel."@)),
                ("items"@, name_prompt_schema(
                    "Name of the sub-agent to spawn.\nAvailable:\n"@ + available_text(agents),
                    "The task prompt for this sub-agent."@,
                )),
                ("minItems"@, JsonVal::UInt(1)),
                ("maxItems"@, JsonVal::UInt(16)),
            ])),
        ])),
        ("required"@, JsonVal::Array(seq![jstr("tasks"@)])),
    ])
}

/// The tasks of a `parallel_subagent` call, or the message of what is wrong.
pub open spec fn tasks_of(args: JsonVal) -> Result<Seq<JsonVal>, Seq<char>> {
    match args.at("tasks"@).as_array() {
        None => Err("missing required argument: tasks"@),
        Some(t) => if t.len() == 0 {
            Err("tasks array is empty"@)
        } else {
            Ok(t)
        },
    }
}

/// The `tasks[{idx}]` prefix of the messages about one task.
pub open spec fn task_prefix(idx: nat) -> Seq<char> {
    "tasks["@ + decimal(idx) + "]"@
}

/// The section of the report for task number `i` (counted from one).
pub open spec fn task_section(i: nat, r: Option<Result<Seq<char>, Seq<char>>>) -> Seq<char> {
    match r {
        Some(Ok(text)) => "## Task "@ + decimal(i) + " Result\n"@ + text,
        Some(Err(e)) => "## Task "@ + decimal(i) + " Error\n"@ + e,
        None => "## Task "@ + decimal(i) + " Error\ntask did not complete"@,
    }
}

/// The report of a `parallel_subagent` call: one section per task, in the order of the
/// tasks, separated by a blank line.
pub open spec fn parallel_report_text(results: Seq<Option<Result<Seq<char>, Seq<char>>>>) -> Seq<char> {
    seq_join(Seq::new(results.len(), |i: int| task_section((i + 1) as nat, results[i])), "\n\n"@)
}

/// The outcomes as plain values.
pub open spec fn outcomes_view(v: Seq<Option<Result<String, String>>>) -> Seq<Option<Result<Seq<char>, Seq<char>>>> {
    v.map_values(|o: Option<Result<String, String>>| match o {
        Some(Ok(t)) => Some(Ok(t@)),
        Some(Err(e)) => Some(Err(e@)),
        None => None,
    })
}

/// Dispatches several registered sub-agents at once and reports their results in the
/// order of the tasks.
pub struct ParallelSubAgentTool<T> {
    registry: Arc<SubAgentRegistry<T>>,
    model: Model,
    parent_session_id: String,
}

impl<T> ParallelSubAgentTool<T> {
    pub fn new(registry: Arc<SubAgentRegistry<T>>, model: Model, parent_session_id: String) -> (r: Self)
        ensures
            r.registry() == registry,
            r.model() == model,
            r.parent_session_id()@ == parent_session_id@,
    {
        ParallelSubAgentTool { registry, model, parent_session_id }
    }

    pub closed spec fn registry(&self) -> Arc<SubAgentRegistry<T>> {
        self.registry
    }

    pub closed spec fn model(&self) -> Model {
        self.model
    }

    pub closed spec fn parent_session_id(&self) -> String {
        self.parent_session_id
    }

    /// The model children run with.
    pub fn child_model(&self) -> (r: &Model)
        ensures
            *r == self.model(),
    {
        &self.model
    }

    pub fn name(&self) -> (r: &'static str)
        ensures
            r@ == "parallel_subagent"@,
    {
        "parallel_subagent"
    }

    /// This tool starts agents, so sub-agents never get it.
    pub fn is_agent_spawner(&self) -> (r: bool)
        ensures
            r,
    {
        true
    }

    pub fn description(&self) -> (r: &'static str)
        ensures
            r@ == PARALLEL_DESCRIPTION@,
    {
        PARALLEL_DESCRIPTION
    }

    /// The parameters: a non-empty list of at most 16 tasks, each a registered sub-agent's
    /// name and a prompt.
    pub fn parameters_schema(&self) -> (r: Json)
        ensures
            r@ == parallel_schema(self.registry()@),
    {
        let mut d = owned("Name of the sub-agent to spawn.\nAvailable:\n");
        d.append(available(&self.registry).as_str());
        let items = name_prompt_schema_exec(d.as_str(), "The task prompt for this sub-agent.");
        let mut t: Vec<(String, Json)> = Vec::new();
        t.push(member("type", Json::string("array")));
        t.push(member("description", Json::string("List of independent tasks to run in parallel.")));
        t.push(member("items", items));
        t.push(member("minItems", Json::UInt(1)));
        t.push(member("maxItems", Json::UInt(16)));
        let tasks = object(t);
        let mut p: Vec<(String, Json)> = Vec::new();
        p.push(member("tasks", tasks));
        let props = object(p);
        let mut req: Vec<Json> = Vec::new();
        req.push(Json::string("tasks"));
        let required = array(req);
        let mut m: Vec<(String, Json)> = Vec::new();
        m.push(member("type", Json::string("object")));
        m.push(member("properties", props));
        m.push(member("required", required));
        let r = object(m);
        proof {
            let pv = parallel_schema(self.registry()@);
            let tv = pv->Object_0[1].1->Object_0[0].1;
            assert(tasks@->Object_0 =~= tv->Object_0);
            assert(props@->Object_0 =~= pv->Object_0[1].1->Object_0);
            assert(required@->Array_0 =~= seq![jstr("tasks"@)]);
            assert(r@->Object_0 =~= pv->Object_0);
        }
        r
    }

    /// The tasks of the call: a missing or non-array `tasks`, or an empty one, is a failed
    /// result.
    pub fn tasks<'a>(&self, args: &'a Json) -> (r: Result<&'a Vec<Json>, ToolResult>)
        ensures
            match r {
                Ok(t) => tasks_of(args@) == Ok::<Seq<JsonVal>, Seq<char>>(json_vals(t@)),
                Err(e) => tasks_of(args@) == Err::<Seq<JsonVal>, Seq<char>>(e@.content) && e@.is_error,
            },
    {
        match args.array_at("tasks") {
            None => Err(ToolResult::err(owned("missing required argument: tasks"))),
            Some(t) => if t.len() == 0 {
                Err(ToolResult::err(owned("tasks array is empty")))
            } else {
                Ok(t)
            },
        }
    }

    /// Reads task number `idx` (counted from zero): its `agent_name` and `prompt`, and the
    /// definition; the messages name the task as `tasks[idx]`.
    pub fn resolve_task(&self, idx: usize, task: &Json) -> (r: Result<SpawnTarget<T>, ToolResult>)
        ensures
            resolution_matches(r, task_resolution(
                self.registry()@,
                task@,
                task_prefix(idx as nat) + " missing 'agent_name'"@,
                task_prefix(idx as nat) + " missing 'prompt'"@,
                task_prefix(idx as nat) + " "@,
            )),
    {
        let mut prefix = owned("tasks[");
        prefix.append(decimal_usize(idx).as_str());
        prefix.append("]");
        let mut missing_name = prefix.clone();
        missing_name.append(" missing 'agent_name'");
        let mut missing_prompt = prefix.clone();
        missing_prompt.append(" missing 'prompt'");
        let mut unknown = prefix;
        unknown.append(" ");
        resolve_with(&self.registry, task, missing_name, missing_prompt, unknown)
    }

    /// The session id of the child started as number `seq`: `{parent}/{agent_name}-{seq}`.
    pub fn child_session_id(&self, agent_name: &str, seq: u64) -> (r: String)
        ensures
            r@ == child_session_text(self.parent_session_id()@, agent_name@, seq),
    {
        child_session(self.parent_session_id.as_str(), agent_name, seq)
    }

    /// The report of the call, given the outcome of each task in task order (`None` for a
    /// task that did not complete). It is always a successful result.
    pub fn report(&self, results: &Vec<Option<Result<String, String>>>) -> (r: ToolResult)
        ensures
            r@ == ToolResultV::ok(parallel_report_text(outcomes_view(results@))),
    {
        let ghost rv = outcomes_view(results@);
        let ghost all = Seq::new(rv.len(), |i: int| task_section((i + 1) as nat, rv[i]));
        let mut sections: Vec<String> = Vec::new();
        let mut i: usize = 0;
        while i < results.len()
            invariant
                i <= results@.len(),
                rv == outcomes_view(results@),
                all == Seq::new(rv.len(), |i: int| task_section((i + 1) as nat, rv[i])),
                strings_view(sections@) == all.take(i as int),
            decreases results@.len() - i,
        {
            let ghost prev = strings_view(sections@);
            let mut s = owned("## Task ");
            s.append(decimal_usize(i + 1).as_str());
            match &results[i] {
                Some(Ok(text)) => {
                    s.append(" Result\n");
                    s.append(text.as_str());
                },
                Some(Err(e)) => {
                    s.append(" Error\n");
                    s.append(e.as_str());
                },
                None => {
                    s.append(" Error\ntask did not complete");
                },
            }
            sections.push(s);
            assert(strings_view(sections@) =~= prev.push(all[i as int]));
            assert(all.take(i + 1) =~= all.take(i as int).push(all[i as int]));
            i = i + 1;
        }
        assert(all.take(results@.len() as int) =~= all);
        ToolResult::ok(join_strings(&sections, "\n\n"))
    }
}

} // verus!

verus! {

proof fn lemma_find_def_named<T>(s: Seq<Arc<SubAgentDef<T>>>, name: Seq<char>)
    ensures
        find_def(s, name) matches Some(d) ==> d.name@ == name && s.contains(d),
        find_def(s, name) is None ==> forall|i: int| 0 <= i < s.len() ==> s[i].name@ != name,
    decreases s.len(),
{
    if s.len() > 0 && s[0].name@ != name {
        lemma_find_def_named(s.drop_first(), name);
        if let Some(d) = find_def(s, name) {
            let i = choose|i: int| 0 <= i < s.drop_first().len() && s.drop_first()[i] == d;
            assert(s[i + 1] == d);
        }
        assert forall|i: int| 0 <= i < s.len() && find_def(s, name) is None implies s[i].name@ != name by {
            if i > 0 {
                assert(s[i] == s.drop_first()[i - 1]);
            }
        }
    } else if s.len() > 0 {
        assert(s[0] == s[0]);
    }
}

/// A task resolves to the registered sub-agent that carries the name it asks for, with the
/// prompt it gives; it is refused for want of a string `agent_name`, then of a string
/// `prompt`, and a name no sub-agent carries is refused with a message that names it.
pub proof fn law_task_goes_to_the_named_agent<T>(
    agents: Seq<Arc<SubAgentDef<T>>>,
    args: JsonVal,
    missing_name: Seq<char>,
    missing_prompt: Seq<char>,
    prefix: Seq<char>,
)
    ensures
        ({
            let r = task_resolution(agents, args, missing_name, missing_prompt, prefix);
            &&& (args.at("agent_name"@).as_str() is None ==> r == Err::<(Seq<char>, Seq<char>, Arc<SubAgentDef<T>>), Seq<char>>(missing_name))
            &&& (args.at("agent_name"@).as_str() is Some && args.at("prompt"@).as_str() is None
                ==> r == Err::<(Seq<char>, Seq<char>, Arc<SubAgentDef<T>>), Seq<char>>(missing_prompt))
            &&& (r matches Ok((name, prompt, d)) ==> {
                &&& args.at("agent_name"@) == JsonVal::Str(name)
                &&& args.at("prompt"@) == JsonVal::Str(prompt)
                &&& d.name@ == name
                &&& agents.contains(d)
            })
            &&& (args.at("agent_name"@) matches JsonVal::Str(name) ==> (args.at("prompt"@) is Str
                && (exists|i: int| 0 <= i < agents.len() && agents[i].name@ == name) ==> r is Ok))
            &&& (args.at("agent_name"@) matches JsonVal::Str(name) ==> (args.at("prompt"@) is Str
                && (forall|i: int| 0 <= i < agents.len() ==> agents[i].name@ != name)
                ==> r == Err::<(Seq<char>, Seq<char>, Arc<SubAgentDef<T>>), Seq<char>>(
                    prefix + "unknown sub-agent: '"@ + name + "'. Available: ["@ + names_text(agents) + "]"@)))
        }),
{
    if let Some(name) = args.at("agent_name"@).as_str() {
        lemma_find_def_named(agents, name);
        assert(prefix + unknown_agent_text(agents, name)
            =~= prefix + "unknown sub-agent: '"@ + name + "'. Available: ["@ + names_text(agents) + "]"@);
    }
}

} // verus!
