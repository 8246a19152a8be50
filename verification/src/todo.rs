//! The task-planning tool: a list of todo items that the model creates, updates,
//! completes and lists, each item with a unique id.
use vstd::prelude::*;
use crate::json::{Json, JsonVal, json_vals, obj, jstr, member, object};
use crate::schema::{typed_param, enum_param, str_array, strs_view, typed_param_exec, enum_param_exec, str_array_exec};
use crate::text::{decimal, bool_text, seq_join, owned, decimal_usize, bool_string, join_strings, strings_view};
use crate::tool::{ToolResult, ToolResultV};

verus! {

/// What the todo tool is for, as the model is told.
pub const TODO_DESCRIPTION: &'static str = "Manage a task planning list. Break down complex tasks into steps, mark parallelism and dependencies, and track execution progress.";

#[derive(Debug, Clone, Copy, PartialEq, Eq, Structural)]
pub enum TodoStatus {
    Pending,
    InProgress,
    Completed,
}

/// How a status is written: `pending`, `in_progress`, `completed`.
pub open spec fn status_text(s: TodoStatus) -> Seq<char> {
    match s {
        TodoStatus::Pending => "pending"@,
        TodoStatus::InProgress => "in_progress"@,
        TodoStatus::Completed => "completed"@,
    }
}

/// The status a text names, if any.
pub open spec fn status_named(s: Seq<char>) -> Option<TodoStatus> {
    if s == "pending"@ {
        Some(TodoStatus::Pending)
    } else if s == "in_progress"@ {
        Some(TodoStatus::InProgress)
    } else if s == "completed"@ {
        Some(TodoStatus::Completed)
    } else {
        None
    }
}

impl TodoStatus {
    /// The status as text (what `Display` writes for it).
    pub fn label(&self) -> (r: String)
        ensures
            r@ == status_text(*self),
    {
        match self {
            TodoStatus::Pending => owned("pending"),
            TodoStatus::InProgress => owned("in_progress"),
            TodoStatus::Completed => owned("completed"),
        }
    }
}

/// One planned task.
#[derive(Debug)]
pub struct TodoItem {
    pub id: usize,
    pub title: String,
    pub status: TodoStatus,
    /// May run together with other `parallel` tasks.
    pub parallel: bool,
    /// Ids of the tasks that must complete before this one starts.
    pub depends_on: Vec<usize>,
    pub notes: Option<String>,
}

pub struct TodoItemV {
    pub id: usize,
    pub title: Seq<char>,
    pub status: TodoStatus,
    pub parallel: bool,
    pub depends_on: Seq<usize>,
    pub notes: Option<Seq<char>>,
}

impl View for TodoItem {
    type V = TodoItemV;

    open spec fn view(&self) -> TodoItemV {
        TodoItemV {
            id: self.id,
            title: self.title@,
            status: self.status,
            parallel: self.parallel,
            depends_on: self.depends_on@,
            notes: match self.notes {
                Some(n) => Some(n@),
                None => None,
            },
        }
    }
}

pub open spec fn items_view(v: Seq<TodoItem>) -> Seq<TodoItemV> {
    v.map_values(|t: TodoItem| t@)
}

// ---------------------------------------------------------------------------
// The model of the list and of each operation
// ---------------------------------------------------------------------------

/// No two items share an id.
pub open spec fn ids_unique(items: Seq<TodoItemV>) -> bool {
    forall|i: int, j: int| 0 <= i < items.len() && 0 <= j < items.len() && i != j ==> items[i].id != items[j].id
}

pub open spec fn id_taken(items: Seq<TodoItemV>, id: usize) -> bool {
    exists|k: int| 0 <= k < items.len() && items[k].id == id
}

/// The largest id in the list (0 for an empty list).
pub open spec fn max_id(items: Seq<TodoItemV>) -> nat
    decreases items.len(),
{
    if items.len() == 0 {
        0
    } else {
        let m = max_id(items.drop_last());
        if items.last().id > m { items.last().id as nat } else { m }
    }
}

/// The id a created item gets: the requested one if no item has it, else one more than the largest.
pub open spec fn chosen_id(items: Seq<TodoItemV>, requested: Option<u64>) -> usize {
    match requested {
        Some(r) if !id_taken(items, r as usize) => r as usize,
        _ => (max_id(items) + 1) as usize,
    }
}

/// The position of the item with `id`, if there is one (the first such position).
pub open spec fn position_of(items: Seq<TodoItemV>, id: usize) -> Option<int> {
    if id_taken(items, id) {
        Some(choose|k: int| 0 <= k < items.len() && items[k].id == id
            && forall|m: int| 0 <= m < k ==> items[m].id != id)
    } else {
        None
    }
}

/// The integers of a JSON array, each read as an id; other elements are skipped.
pub open spec fn ids_of(a: Seq<JsonVal>) -> Seq<usize>
    decreases a.len(),
{
    if a.len() == 0 {
        Seq::empty()
    } else {
        ids_of(a.drop_last()) + match a.last().as_u64() {
            Some(n) => seq![n as usize],
            None => Seq::empty(),
        }
    }
}

/// A list of ids as Rust debug-prints it: `[1, 2]`.
pub open spec fn ids_text(v: Seq<usize>) -> Seq<char> {
    "["@ + seq_join(v.map_values(|n: usize| decimal(n as nat)), ", "@) + "]"@
}

/// `, depends_on=[..]` where there are dependencies, else nothing.
pub open spec fn deps_suffix(v: Seq<usize>) -> Seq<char> {
    if v.len() == 0 { Seq::empty() } else { ", depends_on="@ + ids_text(v) }
}

/// ` — notes` where there are notes, else nothing.
pub open spec fn notes_suffix(n: Option<Seq<char>>) -> Seq<char> {
    match n {
        Some(t) => " — "@ + t,
        None => Seq::empty(),
    }
}

/// One line of the listing: `[status] #id: title (parallel=..[, depends_on=[..]])[ — notes]`.
pub open spec fn item_line(it: TodoItemV) -> Seq<char> {
    "["@ + status_text(it.status) + "] #"@ + decimal(it.id as nat) + ": "@ + it.title + " ("@
        + "parallel="@ + bool_text(it.parallel) + deps_suffix(it.depends_on) + ")"@ + notes_suffix(it.notes)
}

/// The listing of all items, one line each, or `No todo items.`.
pub open spec fn list_text(items: Seq<TodoItemV>) -> Seq<char> {
    if items.len() == 0 {
        "No todo items."@
    } else {
        seq_join(items.map_values(|it: TodoItemV| item_line(it)), "\n"@)
    }
}

pub open spec fn create_step(items: Seq<TodoItemV>, args: JsonVal) -> (Seq<TodoItemV>, ToolResultV) {
    match args.at("title"@).as_str() {
        None => (items, ToolResultV::err("'create' requires 'title'"@)),
        Some(title) => {
            let parallel = match args.at("parallel"@).as_bool() {
                Some(b) => b,
                None => false,
            };
            let deps = match args.at("depends_on"@).as_array() {
                Some(a) => ids_of(a),
                None => Seq::empty(),
            };
            let id = chosen_id(items, args.at("id"@).as_u64());
            let item = TodoItemV {
                id,
                title,
                status: TodoStatus::Pending,
                parallel,
                depends_on: deps,
                notes: args.at("notes"@).as_str(),
            };
            (items.push(item), ToolResultV::ok(
                "Created todo #"@ + decimal(id as nat) + ": "@ + title + " [parallel="@ + bool_text(parallel)
                    + deps_suffix(deps) + "]"@,
            ))
        },
    }
}

/// The item after an update: each given field replaced, the others kept.
pub open spec fn updated_item(it: TodoItemV, args: JsonVal, status: TodoStatus) -> TodoItemV {
    TodoItemV {
        id: it.id,
        title: it.title,
        status,
        parallel: match args.at("parallel"@).as_bool() {
            Some(p) => p,
            None => it.parallel,
        },
        depends_on: match args.at("depends_on"@).as_array() {
            Some(a) => ids_of(a),
            None => it.depends_on,
        },
        notes: match args.at("notes"@).as_str() {
            Some(n) => Some(n),
            None => it.notes,
        },
    }
}

pub open spec fn update_step(items: Seq<TodoItemV>, args: JsonVal) -> (Seq<TodoItemV>, ToolResultV) {
    match args.at("id"@).as_u64() {
        None => (items, ToolResultV::err("'update' requires 'id'"@)),
        Some(n) => {
            let id = n as usize;
            match position_of(items, id) {
                None => (items, ToolResultV::err("todo #"@ + decimal(id as nat) + " not found"@)),
                Some(k) => {
                    let it = items[k];
                    let status = match args.at("status"@).as_str() {
                        Some(s) => status_named(s),
                        None => Some(it.status),
                    };
                    match status {
                        None => (items, ToolResultV::err("unknown status: "@ + args.at("status"@).as_str().unwrap())),
                        Some(st) => {
                            let new_it = updated_item(it, args, st);
                            (items.update(k, new_it), ToolResultV::ok(
                                "Updated todo #"@ + decimal(id as nat) + ": status="@ + status_text(new_it.status)
                                    + ", parallel="@ + bool_text(new_it.parallel) + ", depends_on="@
                                    + ids_text(new_it.depends_on),
                            ))
                        },
                    }
                },
            }
        },
    }
}

pub open spec fn complete_step(items: Seq<TodoItemV>, args: JsonVal) -> (Seq<TodoItemV>, ToolResultV) {
    match args.at("id"@).as_u64() {
        None => (items, ToolResultV::err("'complete' requires 'id'"@)),
        Some(n) => {
            let id = n as usize;
            match position_of(items, id) {
                None => (items, ToolResultV::err("todo #"@ + decimal(id as nat) + " not found"@)),
                Some(k) => {
                    let it = items[k];
                    (items.update(k, TodoItemV { status: TodoStatus::Completed, ..it }), ToolResultV::ok(
                        "Completed todo #"@ + decimal(it.id as nat) + ": "@ + it.title,
                    ))
                },
            }
        },
    }
}

/// What one call of the tool does to the list and what it answers.
pub open spec fn todo_step(items: Seq<TodoItemV>, args: JsonVal) -> (Seq<TodoItemV>, ToolResultV) {
    match args.at("operation"@).as_str() {
        None => (items, ToolResultV::err("missing required argument: operation"@)),
        Some(op) => {
            if op == "create"@ {
                create_step(items, args)
            } else if op == "list"@ {
                (items, ToolResultV::ok(list_text(items)))
            } else if op == "update"@ {
                update_step(items, args)
            } else if op == "complete"@ {
                complete_step(items, args)
            } else {
                (items, ToolResultV::err("unknown operation: "@ + op))
            }
        },
    }
}

/// The call would create an item with an id chosen past the largest one.
pub open spec fn needs_fresh_id(items: Seq<TodoItemV>, args: JsonVal) -> bool {
    &&& args.at("operation"@).as_str() == Some("create"@)
    &&& args.at("title"@).as_str() is Some
    &&& match args.at("id"@).as_u64() {
        Some(r) => id_taken(items, r as usize),
        None => true,
    }
}

// ---------------------------------------------------------------------------
// Facts about the model
// ---------------------------------------------------------------------------

proof fn lemma_max_id_bounds(items: Seq<TodoItemV>)
    ensures
        forall|k: int| 0 <= k < items.len() ==> items[k].id <= max_id(items),
        items.len() > 0 ==> id_taken(items, max_id(items) as usize),
    decreases items.len(),
{
    if items.len() > 0 {
        let p = items.drop_last();
        lemma_max_id_bounds(p);
        assert forall|k: int| 0 <= k < items.len() implies items[k].id <= max_id(items) by {
            if k < items.len() - 1 {
                assert(items[k] == p[k]);
            }
        }
        if items.last().id > max_id(p) || p.len() == 0 {
            assert(items[items.len() - 1].id == max_id(items));
        } else {
            let k = choose|k: int| 0 <= k < p.len() && p[k].id == max_id(p) as usize;
            assert(items[k] == p[k]);
            assert(items[k].id == max_id(items) as usize);
        }
    }
}

proof fn lemma_first_witness(items: Seq<TodoItemV>, id: usize, w: int)
    requires
        0 <= w < items.len(),
        items[w].id == id,
    ensures
        exists|k: int| 0 <= k < items.len() && items[k].id == id
            && forall|m: int| 0 <= m < k ==> items[m].id != id,
    decreases w,
{
    if exists|m: int| 0 <= m < w && items[m].id == id {
        let m = choose|m: int| 0 <= m < w && items[m].id == id;
        lemma_first_witness(items, id, m);
    } else {
        assert(0 <= w < items.len() && items[w].id == id && forall|m: int| 0 <= m < w ==> items[m].id != id);
    }
}

proof fn lemma_position_of(items: Seq<TodoItemV>, id: usize)
    ensures
        position_of(items, id) matches Some(k) ==> 0 <= k < items.len() && items[k].id == id
            && forall|m: int| 0 <= m < k ==> items[m].id != id,
        position_of(items, id) is None ==> forall|m: int| 0 <= m < items.len() ==> items[m].id != id,
{
    if id_taken(items, id) {
        let w = choose|k: int| 0 <= k < items.len() && items[k].id == id;
        lemma_first_witness(items, id, w);
    }
}

/// The id chosen for a new item is held by no item, so ids stay unique.
pub proof fn lemma_chosen_id_fresh(items: Seq<TodoItemV>, requested: Option<u64>)
    requires
        (match requested {
            Some(r) => id_taken(items, r as usize),
            None => true,
        }) ==> max_id(items) < usize::MAX,
    ensures
        !id_taken(items, chosen_id(items, requested)),
{
    lemma_max_id_bounds(items);
}

/// Every operation keeps ids unique (the list's invariant).
pub proof fn law_ids_stay_unique(items: Seq<TodoItemV>, args: JsonVal)
    requires
        ids_unique(items),
        needs_fresh_id(items, args) ==> max_id(items) < usize::MAX,
    ensures
        ids_unique(todo_step(items, args).0),
{
    reveal_strlit("create");
    reveal_strlit("list");
    reveal_strlit("update");
    reveal_strlit("complete");
    let op = args.at("operation"@).as_str();
    if op == Some("create"@) {
        lemma_create_keeps_ids_unique(items, args);
    } else if op == Some("update"@) {
        lemma_update_keeps_ids(items, args);
    } else if op == Some("complete"@) {
        lemma_complete_keeps_ids(items, args);
    }
}

proof fn lemma_create_keeps_ids_unique(items: Seq<TodoItemV>, args: JsonVal)
    requires
        ids_unique(items),
        args.at("title"@).as_str() is Some && (match args.at("id"@).as_u64() {
            Some(r) => id_taken(items, r as usize),
            None => true,
        }) ==> max_id(items) < usize::MAX,
    ensures
        ids_unique(create_step(items, args).0),
{
    if args.at("title"@).as_str() is Some {
        lemma_chosen_id_fresh(items, args.at("id"@).as_u64());
        let r = create_step(items, args).0;
        assert forall|i: int, j: int| 0 <= i < r.len() && 0 <= j < r.len() && i != j implies r[i].id != r[j].id by {
            if i < items.len() && j < items.len() {
                assert(r[i] == items[i] && r[j] == items[j]);
            } else if i < items.len() {
                assert(r[i] == items[i]);
            } else {
                assert(r[j] == items[j]);
            }
        }
    }
}

proof fn lemma_update_keeps_ids(items: Seq<TodoItemV>, args: JsonVal)
    requires
        ids_unique(items),
    ensures
        ids_unique(update_step(items, args).0),
{
    if let Some(n) = args.at("id"@).as_u64() {
        lemma_position_of(items, n as usize);
        let r = update_step(items, args).0;
        assert forall|i: int, j: int| 0 <= i < r.len() && 0 <= j < r.len() && i != j implies r[i].id != r[j].id by {
            assert(r[i].id == items[i].id && r[j].id == items[j].id);
        }
    }
}

proof fn lemma_complete_keeps_ids(items: Seq<TodoItemV>, args: JsonVal)
    requires
        ids_unique(items),
    ensures
        ids_unique(complete_step(items, args).0),
{
    if let Some(n) = args.at("id"@).as_u64() {
        lemma_position_of(items, n as usize);
        let r = complete_step(items, args).0;
        assert forall|i: int, j: int| 0 <= i < r.len() && 0 <= j < r.len() && i != j implies r[i].id != r[j].id by {
            assert(r[i].id == items[i].id && r[j].id == items[j].id);
        }
    }
}

/// A call that answers with an error leaves the list as it was.
pub proof fn law_error_leaves_list_unchanged(items: Seq<TodoItemV>, args: JsonVal)
    ensures
        todo_step(items, args).1.is_error ==> todo_step(items, args).0 == items,
{
}

/// A call keeps every item it finds, with its id, at its place; only a successful create
/// adds one item, at the end.
pub proof fn law_items_keep_their_places(items: Seq<TodoItemV>, args: JsonVal)
    ensures
        ({
            let (after, r) = todo_step(items, args);
            &&& after.len() == items.len() || after.len() == items.len() + 1
            &&& forall|k: int| 0 <= k < items.len() ==> (#[trigger] after[k]).id == items[k].id
            &&& after.len() == items.len() + 1 ==> args.at("operation"@).as_str() == Some("create"@) && !r.is_error
        }),
{
    reveal_strlit("create");
    reveal_strlit("list");
    reveal_strlit("update");
    reveal_strlit("complete");
    if let Some(n) = args.at("id"@).as_u64() {
        lemma_position_of(items, n as usize);
    }
}

/// The argument shapes a call refuses: no operation; an unknown one; a create without a
/// title; an update or complete without an id, or with one no item has; an update of an
/// item to a status that is not `pending`, `in_progress` or `completed`.
pub open spec fn malformed(items: Seq<TodoItemV>, args: JsonVal) -> bool {
    let op = args.at("operation"@).as_str();
    let id = args.at("id"@).as_u64();
    ||| op is None
    ||| (op matches Some(o) && o != "create"@ && o != "list"@ && o != "update"@ && o != "complete"@)
    ||| (op == Some("create"@) && args.at("title"@).as_str() is None)
    ||| ((op == Some("update"@) || op == Some("complete"@)) && match id {
        None => true,
        Some(n) => !id_taken(items, n as usize),
    })
    ||| (op == Some("update"@) && (id matches Some(n) && id_taken(items, n as usize))
        && (args.at("status"@).as_str() matches Some(st) && status_named(st) is None))
}

/// A call fails exactly on the malformed shapes, and then changes nothing (whatever else,
/// such as `parallel`, `depends_on` or `notes`, it carries).
pub proof fn law_malformed_calls_fail(items: Seq<TodoItemV>, args: JsonVal)
    ensures
        todo_step(items, args).1.is_error <==> malformed(items, args),
        malformed(items, args) ==> todo_step(items, args).0 == items,
{
    reveal_strlit("create");
    reveal_strlit("list");
    reveal_strlit("update");
    reveal_strlit("complete");
    lemma_operation_names_distinct();
    if let Some(n) = args.at("id"@).as_u64() {
        lemma_position_of(items, n as usize);
    }
}

proof fn lemma_operation_names_distinct()
    ensures
        "create"@ != "list"@,
        "create"@ != "update"@,
        "create"@ != "complete"@,
        "list"@ != "update"@,
        "list"@ != "complete"@,
        "update"@ != "complete"@,
{
    reveal_strlit("create");
    reveal_strlit("list");
    reveal_strlit("update");
    reveal_strlit("complete");
    assert("create"@.len() != "list"@.len());
    assert("create"@[0] != "update"@[0]);
    assert("create"@.len() != "complete"@.len());
    assert("list"@.len() != "update"@.len());
    assert("list"@.len() != "complete"@.len());
    assert("update"@.len() != "complete"@.len());
}

/// Listing never changes the list.
pub proof fn law_list_is_read_only(items: Seq<TodoItemV>, args: JsonVal)
    requires
        args.at("operation"@).as_str() == Some("list"@),
    ensures
        todo_step(items, args).0 == items,
        todo_step(items, args).1 == ToolResultV::ok(list_text(items)),
{
    reveal_strlit("create");
    reveal_strlit("list");
}

/// Completing an item that exists marks it completed and touches nothing else.
pub proof fn law_complete_marks_only_that_item(items: Seq<TodoItemV>, args: JsonVal, id: usize)
    requires
        ids_unique(items),
        args.at("operation"@).as_str() == Some("complete"@),
        args.at("id"@).as_u64() matches Some(n) && n as usize == id,
        id_taken(items, id),
    ensures
        ({
            let after = todo_step(items, args).0;
            &&& after.len() == items.len()
            &&& forall|k: int| 0 <= k < items.len() ==> (#[trigger] after[k]).id == items[k].id
                && after[k].title == items[k].title
                && (after[k].status == if items[k].id == id { TodoStatus::Completed } else { items[k].status })
            &&& forall|k: int| 0 <= k < items.len() ==> (#[trigger] after[k]) == if items[k].id == id {
                TodoItemV { status: TodoStatus::Completed, ..items[k] }
            } else {
                items[k]
            }
            &&& !todo_step(items, args).1.is_error
            &&& forall|k: int| 0 <= k < items.len() && items[k].id == id
                ==> todo_step(items, args).1.content == "Completed todo #"@ + decimal(id as nat) + ": "@ + (#[trigger] items[k]).title
        }),
{
    reveal_strlit("create");
    reveal_strlit("list");
    reveal_strlit("update");
    reveal_strlit("complete");
    lemma_position_of(items, id);
    let p = position_of(items, id).unwrap();
    assert forall|k: int| 0 <= k < items.len() && items[k].id == id implies k == p by {
        if k != p {
            assert(items[k].id == items[p].id);
        }
    }
}

/// A successful create appends one pending item with the given title; the others stay.
/// The new item takes a boolean `parallel` (else false), the integer ids of an array
/// `depends_on` (else none) and a string `notes` (else none). Its id is the requested one
/// where no item has it, and otherwise one more than the largest id (1 on an empty list).
/// The answer names the new item, its title, its parallel flag and any dependencies.
pub proof fn law_create_appends_pending_item(items: Seq<TodoItemV>, args: JsonVal, title: Seq<char>)
    requires
        args.at("operation"@).as_str() == Some("create"@),
        args.at("title"@).as_str() == Some(title),
    ensures
        ({
            let (after, r) = todo_step(items, args);
            let new = after.last();
            &&& !r.is_error
            &&& after.len() == items.len() + 1
            &&& after.drop_last() == items
            &&& new.title == title
            &&& new.status == TodoStatus::Pending
            &&& new.id == chosen_id(items, args.at("id"@).as_u64())
            &&& new.parallel == match args.at("parallel"@) {
                JsonVal::Bool(p) => p,
                _ => false,
            }
            &&& new.depends_on == match args.at("depends_on"@) {
                JsonVal::Array(a) => ids_of(a),
                _ => Seq::<usize>::empty(),
            }
            &&& new.notes == match args.at("notes"@) {
                JsonVal::Str(t) => Some(t),
                _ => None,
            }
            &&& r.content == "Created todo #"@ + decimal(new.id as nat) + ": "@ + title + " [parallel="@
                + bool_text(new.parallel) + (if new.depends_on.len() == 0 {
                    Seq::<char>::empty()
                } else {
                    ", depends_on="@ + ids_text(new.depends_on)
                }) + "]"@
        }),
        max_id(items) < usize::MAX ==> ({
            let new = todo_step(items, args).0.last();
            &&& forall|n: u64| args.at("id"@) == JsonVal::UInt(n) && !id_taken(items, n as usize) ==> new.id == n as usize
            &&& (match args.at("id"@) {
                JsonVal::UInt(n) => id_taken(items, n as usize),
                _ => true,
            } ==> {
                &&& forall|k: int| 0 <= k < items.len() ==> items[k].id < new.id
                &&& (items.len() == 0 ==> new.id == 1)
                &&& (items.len() > 0 ==> exists|k: int| 0 <= k < items.len() && items[k].id + 1 == new.id)
            })
        }),
{
    reveal_strlit("create");
    assert(todo_step(items, args) == create_step(items, args));
    assert(todo_step(items, args).0.drop_last() =~= items);
    lemma_max_id_bounds(items);
    if items.len() == 0 {
        assert(max_id(items) == 0);
    } else if max_id(items) < usize::MAX && match args.at("id"@) {
        JsonVal::UInt(n) => id_taken(items, n as usize),
        _ => true,
    } {
        let k = choose|k: int| 0 <= k < items.len() && items[k].id == max_id(items) as usize;
        assert(items[k].id + 1 == todo_step(items, args).0.last().id);
    }
}

/// An update of an existing item changes only what the arguments give: a status that is
/// given replaces the old one, a boolean `parallel`, an array `depends_on` or a string
/// `notes` replace theirs, and every field that is not given keeps its value; the id,
/// the title and every other item stay. The answer names the item, its status, its
/// parallel flag and its dependencies after the update.
pub proof fn law_update_changes_only_given_fields(items: Seq<TodoItemV>, args: JsonVal, k: int)
    requires
        ids_unique(items),
        0 <= k < items.len(),
        args.at("operation"@).as_str() == Some("update"@),
        args.at("id"@).as_u64() matches Some(n) && n as usize == items[k].id,
        !(args.at("status"@).as_str() matches Some(st) && status_named(st) is None),
    ensures
        ({
            let (after, r) = todo_step(items, args);
            let old = items[k];
            let new = after[k];
            &&& !r.is_error
            &&& after.len() == items.len()
            &&& forall|m: int| 0 <= m < items.len() && m != k ==> after[m] == items[m]
            &&& new.id == old.id
            &&& new.title == old.title
            &&& new.status == match args.at("status"@).as_str() {
                Some(st) => status_named(st).unwrap(),
                None => old.status,
            }
            &&& new.parallel == match args.at("parallel"@) {
                JsonVal::Bool(p) => p,
                _ => old.parallel,
            }
            &&& new.depends_on == match args.at("depends_on"@) {
                JsonVal::Array(a) => ids_of(a),
                _ => old.depends_on,
            }
            &&& new.notes == match args.at("notes"@) {
                JsonVal::Str(t) => Some(t),
                _ => old.notes,
            }
            &&& r.content == "Updated todo #"@ + decimal(old.id as nat) + ": status="@ + status_text(new.status)
                + ", parallel="@ + bool_text(new.parallel) + ", depends_on="@ + ids_text(new.depends_on)
        }),
{
    reveal_strlit("create");
    reveal_strlit("list");
    reveal_strlit("update");
    reveal_strlit("complete");
    let id = items[k].id;
    lemma_position_of(items, id);
    assert(id_taken(items, id));
    let p = position_of(items, id).unwrap();
    if p != k {
        assert(items[p].id == items[k].id);
    }
    assert(p == k);
    assert("update"@[0] != "create"@[0]);
    assert("update"@.len() != "list"@.len());
    assert(todo_step(items, args) == update_step(items, args));
    let st = match args.at("status"@).as_str() {
        Some(t) => status_named(t),
        None => Some(items[k].status),
    };
    assert(st is Some);
    assert(update_step(items, args).0 == items.update(k, updated_item(items[k], args, st.unwrap())));
}

} // verus!

verus! {

// ---------------------------------------------------------------------------
// The tool
// ---------------------------------------------------------------------------

/// The task-planning list of one agent.
#[derive(Debug)]
pub struct TodoTool {
    items: Vec<TodoItem>,
}

impl View for TodoTool {
    type V = Seq<TodoItemV>;

    closed spec fn view(&self) -> Seq<TodoItemV> {
        items_view(self.items@)
    }
}

impl TodoTool {
    #[verifier::type_invariant]
    spec fn inv(&self) -> bool {
        ids_unique(items_view(self.items@))
    }
}

/// The ids of the JSON integers in `a`, in order.
fn ids_from_json(a: &Vec<Json>) -> (r: Vec<usize>)
    ensures
        r@ == ids_of(json_vals(a@)),
{
    let mut out: Vec<usize> = Vec::new();
    let mut i: usize = 0;
    while i < a.len()
        invariant
            i <= a@.len(),
            out@ == ids_of(json_vals(a@).take(i as int)),
        decreases a@.len() - i,
    {
        assert(json_vals(a@).take(i + 1).drop_last() =~= json_vals(a@).take(i as int));
        match a[i].as_u64() {
            Some(n) => {
                out.push(n as usize);
            },
            None => {},
        }
        assert(out@ =~= ids_of(json_vals(a@).take(i + 1)));
        i = i + 1;
    }
    assert(json_vals(a@).take(a@.len() as int) =~= json_vals(a@));
    out
}

/// A copy of a list of ids.
fn copy_ids(v: &Vec<usize>) -> (r: Vec<usize>)
    ensures
        r@ == v@,
{
    let mut out: Vec<usize> = Vec::new();
    let mut i: usize = 0;
    while i < v.len()
        invariant
            i <= v@.len(),
            out@ == v@.take(i as int),
        decreases v@.len() - i,
    {
        out.push(v[i]);
        assert(out@ =~= v@.take(i + 1));
        i = i + 1;
    }
    assert(v@.take(v@.len() as int) =~= v@);
    out
}

/// `[1, 2]`: the ids as Rust debug-prints a list.
fn ids_string(v: &Vec<usize>) -> (r: String)
    ensures
        r@ == ids_text(v@),
{
    let mut parts: Vec<String> = Vec::new();
    let mut i: usize = 0;
    while i < v.len()
        invariant
            i <= v@.len(),
            strings_view(parts@) == v@.take(i as int).map_values(|n: usize| decimal(n as nat)),
        decreases v@.len() - i,
    {
        let ghost prev = strings_view(parts@);
        let d = decimal_usize(v[i]);
        parts.push(d);
        assert(strings_view(parts@) =~= prev.push(d@));
        assert(v@.take(i + 1).map_values(|n: usize| decimal(n as nat))
            =~= v@.take(i as int).map_values(|n: usize| decimal(n as nat)).push(decimal(v@[i as int] as nat)));
        i = i + 1;
    }
    assert(v@.take(v@.len() as int) =~= v@);
    let mut s = owned("[");
    let joined = join_strings(&parts, ", ");
    s.append(joined.as_str());
    s.append("]");
    s
}

fn deps_suffix_string(v: &Vec<usize>) -> (r: String)
    ensures
        r@ == deps_suffix(v@),
{
    if v.len() == 0 {
        String::new()
    } else {
        let mut s = owned(", depends_on=");
        let t = ids_string(v);
        s.append(t.as_str());
        s
    }
}

fn item_line_string(it: &TodoItem) -> (r: String)
    ensures
        r@ == item_line(it@),
{
    let mut s = owned("[");
    s.append(it.status.label().as_str());
    s.append("] #");
    s.append(decimal_usize(it.id).as_str());
    s.append(": ");
    s.append(it.title.as_str());
    s.append(" (");
    s.append("parallel=");
    s.append(bool_string(it.parallel).as_str());
    s.append(deps_suffix_string(&it.depends_on).as_str());
    s.append(")");
    match &it.notes {
        Some(n) => {
            s.append(" — ");
            s.append(n.as_str());
        },
        None => {},
    }
    s
}

pub const OPERATION_DESCRIPTION: &'static str = "Operation to perform:\n- create: add a new todo item\n- update: update status, notes, or dependency info\n- list: list all items with their status and dependencies\n- complete: mark an item as completed";
pub const TITLE_DESCRIPTION: &'static str = "Title of the todo item (required for 'create')";
pub const ID_DESCRIPTION: &'static str = "ID of the todo item. For 'create': optional — specify a planned id (e.g. 1,2,3) so depends_on can reference it before creation; if omitted or conflicting, auto-assigned. Required for 'update' and 'complete'.";
pub const STATUS_DESCRIPTION: &'static str = "New status (used with 'update')";
pub const PARALLEL_DESCRIPTION: &'static str = "Whether the task can run concurrently with other parallel=true tasks. Default: false. Use true when the task is independent and can be dispatched to parallel_subagent.";
pub const DEPENDS_ON_DESCRIPTION: &'static str = "IDs of tasks that must be completed before the task can start. Declarative — you can reference ids that haven't been created yet (useful when creating all todos in parallel upfront).";
pub const NOTES_DESCRIPTION: &'static str = "Optional notes to attach to the item (used with 'create' or 'update')";

/// The parameter schema of the todo tool.
pub open spec fn todo_schema() -> JsonVal {
    obj(seq![
        ("type"@, jstr("object"@)),
        ("properties"@, obj(seq![
            ("operation"@, enum_param("string"@, seq!["create"@, "update"@, "list"@, "complete"@], OPERATION_DESCRIPTION@)),
            ("title"@, typed_param("string"@, TITLE_DESCRIPTION@)),
            ("id"@, typed_param("integer"@, ID_DESCRIPTION@)),
            ("status"@, enum_param("string"@, seq!["pending"@, "in_progress"@, "completed"@], STATUS_DESCRIPTION@)),
            ("parallel"@, typed_param("boolean"@, PARALLEL_DESCRIPTION@)),
            ("depends_on"@, obj(seq![
                ("type"@, jstr("array"@)),
                ("items"@, obj(seq![("type"@, jstr("integer"@))])),
                ("description"@, jstr(DEPENDS_ON_DESCRIPTION@)),
            ])),
            ("notes"@, typed_param("string"@, NOTES_DESCRIPTION@)),
        ])),
        ("required"@, str_array(seq!["operation"@])),
    ])
}

impl TodoTool {
    /// An empty list.
    pub fn new() -> (r: Self)
        ensures
            r@ == Seq::<TodoItemV>::empty(),
    {
        let r = TodoTool { items: Vec::new() };
        assert(r@ =~= Seq::<TodoItemV>::empty());
        r
    }

    /// The tool's name.
    pub fn name(&self) -> (r: &'static str)
        ensures
            r@ == "todo"@,
    {
        "todo"
    }

    /// The tool's description for the model.
    pub fn description(&self) -> (r: &'static str)
        ensures
            r@ == TODO_DESCRIPTION@,
    {
        TODO_DESCRIPTION
    }

    /// The parameters: an operation, and what it reads (title, id, status, parallel,
    /// depends_on, notes).
    pub fn parameters_schema(&self) -> (r: Json)
        ensures
            r@ == todo_schema(),
    {
        let mut ops: Vec<&str> = Vec::new();
        ops.push("create");
        ops.push("update");
        ops.push("list");
        ops.push("complete");
        let mut statuses: Vec<&str> = Vec::new();
        statuses.push("pending");
        statuses.push("in_progress");
        statuses.push("completed");
        let mut it: Vec<(String, Json)> = Vec::new();
        it.push(member("type", Json::string("integer")));
        let items = object(it);
        let mut dm: Vec<(String, Json)> = Vec::new();
        dm.push(member("type", Json::string("array")));
        dm.push(member("items", items));
        dm.push(member("description", Json::string(DEPENDS_ON_DESCRIPTION)));
        let depends_on = object(dm);
        let mut p: Vec<(String, Json)> = Vec::new();
        p.push(member("operation", enum_param_exec("string", &ops, OPERATION_DESCRIPTION)));
        p.push(member("title", typed_param_exec("string", TITLE_DESCRIPTION)));
        p.push(member("id", typed_param_exec("integer", ID_DESCRIPTION)));
        p.push(member("status", enum_param_exec("string", &statuses, STATUS_DESCRIPTION)));
        p.push(member("parallel", typed_param_exec("boolean", PARALLEL_DESCRIPTION)));
        p.push(member("depends_on", depends_on));
        p.push(member("notes", typed_param_exec("string", NOTES_DESCRIPTION)));
        let props = object(p);
        let mut req: Vec<&str> = Vec::new();
        req.push("operation");
        let required = str_array_exec(&req);
        let mut m: Vec<(String, Json)> = Vec::new();
        m.push(member("type", Json::string("object")));
        m.push(member("properties", props));
        m.push(member("required", required));
        let r = object(m);
        proof {
            let sv = todo_schema();
            let pv = sv->Object_0[1].1;
            assert(strs_view(ops@) =~= seq!["create"@, "update"@, "list"@, "complete"@]);
            assert(strs_view(statuses@) =~= seq!["pending"@, "in_progress"@, "completed"@]);
            assert(strs_view(req@) =~= seq!["operation"@]);
            assert(items@->Object_0 =~= seq![("type"@, jstr("integer"@))]);
            assert(depends_on@->Object_0 =~= pv->Object_0[5].1->Object_0);
            assert(props@->Object_0 =~= pv->Object_0);
            assert(r@->Object_0 =~= sv->Object_0);
        }
        r
    }

    /// Every todo call may run together with other safe calls (the list is shared safely).
    pub fn is_concurrency_safe(&self, args: &Json) -> (r: bool)
        ensures
            r,
    {
        true
    }

    /// The items, in order of creation.
    pub fn items(&self) -> (r: &Vec<TodoItem>)
        ensures
            items_view(r@) == self@,
    {
        &self.items
    }

    /// The position of the item with `id`.
    fn position(&self, id: usize) -> (r: Option<usize>)
        ensures
            match r {
                Some(k) => position_of(self@, id) == Some(k as int),
                None => position_of(self@, id) is None,
            },
    {
        proof { lemma_position_of(self@, id); }
        let mut i: usize = 0;
        while i < self.items.len()
            invariant
                i <= self.items@.len(),
                forall|m: int| 0 <= m < i ==> self@[m].id != id,
            decreases self.items@.len() - i,
        {
            if self.items[i].id == id {
                proof {
                    assert(self@[i as int].id == id);
                    assert(id_taken(self@, id));
                }
                return Some(i);
            }
            i = i + 1;
        }
        None
    }

    /// Whether an item has `id`.
    fn has_id(&self, id: usize) -> (r: bool)
        ensures
            r == id_taken(self@, id),
    {
        proof { lemma_position_of(self@, id); }
        match self.position(id) {
            Some(_) => true,
            None => false,
        }
    }

    /// Whether `execute` can take `args` without overflow: the list is not full, and an
    /// item that needs an id past the largest one can get it.
    pub fn accepts(&self, args: &Json) -> (r: bool)
        ensures
            r == (self@.len() < usize::MAX && (needs_fresh_id(self@, args@) ==> max_id(self@) < usize::MAX)),
    {
        if self.items.len() == usize::MAX {
            return false;
        }
        let fresh = match args.str_at("operation") {
            Some(op) => {
                if crate::text::str_eq(op, "create") && args.str_at("title").is_some() {
                    match args.u64_at("id") {
                        Some(r) => self.has_id(r as usize),
                        None => true,
                    }
                } else {
                    false
                }
            },
            None => false,
        };
        !fresh || self.largest_id() < usize::MAX
    }

    /// The largest id (0 for an empty list).
    fn largest_id(&self) -> (r: usize)
        ensures
            r == max_id(self@),
    {
        let mut m: usize = 0;
        let mut i: usize = 0;
        while i < self.items.len()
            invariant
                i <= self.items@.len(),
                m == max_id(self@.take(i as int)),
            decreases self.items@.len() - i,
        {
            assert(self@.take(i + 1).drop_last() =~= self@.take(i as int));
            if self.items[i].id > m {
                m = self.items[i].id;
            }
            i = i + 1;
        }
        assert(self@.take(self.items@.len() as int) =~= self@);
        m
    }

    fn list(&self) -> (r: ToolResult)
        ensures
            r@ == ToolResultV::ok(list_text(self@)),
    {
        if self.items.len() == 0 {
            return ToolResult::ok(owned("No todo items."));
        }
        let mut lines: Vec<String> = Vec::new();
        let mut i: usize = 0;
        while i < self.items.len()
            invariant
                i <= self.items@.len(),
                strings_view(lines@) == self@.take(i as int).map_values(|it: TodoItemV| item_line(it)),
            decreases self.items@.len() - i,
        {
            let ghost prev = strings_view(lines@);
            let line = item_line_string(&self.items[i]);
            lines.push(line);
            assert(strings_view(lines@) =~= prev.push(line@));
            assert(self@.take(i + 1).map_values(|it: TodoItemV| item_line(it))
                =~= self@.take(i as int).map_values(|it: TodoItemV| item_line(it)).push(item_line(self@[i as int])));
            i = i + 1;
        }
        assert(self@.take(self.items@.len() as int) =~= self@);
        ToolResult::ok(join_strings(&lines, "\n"))
    }

    fn create(&mut self, args: &Json) -> (r: ToolResult)
        requires
            old(self)@.len() < usize::MAX,
            (args@.at("title"@).as_str() is Some && (match args@.at("id"@).as_u64() {
                Some(q) => id_taken(old(self)@, q as usize),
                None => true,
            })) ==> max_id(old(self)@) < usize::MAX,
        ensures
            final(self)@ == create_step(old(self)@, args@).0,
            r@ == create_step(old(self)@, args@).1,
    {
        proof { use_type_invariant(&*self); }
        let title = match args.str_at("title") {
            Some(t) => owned(t),
            None => return ToolResult::err(owned("'create' requires 'title'")),
        };
        let parallel = match args.bool_at("parallel") {
            Some(b) => b,
            None => false,
        };
        let depends_on = match args.array_at("depends_on") {
            Some(a) => ids_from_json(a),
            None => Vec::new(),
        };
        let notes = match args.str_at("notes") {
            Some(n) => Some(owned(n)),
            None => None,
        };
        let id = match args.u64_at("id") {
            Some(q) if !self.has_id(q as usize) => q as usize,
            _ => self.largest_id() + 1,
        };
        proof { lemma_chosen_id_fresh(self@, args@.at("id"@).as_u64()); }
        let mut msg = owned("Created todo #");
        msg.append(decimal_usize(id).as_str());
        msg.append(": ");
        msg.append(title.as_str());
        msg.append(" [parallel=");
        msg.append(bool_string(parallel).as_str());
        msg.append(deps_suffix_string(&depends_on).as_str());
        msg.append("]");
        let item = TodoItem { id, title, status: TodoStatus::Pending, parallel, depends_on, notes };
        let ghost before = self@;
        let mut items: Vec<TodoItem> = Vec::new();
        std::mem::swap(&mut items, &mut self.items);
        items.push(item);
        proof {
            assert(items_view(items@) =~= before.push(item@));
            assert forall|i: int, j: int| 0 <= i < items@.len() && 0 <= j < items@.len() && i != j
                implies items_view(items@)[i].id != items_view(items@)[j].id by {
                if i < before.len() && j < before.len() {
                    assert(items_view(items@)[i] == before[i] && items_view(items@)[j] == before[j]);
                } else if i < before.len() {
                    assert(items_view(items@)[i] == before[i]);
                } else {
                    assert(items_view(items@)[j] == before[j]);
                }
            }
        }
        self.items = items;
        proof {
            assert forall|i: int, j: int| 0 <= i < self@.len() && 0 <= j < self@.len() && i != j
                implies self@[i].id != self@[j].id by {
                if i < before.len() && j < before.len() {
                    assert(self@[i] == before[i] && self@[j] == before[j]);
                } else if i < before.len() {
                    assert(self@[i] == before[i]);
                } else {
                    assert(self@[j] == before[j]);
                }
            }
        }
        ToolResult::ok(msg)
    }

    fn update(&mut self, args: &Json) -> (r: ToolResult)
        ensures
            final(self)@ == update_step(old(self)@, args@).0,
            r@ == update_step(old(self)@, args@).1,
    {
        proof { use_type_invariant(&*self); }
        let id = match args.u64_at("id") {
            Some(n) => n as usize,
            None => return ToolResult::err(owned("'update' requires 'id'")),
        };
        let k = match self.position(id) {
            Some(k) => k,
            None => {
                let mut m = owned("todo #");
                m.append(decimal_usize(id).as_str());
                m.append(" not found");
                return ToolResult::err(m);
            },
        };
        proof { lemma_position_of(self@, id); }
        let status = match args.str_at("status") {
            Some(s) => {
                if crate::text::str_eq(s, "pending") {
                    TodoStatus::Pending
                } else if crate::text::str_eq(s, "in_progress") {
                    TodoStatus::InProgress
                } else if crate::text::str_eq(s, "completed") {
                    TodoStatus::Completed
                } else {
                    let mut m = owned("unknown status: ");
                    m.append(s);
                    return ToolResult::err(m);
                }
            },
            None => self.items[k].status,
        };
        let old_item = &self.items[k];
        let parallel = match args.bool_at("parallel") {
            Some(p) => p,
            None => old_item.parallel,
        };
        let depends_on = match args.array_at("depends_on") {
            Some(a) => ids_from_json(a),
            None => copy_ids(&old_item.depends_on),
        };
        let notes = match args.str_at("notes") {
            Some(n) => Some(owned(n)),
            None => crate::types::copy_opt_string(&old_item.notes),
        };
        let new_item = TodoItem {
            id: old_item.id,
            title: old_item.title.clone(),
            status,
            parallel,
            depends_on,
            notes,
        };
        let mut msg = owned("Updated todo #");
        msg.append(decimal_usize(id).as_str());
        msg.append(": status=");
        msg.append(new_item.status.label().as_str());
        msg.append(", parallel=");
        msg.append(bool_string(new_item.parallel).as_str());
        msg.append(", depends_on=");
        msg.append(ids_string(&new_item.depends_on).as_str());
        let ghost before = self@;
        let ghost new_view = new_item@;
        let mut items: Vec<TodoItem> = Vec::new();
        std::mem::swap(&mut items, &mut self.items);
        items.set(k, new_item);
        proof {
            assert(items_view(items@) =~= before.update(k as int, new_view));
            assert forall|i: int, j: int| 0 <= i < items@.len() && 0 <= j < items@.len() && i != j
                implies items_view(items@)[i].id != items_view(items@)[j].id by {
                assert(items_view(items@)[i].id == before[i].id && items_view(items@)[j].id == before[j].id);
            }
        }
        self.items = items;
        proof {
            assert forall|i: int, j: int| 0 <= i < self@.len() && 0 <= j < self@.len() && i != j
                implies self@[i].id != self@[j].id by {
                assert(self@[i].id == before[i].id && self@[j].id == before[j].id);
            }
        }
        ToolResult::ok(msg)
    }

    fn complete(&mut self, args: &Json) -> (r: ToolResult)
        ensures
            final(self)@ == complete_step(old(self)@, args@).0,
            r@ == complete_step(old(self)@, args@).1,
    {
        proof { use_type_invariant(&*self); }
        let id = match args.u64_at("id") {
            Some(n) => n as usize,
            None => return ToolResult::err(owned("'complete' requires 'id'")),
        };
        let k = match self.position(id) {
            Some(k) => k,
            None => {
                let mut m = owned("todo #");
                m.append(decimal_usize(id).as_str());
                m.append(" not found");
                return ToolResult::err(m);
            },
        };
        proof { lemma_position_of(self@, id); }
        let old_item = &self.items[k];
        let mut msg = owned("Completed todo #");
        msg.append(decimal_usize(old_item.id).as_str());
        msg.append(": ");
        msg.append(old_item.title.as_str());
        let new_item = TodoItem {
            id: old_item.id,
            title: old_item.title.clone(),
            status: TodoStatus::Completed,
            parallel: old_item.parallel,
            depends_on: copy_ids(&old_item.depends_on),
            notes: crate::types::copy_opt_string(&old_item.notes),
        };
        let ghost before = self@;
        let ghost new_view = new_item@;
        let mut items: Vec<TodoItem> = Vec::new();
        std::mem::swap(&mut items, &mut self.items);
        items.set(k, new_item);
        proof {
            assert(items_view(items@) =~= before.update(k as int, new_view));
            assert forall|i: int, j: int| 0 <= i < items@.len() && 0 <= j < items@.len() && i != j
                implies items_view(items@)[i].id != items_view(items@)[j].id by {
                assert(items_view(items@)[i].id == before[i].id && items_view(items@)[j].id == before[j].id);
            }
        }
        self.items = items;
        proof {
            assert forall|i: int, j: int| 0 <= i < self@.len() && 0 <= j < self@.len() && i != j
                implies self@[i].id != self@[j].id by {
                assert(self@[i].id == before[i].id && self@[j].id == before[j].id);
            }
        }
        ToolResult::ok(msg)
    }

    /// Runs one call of the tool: `create`, `list`, `update` or `complete`, as the
    /// `operation` argument names. The list keeps its ids unique.
    pub fn execute(&mut self, tool_call_id: &str, args: &Json) -> (r: ToolResult)
        requires
            old(self)@.len() < usize::MAX,
            needs_fresh_id(old(self)@, args@) ==> max_id(old(self)@) < usize::MAX,
        ensures
            final(self)@ == todo_step(old(self)@, args@).0,
            r@ == todo_step(old(self)@, args@).1,
    {
        let op = match args.str_at("operation") {
            Some(o) => o,
            None => return ToolResult::err(owned("missing required argument: operation")),
        };
        if crate::text::str_eq(op, "create") {
            self.create(args)
        } else if crate::text::str_eq(op, "list") {
            self.list()
        } else if crate::text::str_eq(op, "update") {
            self.update(args)
        } else if crate::text::str_eq(op, "complete") {
            self.complete(args)
        } else {
            let mut m = owned("unknown operation: ");
            m.append(op);
            ToolResult::err(m)
        }
    }
}

impl Default for TodoTool {
    fn default() -> (r: Self)
        ensures
            r@ == Seq::<TodoItemV>::empty(),
    {
        TodoTool::new()
    }
}

} // verus!
