//! JSON values as the library reads and writes them, with their mathematical model.
//! Text is turned into values, and values into text, by `serde_json`.
use vstd::prelude::*;
use crate::text::{owned, str_eq};
use serde_json::Value;

verus! {

/// A JSON value. Numbers are kept as serde_json tells them apart: non-negative
/// integers, negative integers, and other numbers written as their JSON text.
#[derive(Debug)]
pub enum Json {
    Null,
    Bool(bool),
    UInt(u64),
    NegInt(i64),
    Float(String),
    Str(String),
    Array(Vec<Json>),
    Object(Vec<(String, Json)>),
}

/// The mathematical model of a JSON value.
pub enum JsonVal {
    Null,
    Bool(bool),
    UInt(u64),
    NegInt(i64),
    Float(Seq<char>),
    Str(Seq<char>),
    Array(Seq<JsonVal>),
    Object(Seq<(Seq<char>, JsonVal)>),
}

pub open spec fn json_val(j: Json) -> JsonVal
    decreases j,
{
    match j {
        Json::Null => JsonVal::Null,
        Json::Bool(b) => JsonVal::Bool(b),
        Json::UInt(n) => JsonVal::UInt(n),
        Json::NegInt(n) => JsonVal::NegInt(n),
        Json::Float(s) => JsonVal::Float(s@),
        Json::Str(s) => JsonVal::Str(s@),
        Json::Array(v) => JsonVal::Array(
            Seq::new(v@.len(), |i: int| if 0 <= i < v@.len() { json_val(v@[i]) } else { JsonVal::Null }),
        ),
        Json::Object(v) => JsonVal::Object(
            Seq::new(
                v@.len(),
                |i: int|
                    if 0 <= i < v@.len() {
                        (v@[i].0@, json_val(v@[i].1))
                    } else {
                        (Seq::empty(), JsonVal::Null)
                    },
            ),
        ),
    }
}

impl View for Json {
    type V = JsonVal;

    open spec fn view(&self) -> JsonVal {
        json_val(*self)
    }
}

/// The models of a sequence of values.
pub open spec fn json_vals(v: Seq<Json>) -> Seq<JsonVal> {
    v.map_values(|j: Json| j@)
}

/// The value under `key` in a list of members: the first member with that key.
pub open spec fn entries_get(es: Seq<(Seq<char>, JsonVal)>, key: Seq<char>) -> Option<JsonVal>
    decreases es.len(),
{
    if es.len() == 0 {
        None
    } else if es[0].0 == key {
        Some(es[0].1)
    } else {
        entries_get(es.drop_first(), key)
    }
}

impl JsonVal {
    /// The member `key` of an object; nothing for other values.
    pub open spec fn get(self, key: Seq<char>) -> Option<JsonVal> {
        match self {
            JsonVal::Object(es) => entries_get(es, key),
            _ => None,
        }
    }

    /// `value[key]`: the member `key` of an object, `null` where there is none.
    pub open spec fn at(self, key: Seq<char>) -> JsonVal {
        match self.get(key) {
            Some(v) => v,
            None => JsonVal::Null,
        }
    }

    /// Successive object members along `path`, as a JSON pointer of plain keys reads them.
    pub open spec fn pointer(self, path: Seq<Seq<char>>) -> Option<JsonVal>
        decreases path.len(),
    {
        if path.len() == 0 {
            Some(self)
        } else {
            match self.get(path[0]) {
                Some(v) => v.pointer(path.drop_first()),
                None => None,
            }
        }
    }

    pub open spec fn as_str(self) -> Option<Seq<char>> {
        match self {
            JsonVal::Str(s) => Some(s),
            _ => None,
        }
    }

    pub open spec fn as_u64(self) -> Option<u64> {
        match self {
            JsonVal::UInt(n) => Some(n),
            _ => None,
        }
    }

    pub open spec fn as_bool(self) -> Option<bool> {
        match self {
            JsonVal::Bool(b) => Some(b),
            _ => None,
        }
    }

    pub open spec fn as_array(self) -> Option<Seq<JsonVal>> {
        match self {
            JsonVal::Array(a) => Some(a),
            _ => None,
        }
    }

    pub open spec fn is_null(self) -> bool {
        self is Null
    }
}

/// An object with the given members, in order.
pub open spec fn obj(es: Seq<(Seq<char>, JsonVal)>) -> JsonVal {
    JsonVal::Object(es)
}

/// A JSON string.
pub open spec fn jstr(s: Seq<char>) -> JsonVal {
    JsonVal::Str(s)
}

proof fn lemma_entries_get_step(es: Seq<(Seq<char>, JsonVal)>, key: Seq<char>, i: int)
    requires
        0 <= i < es.len(),
        es[i].0 != key,
    ensures
        entries_get(es.subrange(i, es.len() as int), key) == entries_get(es.subrange(i + 1, es.len() as int), key),
{
    assert(es.subrange(i, es.len() as int).drop_first() =~= es.subrange(i + 1, es.len() as int));
}

/// A deep copy of a value.
pub fn copy_json(j: &Json) -> (r: Json)
    ensures
        r@ == j@,
    decreases j,
{
    match j {
        Json::Null => Json::Null,
        Json::Bool(b) => Json::Bool(*b),
        Json::UInt(n) => Json::UInt(*n),
        Json::NegInt(n) => Json::NegInt(*n),
        Json::Float(s) => Json::Float(s.clone()),
        Json::Str(s) => Json::Str(s.clone()),
        Json::Array(v) => {
            let mut out: Vec<Json> = Vec::new();
            let mut i: usize = 0;
            while i < v.len()
                invariant
                    *j == Json::Array(*v),
                    i <= v@.len(),
                    out@.len() == i,
                    forall|k: int| 0 <= k < i ==> (#[trigger] out@[k])@ == v@[k]@,
                decreases v@.len() - i,
            {
                proof {
                    vstd::std_specs::vec::axiom_vec_index_decreases(*v, i as int);
                    assert(decreases_to!(*j => (*j)->Array_0));
                }
                let c = copy_json(&v[i]);
                out.push(c);
                i = i + 1;
            }
            let r = Json::Array(out);
            proof {
                assert(r@->Array_0 =~= j@->Array_0);
            }
            r
        },
        Json::Object(v) => {
            let mut out: Vec<(String, Json)> = Vec::new();
            let mut i: usize = 0;
            while i < v.len()
                invariant
                    *j == Json::Object(*v),
                    i <= v@.len(),
                    out@.len() == i,
                    forall|k: int|
                        0 <= k < i ==> (#[trigger] out@[k]).0@ == v@[k].0@ && out@[k].1@ == v@[k].1@,
                decreases v@.len() - i,
            {
                proof {
                    vstd::std_specs::vec::axiom_vec_index_decreases(*v, i as int);
                    assert(decreases_to!(*j => (*j)->Object_0));
                    assert(decreases_to!(v[i as int] => v[i as int].1));
                }
                let c = copy_json(&v[i].1);
                out.push((v[i].0.clone(), c));
                i = i + 1;
            }
            let r = Json::Object(out);
            proof {
                assert(r@->Object_0 =~= j@->Object_0);
            }
            r
        },
    }
}

impl Clone for Json {
    fn clone(&self) -> (r: Self)
        ensures
            r@ == self@,
    {
        copy_json(self)
    }
}

impl Json {
    /// A JSON string holding `s`.
    pub fn string(s: &str) -> (r: Json)
        ensures
            r@ == JsonVal::Str(s@),
    {
        Json::Str(owned(s))
    }

    /// The member `key` of an object (the first such member); `None` for other values.
    pub fn get(&self, key: &str) -> (r: Option<&Json>)
        ensures
            match r {
                Some(v) => self@.get(key@) == Some(v@),
                None => self@.get(key@) is None,
            },
    {
        match self {
            Json::Object(v) => {
                let ghost es = self@->Object_0;
                assert(es.subrange(0, es.len() as int) =~= es);
                let mut i: usize = 0;
                while i < v.len()
                    invariant
                        *self == Json::Object(*v),
                        es == self@->Object_0,
                        es.len() == v@.len(),
                        i <= v@.len(),
                        entries_get(es, key@) == entries_get(es.subrange(i as int, es.len() as int), key@),
                    decreases v@.len() - i,
                {
                    assert(es[i as int] == (v@[i as int].0@, v@[i as int].1@));
                    if str_eq(v[i].0.as_str(), key) {
                        assert(es.subrange(i as int, es.len() as int)[0] == es[i as int]);
                        return Some(&v[i].1);
                    }
                    proof { lemma_entries_get_step(es, key@, i as int); }
                    i = i + 1;
                }
                None
            },
            _ => None,
        }
    }

    /// The text of a JSON string.
    pub fn as_str(&self) -> (r: Option<&str>)
        ensures
            match r {
                Some(s) => self@.as_str() == Some(s@),
                None => self@.as_str() is None,
            },
    {
        match self {
            Json::Str(s) => Some(s.as_str()),
            _ => None,
        }
    }

    /// A non-negative integer.
    pub fn as_u64(&self) -> (r: Option<u64>)
        ensures
            r == self@.as_u64(),
    {
        match self {
            Json::UInt(n) => Some(*n),
            _ => None,
        }
    }

    /// A boolean.
    pub fn as_bool(&self) -> (r: Option<bool>)
        ensures
            r == self@.as_bool(),
    {
        match self {
            Json::Bool(b) => Some(*b),
            _ => None,
        }
    }

    /// The elements of an array.
    pub fn as_array(&self) -> (r: Option<&Vec<Json>>)
        ensures
            match r {
                Some(a) => self@.as_array() == Some(json_vals(a@)),
                None => self@.as_array() is None,
            },
    {
        match self {
            Json::Array(a) => {
                assert(json_vals(a@) =~= self@->Array_0);
                Some(a)
            },
            _ => None,
        }
    }

    pub fn is_null(&self) -> (r: bool)
        ensures
            r == self@.is_null(),
    {
        match self {
            Json::Null => true,
            _ => false,
        }
    }

    /// The string member `key` of an object: `value[key].as_str()`.
    pub fn str_at(&self, key: &str) -> (r: Option<&str>)
        ensures
            match r {
                Some(s) => self@.at(key@).as_str() == Some(s@),
                None => self@.at(key@).as_str() is None,
            },
    {
        match self.get(key) {
            Some(v) => v.as_str(),
            None => None,
        }
    }

    /// `value[key].as_u64()`.
    pub fn u64_at(&self, key: &str) -> (r: Option<u64>)
        ensures
            r == self@.at(key@).as_u64(),
    {
        match self.get(key) {
            Some(v) => v.as_u64(),
            None => None,
        }
    }

    /// `value[key].as_bool()`.
    pub fn bool_at(&self, key: &str) -> (r: Option<bool>)
        ensures
            r == self@.at(key@).as_bool(),
    {
        match self.get(key) {
            Some(v) => v.as_bool(),
            None => None,
        }
    }

    /// `value[key].as_array()`.
    pub fn array_at(&self, key: &str) -> (r: Option<&Vec<Json>>)
        ensures
            match r {
                Some(a) => self@.at(key@).as_array() == Some(json_vals(a@)),
                None => self@.at(key@).as_array() is None,
            },
    {
        match self.get(key) {
            Some(v) => v.as_array(),
            None => None,
        }
    }

    /// The value that text holds, if the text is JSON.
    pub fn parse(text: &str) -> (r: Option<Json>)
        ensures
            match r {
                Some(j) => json_parse(text@) == Some(j@),
                None => json_parse(text@) is None,
            },
    {
        parse_text(text)
    }

    /// The compact JSON text of the value.
    pub fn to_json_string(&self) -> (r: String)
        ensures
            r@ == json_text(self@),
    {
        render_text(self)
    }
}

/// The value that `serde_json` reads from a text, or none where the text is not JSON.
pub uninterp spec fn json_parse(text: Seq<char>) -> Option<JsonVal>;

/// The compact text that `serde_json` writes for a value.
pub uninterp spec fn json_text(v: JsonVal) -> Seq<char>;

#[verifier::external_type_specification]
#[verifier::external_body]
pub struct ExJsonValue(Value);

/// Turns a `serde_json::Value` into a `Json`, variant for variant. Numbers go to
/// `UInt` where `Number::as_u64` gives one, else to `NegInt` where `as_i64` does,
/// else to `Float` with the number's text. Nothing is stated of it: it is only the
/// conversion inside `parse_text`, whose result is named by `json_parse`.
#[verifier::external_body]
fn value_to_json(v: &Value) -> Json {
    match v {
        Value::Null => Json::Null,
        Value::Bool(b) => Json::Bool(*b),
        Value::Number(n) => match (n.as_u64(), n.as_i64()) {
            (Some(u), _) => Json::UInt(u),
            (None, Some(i)) => Json::NegInt(i),
            (None, None) => Json::Float(n.to_string()),
        },
        Value::String(s) => Json::Str(s.clone()),
        Value::Array(a) => Json::Array(a.iter().map(value_to_json).collect()),
        Value::Object(m) => Json::Object(m.iter().map(|(k, x)| (k.clone(), value_to_json(x))).collect()),
    }
}

/// Turns a `Json` into a `serde_json::Value`, variant for variant (a `Float` whose
/// text is not a number becomes `null`). Nothing is stated of it: it is only the
/// conversion inside `render_text` and `schema_check`, whose results are named.
#[verifier::external_body]
pub(crate) fn json_to_value(j: &Json) -> Value {
    match j {
        Json::Null => Value::Null,
        Json::Bool(b) => Value::Bool(*b),
        Json::UInt(u) => Value::from(*u),
        Json::NegInt(i) => Value::from(*i),
        Json::Float(s) => s.parse().map_or(Value::Null, Value::Number),
        Json::Str(s) => Value::String(s.clone()),
        Json::Array(a) => Value::Array(a.iter().map(json_to_value).collect()),
        Json::Object(m) => Value::Object(m.iter().map(|(k, x)| (k.clone(), json_to_value(x))).collect()),
    }
}

/// Calls `serde_json::from_str::<serde_json::Value>` and converts the value.
/// The contract claims that the outcome is a function of the text alone (named `json_parse`).
#[verifier::external_body]
fn parse_text(text: &str) -> (r: Option<Json>)
    ensures
        match r {
            Some(j) => json_parse(text@) == Some(j@),
            None => json_parse(text@) is None,
        },
{
    match serde_json::from_str::<serde_json::Value>(text) {
        Ok(v) => Some(value_to_json(&v)),
        Err(_) => None,
    }
}

/// Converts the value and calls `serde_json::Value::to_string` (compact output).
/// The contract claims that the text is a function of the value alone (named `json_text`).
#[verifier::external_body]
fn render_text(j: &Json) -> (r: String)
    ensures
        r@ == json_text(j@),
{
    json_to_value(j).to_string()
}

} // verus!

verus! {

impl Json {
    /// `value.pointer("/a/b")` for two plain keys.
    pub fn pointer2(&self, a: &str, b: &str) -> (r: Option<&Json>)
        ensures
            match r {
                Some(v) => self@.pointer(seq![a@, b@]) == Some(v@),
                None => self@.pointer(seq![a@, b@]) is None,
            },
    {
        proof {
            let p = seq![a@, b@];
            assert(p.drop_first() =~= seq![b@]);
            assert(seq![b@].drop_first() =~= Seq::<Seq<char>>::empty());
            reveal_with_fuel(JsonVal::pointer, 3);
        }
        match self.get(a) {
            Some(x) => x.get(b),
            None => None,
        }
    }

    /// `value.pointer("/a/b").and_then(Value::as_str)`.
    pub fn str_at2(&self, a: &str, b: &str) -> (r: Option<&str>)
        ensures
            match r {
                Some(s) => opt_as_str(self@.pointer(seq![a@, b@])) == Some(s@),
                None => opt_as_str(self@.pointer(seq![a@, b@])) is None,
            },
    {
        match self.pointer2(a, b) {
            Some(x) => x.as_str(),
            None => None,
        }
    }
}

/// `.and_then(Value::as_str)` on an optional value.
pub open spec fn opt_as_str(o: Option<JsonVal>) -> Option<Seq<char>> {
    match o {
        Some(v) => v.as_str(),
        None => None,
    }
}

/// `.unwrap_or("")` on an optional text.
pub open spec fn or_empty(o: Option<Seq<char>>) -> Seq<char> {
    match o {
        Some(s) => s,
        None => Seq::empty(),
    }
}

} // verus!

verus! {

/// A member of an object: the key and its value.
pub fn member(key: &str, v: Json) -> (r: (String, Json))
    ensures
        r.0@ == key@,
        r.1@ == v@,
{
    (owned(key), v)
}

/// An object from its members, in order.
pub fn object(members: Vec<(String, Json)>) -> (r: Json)
    ensures
        r@ == JsonVal::Object(members@.map_values(|m: (String, Json)| (m.0@, m.1@))),
{
    let r = Json::Object(members);
    assert(r@->Object_0 =~= members@.map_values(|m: (String, Json)| (m.0@, m.1@)));
    r
}

/// An array from its elements, in order.
pub fn array(elems: Vec<Json>) -> (r: Json)
    ensures
        r@ == JsonVal::Array(json_vals(elems@)),
{
    let r = Json::Array(elems);
    assert(r@->Array_0 =~= json_vals(elems@));
    r
}

} // verus!
