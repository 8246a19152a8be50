//! Small builders for the JSON Schemas that tools describe their parameters with.
use vstd::prelude::*;
use crate::json::{Json, JsonVal, json_vals, obj, jstr, member, object, array};

verus! {

/// `{"type": ty, "description": description}`.
pub open spec fn typed_param(ty: Seq<char>, description: Seq<char>) -> JsonVal {
    obj(seq![("type"@, jstr(ty)), ("description"@, jstr(description))])
}

/// A JSON array of strings.
pub open spec fn str_array(items: Seq<Seq<char>>) -> JsonVal {
    JsonVal::Array(items.map_values(|s: Seq<char>| jstr(s)))
}

/// `{"type": ty, "enum": [variants...], "description": description}`.
pub open spec fn enum_param(ty: Seq<char>, variants: Seq<Seq<char>>, description: Seq<char>) -> JsonVal {
    obj(seq![("type"@, jstr(ty)), ("enum"@, str_array(variants)), ("description"@, jstr(description))])
}

/// The views of a list of string slices.
pub open spec fn strs_view(v: Seq<&str>) -> Seq<Seq<char>> {
    v.map_values(|s: &str| s@)
}

pub fn typed_param_exec(ty: &str, description: &str) -> (r: Json)
    ensures
        r@ == typed_param(ty@, description@),
{
    let mut m: Vec<(String, Json)> = Vec::new();
    m.push(member("type", Json::string(ty)));
    m.push(member("description", Json::string(description)));
    let r = object(m);
    assert(r@->Object_0 =~= typed_param(ty@, description@)->Object_0);
    r
}

pub fn str_array_exec(items: &Vec<&str>) -> (r: Json)
    ensures
        r@ == str_array(strs_view(items@)),
{
    let mut out: Vec<Json> = Vec::new();
    let mut i: usize = 0;
    while i < items.len()
        invariant
            i <= items@.len(),
            json_vals(out@) == strs_view(items@).take(i as int).map_values(|s: Seq<char>| jstr(s)),
        decreases items@.len() - i,
    {
        let ghost prev = json_vals(out@);
        out.push(Json::string(items[i]));
        assert(json_vals(out@) =~= prev.push(jstr(items@[i as int]@)));
        assert(strs_view(items@).take(i + 1).map_values(|s: Seq<char>| jstr(s))
            =~= strs_view(items@).take(i as int).map_values(|s: Seq<char>| jstr(s)).push(jstr(items@[i as int]@)));
        i = i + 1;
    }
    assert(strs_view(items@).take(items@.len() as int) =~= strs_view(items@));
    array(out)
}

pub fn enum_param_exec(ty: &str, variants: &Vec<&str>, description: &str) -> (r: Json)
    ensures
        r@ == enum_param(ty@, strs_view(variants@), description@),
{
    let mut m: Vec<(String, Json)> = Vec::new();
    m.push(member("type", Json::string(ty)));
    m.push(member("enum", str_array_exec(variants)));
    m.push(member("description", Json::string(description)));
    let r = object(m);
    assert(r@->Object_0 =~= enum_param(ty@, strs_view(variants@), description@)->Object_0);
    r
}

} // verus!
