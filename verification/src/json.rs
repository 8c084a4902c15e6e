//! A plain JSON document model.
//!
//! JSON values reach the library already parsed; this model holds what the
//! validation and catalogue logic reads. Numbers keep their integer value when
//! they are integers and their source text otherwise. Object members keep
//! their order; a lookup finds the first member with the key.
use vstd::prelude::*;
use crate::text::{chars_of, chars_eq};

verus! {

broadcast use vstd::std_specs::vec::group_vec_axioms;

/// A JSON number.
#[derive(Clone, Debug, PartialEq)]
pub enum JsonNumber {
    /// A non-negative integer.
    PosInt(u64),
    /// A negative integer.
    NegInt(i64),
    /// A number with a fraction or exponent, by its decimal text.
    Float(String),
}

/// A JSON value.
#[derive(Debug, PartialEq)]
pub enum Json {
    Null,
    Bool(bool),
    Number(JsonNumber),
    String(String),
    Array(Vec<Json>),
    Object(Vec<(String, Json)>),
}

/// Mathematical model of a JSON number.
pub enum JsonNumberV {
    PosInt(u64),
    NegInt(i64),
    Float(Seq<char>),
}

/// Mathematical model of a JSON value.
pub enum JsonV {
    Null,
    Bool(bool),
    Number(JsonNumberV),
    Str(Seq<char>),
    Array(Seq<JsonV>),
    Object(Seq<(Seq<char>, JsonV)>),
}

impl View for JsonNumber {
    type V = JsonNumberV;

    open spec fn view(&self) -> JsonNumberV {
        match self {
            JsonNumber::PosInt(u) => JsonNumberV::PosInt(*u),
            JsonNumber::NegInt(i) => JsonNumberV::NegInt(*i),
            JsonNumber::Float(t) => JsonNumberV::Float(t@),
        }
    }
}

impl View for Json {
    type V = JsonV;

    open spec fn view(&self) -> JsonV {
        json_model(*self)
    }
}

/// The model of a JSON value.
pub open spec fn json_model(j: Json) -> JsonV
    decreases j, 1int,
{
    match j {
        Json::Null => JsonV::Null,
        Json::Bool(b) => JsonV::Bool(b),
        Json::Number(n) => JsonV::Number(n@),
        Json::String(s) => JsonV::Str(s@),
        Json::Array(items) => JsonV::Array(items_model(items@)),
        Json::Object(fields) => JsonV::Object(fields_model(fields@)),
    }
}

/// The models of array items.
pub open spec fn items_model(s: Seq<Json>) -> Seq<JsonV>
    decreases s, 0int,
{
    if s.len() == 0 {
        Seq::empty()
    } else {
        items_model(s.drop_last()).push(json_model(s.last()))
    }
}

/// The models of object members.
pub open spec fn fields_model(s: Seq<(String, Json)>) -> Seq<(Seq<char>, JsonV)>
    decreases s, 0int,
{
    if s.len() == 0 {
        Seq::empty()
    } else {
        fields_model(s.drop_last()).push((s.last().0@, json_model(s.last().1)))
    }
}

/// The model of each item is the model of that item.
pub proof fn lemma_items_model(s: Seq<Json>)
    ensures
        items_model(s).len() == s.len(),
        forall|i: int| 0 <= i < s.len() ==> #[trigger] items_model(s)[i] == s[i]@,
    decreases s.len(),
{
    if s.len() > 0 {
        lemma_items_model(s.drop_last());
        assert forall|i: int| 0 <= i < s.len() implies #[trigger] items_model(s)[i] == s[i]@ by {
            if i < s.len() - 1 {
                assert(s.drop_last()[i] == s[i]);
            }
        }
    }
}

/// The model of each member is its name and the model of its value.
pub proof fn lemma_fields_model(s: Seq<(String, Json)>)
    ensures
        fields_model(s).len() == s.len(),
        forall|i: int| 0 <= i < s.len() ==> #[trigger] fields_model(s)[i] == (s[i].0@, s[i].1@),
    decreases s.len(),
{
    if s.len() > 0 {
        lemma_fields_model(s.drop_last());
        assert forall|i: int| 0 <= i < s.len() implies #[trigger] fields_model(s)[i] == (
            s[i].0@,
            s[i].1@,
        ) by {
            if i < s.len() - 1 {
                assert(s.drop_last()[i] == s[i]);
            }
        }
    }
}

/// The value of the first member of `fields` named `key`.
pub open spec fn member(fields: Seq<(String, Json)>, key: Seq<char>) -> Option<Json>
    decreases fields.len(),
{
    if fields.len() == 0 {
        None
    } else if fields[0].0@ == key {
        Some(fields[0].1)
    } else {
        member(fields.drop_first(), key)
    }
}

/// The member `key` of `v` when `v` is an object.
pub open spec fn get_spec(v: Json, key: Seq<char>) -> Option<Json> {
    match v {
        Json::Object(fields) => member(fields@, key),
        _ => None,
    }
}

/// The text of `v` when it is a JSON string.
pub open spec fn str_spec(v: Option<Json>) -> Option<Seq<char>> {
    match v {
        Some(Json::String(s)) => Some(s@),
        _ => None,
    }
}

/// The value behind an optional reference.
pub open spec fn deref_opt(v: Option<&Json>) -> Option<Json> {
    match v {
        Some(x) => Some(*x),
        None => None,
    }
}

/// The model of an optional reference.
pub open spec fn view_opt(v: Option<&Json>) -> Option<JsonV> {
    match v {
        Some(x) => Some(x@),
        None => None,
    }
}

proof fn lemma_member_index(fields: Seq<(String, Json)>, key: Seq<char>, i: int)
    requires
        0 <= i < fields.len(),
        fields[i].0@ == key,
        forall|k: int| 0 <= k < i ==> fields[k].0@ != key,
    ensures
        member(fields, key) == Some(fields[i].1),
    decreases i,
{
    if i > 0 {
        lemma_member_index(fields.drop_first(), key, i - 1);
    }
}

proof fn lemma_member_none(fields: Seq<(String, Json)>, key: Seq<char>)
    requires
        forall|k: int| 0 <= k < fields.len() ==> fields[k].0@ != key,
    ensures
        member(fields, key) is None,
    decreases fields.len(),
{
    if fields.len() > 0 {
        lemma_member_none(fields.drop_first(), key);
    }
}

/// The position of the first member of `fields` named `key`.
pub fn find_member(fields: &Vec<(String, Json)>, key: &[char]) -> (r: Option<usize>)
    ensures
        match r {
            Some(i) => i < fields@.len() && fields@[i as int].0@ == key@ && member(fields@, key@)
                == Some(fields@[i as int].1) && forall|k: int|
                0 <= k < i ==> fields@[k].0@ != key@,
            None => member(fields@, key@) is None && forall|k: int|
                0 <= k < fields@.len() ==> fields@[k].0@ != key@,
        },
{
    let mut i: usize = 0;
    while i < fields.len()
        invariant
            0 <= i <= fields@.len(),
            forall|k: int| 0 <= k < i ==> fields@[k].0@ != key@,
        decreases fields@.len() - i,
    {
        let name = chars_of(fields[i].0.as_str());
        if chars_eq(name.as_slice(), key) {
            proof {
                lemma_member_index(fields@, key@, i as int);
            }
            return Some(i);
        }
        i = i + 1;
    }
    proof {
        lemma_member_none(fields@, key@);
    }
    None
}

/// The member `key` of an object's members.
pub fn object_get<'a>(fields: &'a Vec<(String, Json)>, key: &str) -> (r: Option<&'a Json>)
    ensures
        deref_opt(r) == member(fields@, key@),
{
    let k = chars_of(key);
    match find_member(fields, k.as_slice()) {
        Some(i) => Some(&fields[i].1),
        None => None,
    }
}

/// The member `key` of `v` when `v` is an object (`Value::get`).
pub fn get<'a>(v: &'a Json, key: &str) -> (r: Option<&'a Json>)
    ensures
        deref_opt(r) == get_spec(*v, key@),
{
    match v {
        Json::Object(fields) => {
            object_get(fields, key)
        },
        _ => None,
    }
}

/// The text of an optional JSON string (`and_then(Value::as_str)`).
pub fn as_str_opt<'a>(v: Option<&'a Json>) -> (r: Option<&'a String>)
    ensures
        match r {
            Some(s) => str_spec(deref_opt(v)) == Some(s@),
            None => str_spec(deref_opt(v)) is None,
        },
{
    match v {
        Some(Json::String(s)) => Some(s),
        _ => None,
    }
}

/// Copies a JSON number.
pub fn clone_number(n: &JsonNumber) -> (r: JsonNumber)
    ensures
        r@ == n@,
{
    match n {
        JsonNumber::PosInt(u) => JsonNumber::PosInt(*u),
        JsonNumber::NegInt(i) => JsonNumber::NegInt(*i),
        JsonNumber::Float(t) => JsonNumber::Float(t.clone()),
    }
}

/// Copies a JSON value.
pub fn deep_clone(v: &Json) -> (r: Json)
    ensures
        r@ == v@,
    decreases v,
{
    match v {
        Json::Null => Json::Null,
        Json::Bool(b) => Json::Bool(*b),
        Json::Number(n) => Json::Number(clone_number(n)),
        Json::String(s) => Json::String(s.clone()),
        Json::Array(items) => {
            let mut out: Vec<Json> = Vec::new();
            let mut i: usize = 0;
            while i < items.len()
                invariant
                    0 <= i <= items@.len(),
                    out@.len() == i,
                    forall|k: int| 0 <= k < i ==> out@[k]@ == items@[k]@,
                    *v == Json::Array(*items),
                decreases items@.len() - i,
            {
                let ghost vv = *v;
                assert(decreases_to!(vv => vv->Array_0));
                assert(decreases_to!(vv->Array_0 => vv->Array_0[i as int]));
                let item = deep_clone(&items[i]);
                out.push(item);
                i = i + 1;
            }
            let r = Json::Array(out);
            proof {
                lemma_items_model(out@);
                lemma_items_model(items@);
                assert(items_model(out@) =~= items_model(items@));
            }
            r
        },
        Json::Object(fields) => {
            let mut out: Vec<(String, Json)> = Vec::new();
            let mut i: usize = 0;
            while i < fields.len()
                invariant
                    0 <= i <= fields@.len(),
                    out@.len() == i,
                    forall|k: int|
                        0 <= k < i ==> out@[k].0@ == fields@[k].0@ && out@[k].1@ == fields@[k].1@,
                    *v == Json::Object(*fields),
                decreases fields@.len() - i,
            {
                let ghost vv = *v;
                assert(decreases_to!(vv => vv->Object_0));
                assert(decreases_to!(vv->Object_0 => vv->Object_0[i as int]));
                assert(decreases_to!(vv->Object_0[i as int] => vv->Object_0[i as int].1));
                let item = deep_clone(&fields[i].1);
                out.push((fields[i].0.clone(), item));
                i = i + 1;
            }
            let r = Json::Object(out);
            proof {
                lemma_fields_model(out@);
                lemma_fields_model(fields@);
                assert(fields_model(out@) =~= fields_model(fields@));
            }
            r
        },
    }
}

/// Copies an optional JSON value.
pub fn clone_opt(v: Option<&Json>) -> (r: Option<Json>)
    ensures
        view_opt2(r) == view_opt(v),
{
    match v {
        Some(x) => Some(deep_clone(x)),
        None => None,
    }
}

/// The model of an optional owned JSON value.
pub open spec fn view_opt2(v: Option<Json>) -> Option<JsonV> {
    match v {
        Some(x) => Some(x@),
        None => None,
    }
}

/// The models of an object's members.
pub open spec fn fields_view(f: Seq<(String, Json)>) -> Seq<(Seq<char>, JsonV)> {
    f.map_values(|p: (String, Json)| (p.0@, p.1@))
}

/// The model of an object is the models of its members.
pub proof fn lemma_object_view(f: Seq<(String, Json)>)
    ensures
        fields_model(f) == fields_view(f),
{
    lemma_fields_model(f);
    assert(fields_model(f) =~= fields_view(f));
}

/// A JSON string holding a copy of `s`.
pub fn json_string(s: &str) -> (r: Json)
    ensures
        r matches Json::String(t) && t@ == s@,
{
    Json::String(s.to_owned())
}

/// A JSON non-negative integer.
pub fn json_uint(n: u64) -> (r: Json)
    ensures
        r == Json::Number(JsonNumber::PosInt(n)),
{
    Json::Number(JsonNumber::PosInt(n))
}

} // verus!
