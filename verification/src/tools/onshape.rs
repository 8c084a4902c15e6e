//! Onshape-specific request checks and the safe reading of Onshape error
//! bodies.
//!
//! A document creation body must be a JSON object with a non-blank string
//! `name`, and its known optional fields must have the documented types.
//! Diagnostics describe a body only by allow-listed field names and value
//! types, never by its values.
use vstd::prelude::*;
use crate::json::{
    Json, JsonNumberV, JsonV, deep_clone, fields_model, fields_view, find_member, lemma_fields_model,
    lemma_object_view, member,
};
use crate::request::{ApiRequest, HttpMethod, RequestBody};
use crate::text::{
    chars_of, dedup_sorted, dedup_texts, join_strings, join_texts, push_all, push_str, sort_texts,
    sorted_texts, str_eq, string_from, texts_view, trim, trim_chars,
};
use crate::tools::inject::{upsert, upsert_string};
use crate::tools::FileReference;
use crate::endpoints::pairs_view;

verus! {

broadcast use vstd::std_specs::vec::group_vec_axioms;

// ---------------------------------------------------------------------------
// JSON shape
// ---------------------------------------------------------------------------

/// The value of the first member named `key`.
pub open spec fn memberv(fs: Seq<(Seq<char>, JsonV)>, key: Seq<char>) -> Option<JsonV>
    decreases fs.len(),
{
    if fs.len() == 0 {
        None
    } else if fs[0].0 == key {
        Some(fs[0].1)
    } else {
        memberv(fs.drop_first(), key)
    }
}

/// The name of a JSON value's type, revealing nothing of its contents.
pub open spec fn value_kind(v: JsonV) -> Seq<char> {
    match v {
        JsonV::Null => "null"@,
        JsonV::Bool(_) => "boolean"@,
        JsonV::Number(JsonNumberV::Float(_)) => "number"@,
        JsonV::Number(_) => "integer"@,
        JsonV::Str(_) => "string"@,
        JsonV::Array(_) => "array"@,
        JsonV::Object(_) => "object"@,
    }
}

/// Whether a field name is one of the known Onshape field names that may
/// appear in diagnostics.
pub open spec fn known_field(n: Seq<char>) -> bool {
    ||| n == "body"@
    ||| n == "code"@
    ||| n == "description"@
    ||| n == "details"@
    ||| n == "elements"@
    ||| n == "error"@
    ||| n == "errorCode"@
    ||| n == "forceExportRules"@
    ||| n == "generateUnknownMessages"@
    ||| n == "isEmptyContent"@
    ||| n == "isPublic"@
    ||| n == "message"@
    ||| n == "moreInfoUrl"@
    ||| n == "name"@
    ||| n == "notes"@
    ||| n == "notRevisionManaged"@
    ||| n == "oldClientNotes"@
    ||| n == "ownerEmail"@
    ||| n == "ownerId"@
    ||| n == "ownerType"@
    ||| n == "parentId"@
    ||| n == "projectId"@
    ||| n == "requestId"@
    ||| n == "retryable"@
    ||| n == "status"@
    ||| n == "statusCode"@
    ||| n == "statusMsg"@
    ||| n == "tags"@
}

/// A field name as diagnostics show it: known names as they are, others
/// redacted.
pub open spec fn safe_name(n: Seq<char>) -> Seq<char> {
    if known_field(n) {
        n
    } else {
        "<unrecognized field>"@
    }
}

/// `name: type` for each member.
pub open spec fn descriptors(fs: Seq<(Seq<char>, JsonV)>) -> Seq<Seq<char>> {
    fs.map_values(|p: (Seq<char>, JsonV)| safe_name(p.0) + ": "@ + value_kind(p.1))
}

/// The type name of each item.
pub open spec fn item_types(items: Seq<JsonV>) -> Seq<Seq<char>> {
    items.map_values(|j: JsonV| value_kind(j))
}

/// The shape of a JSON value: for an object the distinct `name: type`
/// descriptors in order, for an array the distinct item types in order,
/// else the type name.
pub open spec fn shape(v: JsonV) -> Seq<char> {
    match v {
        JsonV::Object(fs) => {
            let d = dedup_texts(sorted_texts(descriptors(fs)));
            if d.len() == 0 {
                "object with no fields"@
            } else {
                "object with fields {"@ + join_texts(d, ", "@) + "}"@
            }
        },
        JsonV::Array(items) => {
            let d = dedup_texts(sorted_texts(item_types(items)));
            if d.len() == 0 {
                "array with no items"@
            } else {
                "array with item types {"@ + join_texts(d, ", "@) + "}"@
            }
        },
        _ => value_kind(v),
    }
}

/// The type name of a JSON value.
pub fn json_type_name(v: &Json) -> (r: &'static str)
    ensures
        r@ == value_kind(v@),
{
    match v {
        Json::Null => "null",
        Json::Bool(_) => "boolean",
        Json::Number(crate::json::JsonNumber::Float(_)) => "number",
        Json::Number(_) => "integer",
        Json::String(_) => "string",
        Json::Array(_) => "array",
        Json::Object(_) => "object",
    }
}

/// A field name as diagnostics show it.
pub fn safe_diagnostic_field_name<'a>(name: &'a str) -> (r: &'a str)
    ensures
        r@ == safe_name(name@),
{
    if str_eq(name, "body") || str_eq(name, "code") || str_eq(name, "description") || str_eq(
        name,
        "details",
    ) || str_eq(name, "elements") || str_eq(name, "error") || str_eq(name, "errorCode")
        || str_eq(name, "forceExportRules") || str_eq(name, "generateUnknownMessages") || str_eq(
        name,
        "isEmptyContent",
    ) || str_eq(name, "isPublic") || str_eq(name, "message") || str_eq(name, "moreInfoUrl")
        || str_eq(name, "name") || str_eq(name, "notes") || str_eq(name, "notRevisionManaged")
        || str_eq(name, "oldClientNotes") || str_eq(name, "ownerEmail") || str_eq(name, "ownerId")
        || str_eq(name, "ownerType") || str_eq(name, "parentId") || str_eq(name, "projectId")
        || str_eq(name, "requestId") || str_eq(name, "retryable") || str_eq(name, "status")
        || str_eq(name, "statusCode") || str_eq(name, "statusMsg") || str_eq(name, "tags") {
        name
    } else {
        "<unrecognized field>"
    }
}

/// The descriptors of an object's members.
fn field_descriptors(f: &Vec<(String, Json)>) -> (r: Vec<String>)
    ensures
        texts_view(r@) == descriptors(fields_model(f@)),
{
    proof {
        lemma_fields_model(f@);
    }
    let mut r: Vec<String> = Vec::new();
    let mut i: usize = 0;
    while i < f.len()
        invariant
            0 <= i <= f@.len(),
            fields_model(f@).len() == f@.len(),
            forall|k: int| 0 <= k < f@.len() ==> #[trigger] fields_model(f@)[k] == (f@[k].0@, f@[k].1@),
            texts_view(r@) =~= descriptors(fields_model(f@)).subrange(0, i as int),
        decreases f@.len() - i,
    {
        let mut d = chars_of(safe_diagnostic_field_name(f[i].0.as_str()));
        push_str(&mut d, ": ");
        push_str(&mut d, json_type_name(&f[i].1));
        let ghost before = r@;
        r.push(string_from(d.as_slice()));
        proof {
            let ds = descriptors(fields_model(f@));
            assert(ds[i as int] == safe_name(f@[i as int].0@) + ": "@ + value_kind(f@[i as int].1@));
            assert(texts_view(r@) =~= texts_view(before).push(ds[i as int]));
            assert(ds.subrange(0, i + 1) =~= ds.subrange(0, i as int).push(ds[i as int]));
        }
        i = i + 1;
    }
    r
}

/// The type names of an array's items.
fn item_type_names(items: &Vec<Json>) -> (r: Vec<String>)
    ensures
        texts_view(r@) == item_types(crate::json::items_model(items@)),
{
    proof {
        crate::json::lemma_items_model(items@);
    }
    let mut r: Vec<String> = Vec::new();
    let mut i: usize = 0;
    while i < items.len()
        invariant
            0 <= i <= items@.len(),
            crate::json::items_model(items@).len() == items@.len(),
            forall|k: int|
                0 <= k < items@.len() ==> #[trigger] crate::json::items_model(items@)[k] == items@[k]@,
            texts_view(r@) =~= item_types(crate::json::items_model(items@)).subrange(0, i as int),
        decreases items@.len() - i,
    {
        let ghost before = r@;
        r.push(json_type_name(&items[i]).to_owned());
        proof {
            let ts = item_types(crate::json::items_model(items@));
            assert(ts[i as int] == value_kind(items@[i as int]@));
            assert(texts_view(r@) =~= texts_view(before).push(ts[i as int]));
            assert(ts.subrange(0, i + 1) =~= ts.subrange(0, i as int).push(ts[i as int]));
        }
        i = i + 1;
    }
    r
}

/// `prefix {a, b, ...}` for a non-empty list, `empty` otherwise.
fn braced_list(v: &Vec<String>, prefix: &str, empty: &str) -> (r: String)
    ensures
        r@ == if v@.len() == 0 {
            empty@
        } else {
            prefix@ + "{"@ + join_texts(texts_view(v@), ", "@) + "}"@
        },
{
    if v.len() == 0 {
        return empty.to_owned();
    }
    let mut s = chars_of(prefix);
    push_str(&mut s, "{");
    let j = join_strings(v, ", ");
    push_all(&mut s, j.as_slice());
    push_str(&mut s, "}");
    string_from(s.as_slice())
}

/// The shape of a JSON value.
pub fn json_shape(v: &Json) -> (r: String)
    ensures
        r@ == shape(v@),
{
    match v {
        Json::Object(f) => {
            let d = field_descriptors(f);
            let sorted = sort_texts(d);
            let unique = dedup_sorted(&sorted);
            proof {
                reveal_strlit("object with fields ");
                reveal_strlit("object with fields {");
                reveal_strlit("{");
                assert("object with fields "@ + "{"@ =~= "object with fields {"@);
            }
            braced_list(&unique, "object with fields ", "object with no fields")
        },
        Json::Array(items) => {
            let d = item_type_names(items);
            let sorted = sort_texts(d);
            let unique = dedup_sorted(&sorted);
            proof {
                reveal_strlit("array with item types ");
                reveal_strlit("array with item types {");
                reveal_strlit("{");
                assert("array with item types "@ + "{"@ =~= "array with item types {"@);
            }
            braced_list(&unique, "array with item types ", "array with no items")
        },
        _ => json_type_name(v).to_owned(),
    }
}

// ---------------------------------------------------------------------------
// Member lookup on models
// ---------------------------------------------------------------------------

proof fn lemma_memberv_index(fs: Seq<(Seq<char>, JsonV)>, key: Seq<char>, i: int)
    requires
        0 <= i < fs.len(),
        fs[i].0 == key,
        forall|k: int| 0 <= k < i ==> fs[k].0 != key,
    ensures
        memberv(fs, key) == Some(fs[i].1),
    decreases i,
{
    if i > 0 {
        lemma_memberv_index(fs.drop_first(), key, i - 1);
    }
}

proof fn lemma_memberv_none(fs: Seq<(Seq<char>, JsonV)>, key: Seq<char>)
    requires
        forall|k: int| 0 <= k < fs.len() ==> fs[k].0 != key,
    ensures
        memberv(fs, key) is None,
    decreases fs.len(),
{
    if fs.len() > 0 {
        lemma_memberv_none(fs.drop_first(), key);
    }
}

/// The member `key` of an object's members, with its model.
pub fn object_getv<'a>(fields: &'a Vec<(String, Json)>, key: &str) -> (r: Option<&'a Json>)
    ensures
        match r {
            Some(v) => memberv(fields_model(fields@), key@) == Some(v@),
            None => memberv(fields_model(fields@), key@) is None,
        },
{
    let k = chars_of(key);
    proof {
        lemma_fields_model(fields@);
    }
    match find_member(fields, k.as_slice()) {
        Some(i) => {
            proof {
                let fs = fields_model(fields@);
                assert forall|m: int| 0 <= m < i implies fs[m].0 != key@ by {
                    assert(fs[m] == (fields@[m].0@, fields@[m].1@));
                }
                lemma_memberv_index(fs, key@, i as int);
            }
            Some(&fields[i].1)
        },
        None => {
            proof {
                let fs = fields_model(fields@);
                assert forall|m: int| 0 <= m < fs.len() implies fs[m].0 != key@ by {
                    assert(fs[m] == (fields@[m].0@, fields@[m].1@));
                }
                lemma_memberv_none(fs, key@);
            }
            None
        },
    }
}

// ---------------------------------------------------------------------------
// Document creation bodies
// ---------------------------------------------------------------------------

/// The error for an optional string field of the wrong type.
pub open spec fn string_field_error(fs: Seq<(Seq<char>, JsonV)>, n: Seq<char>) -> Seq<Seq<char>> {
    match memberv(fs, n) {
        Some(v) => if v is Null || v is Str {
            Seq::<Seq<char>>::empty()
        } else {
            seq![n + " must be string or null, received "@ + value_kind(v)]
        },
        None => Seq::<Seq<char>>::empty(),
    }
}

/// The error for an optional boolean field of the wrong type.
pub open spec fn boolean_field_error(fs: Seq<(Seq<char>, JsonV)>, n: Seq<char>) -> Seq<Seq<char>> {
    match memberv(fs, n) {
        Some(v) => if v is Null || v is Bool {
            Seq::<Seq<char>>::empty()
        } else {
            seq![n + " must be boolean or null, received "@ + value_kind(v)]
        },
        None => Seq::<Seq<char>>::empty(),
    }
}

/// Whether a value is null or an integer.
pub open spec fn null_or_integer(v: JsonV) -> bool {
    match v {
        JsonV::Null => true,
        JsonV::Number(JsonNumberV::Float(_)) => false,
        JsonV::Number(_) => true,
        _ => false,
    }
}

/// The error for an `ownerType` that is not an integer.
pub open spec fn owner_type_error(fs: Seq<(Seq<char>, JsonV)>) -> Seq<Seq<char>> {
    match memberv(fs, "ownerType"@) {
        Some(v) => if null_or_integer(v) {
            Seq::<Seq<char>>::empty()
        } else {
            seq!["ownerType must be integer or null, received "@ + value_kind(v)]
        },
        None => Seq::<Seq<char>>::empty(),
    }
}

/// The error for `elements` that is not an array.
pub open spec fn elements_error(fs: Seq<(Seq<char>, JsonV)>) -> Seq<Seq<char>> {
    match memberv(fs, "elements"@) {
        Some(v) => if v is Null || v is Array {
            Seq::<Seq<char>>::empty()
        } else {
            seq!["elements must be array or null, received "@ + value_kind(v)]
        },
        None => Seq::<Seq<char>>::empty(),
    }
}

/// Whether all items are strings.
pub open spec fn all_strings(items: Seq<JsonV>) -> bool {
    forall|i: int| 0 <= i < items.len() ==> #[trigger] items[i] is Str
}

/// The error for `tags` that is not an array of strings.
pub open spec fn tags_error(fs: Seq<(Seq<char>, JsonV)>) -> Seq<Seq<char>> {
    match memberv(fs, "tags"@) {
        Some(JsonV::Null) => Seq::<Seq<char>>::empty(),
        Some(JsonV::Array(items)) => if all_strings(items) {
            Seq::<Seq<char>>::empty()
        } else {
            seq!["tags must contain only strings"@]
        },
        Some(v) => seq!["tags must be array or null, received "@ + value_kind(v)],
        None => Seq::<Seq<char>>::empty(),
    }
}

/// The type errors of the known optional fields of a document body, in
/// the order the fields are checked.
pub open spec fn invalid_fields(fs: Seq<(Seq<char>, JsonV)>) -> Seq<Seq<char>> {
    string_field_error(fs, "description"@) + string_field_error(fs, "notes"@)
        + string_field_error(fs, "oldClientNotes"@) + string_field_error(fs, "ownerEmail"@)
        + string_field_error(fs, "ownerId"@) + string_field_error(fs, "parentId"@)
        + string_field_error(fs, "projectId"@) + boolean_field_error(fs, "forceExportRules"@)
        + boolean_field_error(fs, "generateUnknownMessages"@) + boolean_field_error(
        fs,
        "isEmptyContent"@,
    ) + boolean_field_error(fs, "isPublic"@) + boolean_field_error(fs, "notRevisionManaged"@)
        + owner_type_error(fs) + elements_error(fs) + tags_error(fs)
}

/// Appends the error for an optional field of the wrong type.
fn check_field(
    fields: &Vec<(String, Json)>,
    name: &str,
    boolean: bool,
    invalid: &mut Vec<String>,
)
    ensures
        texts_view(final(invalid)@) == texts_view(old(invalid)@) + if boolean {
            boolean_field_error(fields_model(fields@), name@)
        } else {
            string_field_error(fields_model(fields@), name@)
        },
{
    let ghost before = texts_view(invalid@);
    if let Some(v) = object_getv(fields, name) {
        let ok = match v {
            Json::Null => true,
            Json::Bool(_) => boolean,
            Json::String(_) => !boolean,
            _ => false,
        };
        if !ok {
            let mut m = chars_of(name);
            if boolean {
                push_str(&mut m, " must be boolean or null, received ");
            } else {
                push_str(&mut m, " must be string or null, received ");
            }
            push_str(&mut m, json_type_name(v));
            invalid.push(string_from(m.as_slice()));
            assert(texts_view(invalid@) =~= before + seq![m@]);
            return;
        }
    }
    assert(texts_view(invalid@) =~= before + Seq::<Seq<char>>::empty());
}

/// The type errors of the known optional fields of a document body.
pub fn create_document_invalid_fields(fields: &Vec<(String, Json)>) -> (r: Vec<String>)
    ensures
        texts_view(r@) == invalid_fields(fields_model(fields@)),
{
    let ghost fs = fields_model(fields@);
    let mut invalid: Vec<String> = Vec::new();
    assert(texts_view(invalid@) =~= Seq::<Seq<char>>::empty());
    check_field(fields, "description", false, &mut invalid);
    check_field(fields, "notes", false, &mut invalid);
    check_field(fields, "oldClientNotes", false, &mut invalid);
    check_field(fields, "ownerEmail", false, &mut invalid);
    check_field(fields, "ownerId", false, &mut invalid);
    check_field(fields, "parentId", false, &mut invalid);
    check_field(fields, "projectId", false, &mut invalid);
    check_field(fields, "forceExportRules", true, &mut invalid);
    check_field(fields, "generateUnknownMessages", true, &mut invalid);
    check_field(fields, "isEmptyContent", true, &mut invalid);
    check_field(fields, "isPublic", true, &mut invalid);
    check_field(fields, "notRevisionManaged", true, &mut invalid);
    let ghost before = texts_view(invalid@);
    if let Some(v) = object_getv(fields, "ownerType") {
        let ok = match v {
            Json::Null => true,
            Json::Number(crate::json::JsonNumber::Float(_)) => false,
            Json::Number(_) => true,
            _ => false,
        };
        if !ok {
            let mut m = chars_of("ownerType must be integer or null, received ");
            push_str(&mut m, json_type_name(v));
            invalid.push(string_from(m.as_slice()));
        }
    }
    assert(texts_view(invalid@) =~= before + owner_type_error(fs));
    let ghost before = texts_view(invalid@);
    if let Some(v) = object_getv(fields, "elements") {
        let ok = match v {
            Json::Null => true,
            Json::Array(_) => true,
            _ => false,
        };
        if !ok {
            let mut m = chars_of("elements must be array or null, received ");
            push_str(&mut m, json_type_name(v));
            invalid.push(string_from(m.as_slice()));
        }
    }
    assert(texts_view(invalid@) =~= before + elements_error(fs));
    let ghost before = texts_view(invalid@);
    if let Some(v) = object_getv(fields, "tags") {
        match v {
            Json::Null => {},
            Json::Array(items) => {
                let mut all = true;
                let mut i: usize = 0;
                proof {
                    crate::json::lemma_items_model(items@);
                }
                while i < items.len()
                    invariant
                        0 <= i <= items@.len(),
                        crate::json::items_model(items@).len() == items@.len(),
                        forall|k: int|
                            0 <= k < items@.len() ==> #[trigger] crate::json::items_model(items@)[k]
                                == items@[k]@,
                        all == forall|k: int| 0 <= k < i ==> #[trigger] items@[k] is String,
                    decreases items@.len() - i,
                {
                    match &items[i] {
                        Json::String(_) => {},
                        _ => {
                            all = false;
                        },
                    }
                    i = i + 1;
                }
                proof {
                    let its = crate::json::items_model(items@);
                    assert forall|k: int| 0 <= k < items@.len() implies (#[trigger] its[k] is Str)
                        == (items@[k] is String) by {
                        assert(its[k] == items@[k]@);
                    }
                    if !all {
                        let k = choose|k: int| 0 <= k < items@.len() && !(items@[k] is String);
                        assert(!(its[k] is Str));
                    }
                }
                if !all {
                    invalid.push("tags must contain only strings".to_owned());
                }
            },
            _ => {
                let mut m = chars_of("tags must be array or null, received ");
                push_str(&mut m, json_type_name(v));
                invalid.push(string_from(m.as_slice()));
            },
        }
    }
    assert(texts_view(invalid@) =~= before + tags_error(fs));
    invalid
}

/// What `serde_json` makes of `text`: whether it parses as a JSON document
/// whose top-level value is an object.
pub uninterp spec fn json_text_is_object(text: Seq<char>) -> bool;

/// Whether `text` parses as a JSON object (`serde_json::from_str` into a
/// `Value`, then `Value::is_object`). Claimed: the result is the named
/// property of `text`.
#[verifier::external_body]
fn parses_as_json_object(text: &str) -> (r: bool)
    ensures
        r == json_text_is_object(text@),
{
    serde_json::from_str::<serde_json::Value>(text).is_ok_and(|v| v.is_object())
}

/// The hint for a body that is a string holding a JSON object.
pub open spec fn double_encoding_hint(b: JsonV) -> Seq<char> {
    match b {
        JsonV::Str(t) => if json_text_is_object(t) {
            "; the parsed body is a string containing JSON, so it is double-encoded"@
        } else {
            ""@
        },
        _ => ""@,
    }
}

/// The outcome of checking a document creation body: it must be an object
/// with a non-blank string `name`, and the known optional fields must have
/// their types; the field errors are listed in sorted order.
pub open spec fn create_document_check(body: Option<JsonV>) -> Result<(), Seq<char>> {
    match body {
        None => Err("createDocument requires a body containing a non-blank name"@),
        Some(b) => match b {
            JsonV::Object(fs) => match memberv(fs, "name"@) {
                None => Err(
                    "createDocument body is missing the semantically required name field; received "@
                        + shape(b),
                ),
                Some(JsonV::Str(n)) => if trim(n).len() == 0 {
                    Err("createDocument name must not be blank; received "@ + shape(b))
                } else {
                    let inv = invalid_fields(fs);
                    if inv.len() == 0 {
                        Ok(())
                    } else {
                        Err(
                            "invalid createDocument body fields: "@ + join_texts(
                                sorted_texts(inv),
                                "; "@,
                            ) + "; received "@ + shape(b),
                        )
                    }
                },
                Some(v) => Err(
                    "createDocument field name must be a string; received "@ + value_kind(v)
                        + " in "@ + shape(b),
                ),
            },
            _ => Err(
                "createDocument body must parse directly to a JSON object; received "@ + shape(b)
                    + double_encoding_hint(b),
            ),
        },
    }
}

/// The model of an optional JSON reference.
pub open spec fn opt_view(v: Option<&Json>) -> Option<JsonV> {
    match v {
        Some(x) => Some(x@),
        None => None,
    }
}

/// Turns a check outcome into a message result.
pub open spec fn check_result(c: Result<(), Seq<char>>, r: Result<(), String>) -> bool {
    match c {
        Ok(()) => r is Ok,
        Err(m) => r matches Err(x) && x@ == m,
    }
}

/// Checks a document creation body.
pub fn validate_create_document_body(body: Option<&Json>) -> (r: Result<(), String>)
    ensures
        check_result(create_document_check(opt_view(body)), r),
{
    let b = match body {
        Some(b) => b,
        None => {
            return Err("createDocument requires a body containing a non-blank name".to_owned());
        },
    };
    let fields = match b {
        Json::Object(f) => f,
        _ => {
            let mut m = chars_of("createDocument body must parse directly to a JSON object; received ");
            let sh = json_shape(b);
            push_str(&mut m, sh.as_str());
            if let Json::String(t) = b {
                if parses_as_json_object(t.as_str()) {
                    push_str(
                        &mut m,
                        "; the parsed body is a string containing JSON, so it is double-encoded",
                    );
                }
            }
            proof {
                reveal_strlit("");
                assert(m@ =~= "createDocument body must parse directly to a JSON object; received "@
                    + shape(b@) + double_encoding_hint(b@));
            }
            return Err(string_from(m.as_slice()));
        },
    };
    match object_getv(fields, "name") {
        None => {
            let mut m = chars_of(
                "createDocument body is missing the semantically required name field; received ",
            );
            push_str(&mut m, json_shape(b).as_str());
            return Err(string_from(m.as_slice()));
        },
        Some(Json::String(n)) => {
            let nc = chars_of(n.as_str());
            if trim_chars(nc.as_slice()).len() == 0 {
                let mut m = chars_of("createDocument name must not be blank; received ");
                push_str(&mut m, json_shape(b).as_str());
                return Err(string_from(m.as_slice()));
            }
        },
        Some(v) => {
            let mut m = chars_of("createDocument field name must be a string; received ");
            push_str(&mut m, json_type_name(v));
            push_str(&mut m, " in ");
            push_str(&mut m, json_shape(b).as_str());
            return Err(string_from(m.as_slice()));
        },
    }
    let invalid = create_document_invalid_fields(fields);
    if invalid.len() == 0 {
        Ok(())
    } else {
        let sorted = sort_texts(invalid);
        let mut m = chars_of("invalid createDocument body fields: ");
        let j = join_strings(&sorted, "; ");
        push_all(&mut m, j.as_slice());
        push_str(&mut m, "; received ");
        push_str(&mut m, json_shape(b).as_str());
        Err(string_from(m.as_slice()))
    }
}

// ---------------------------------------------------------------------------
// Checks around file injection
// ---------------------------------------------------------------------------

/// The members other than those named `key`, in order.
pub open spec fn remove_all(fs: Seq<(Seq<char>, JsonV)>, key: Seq<char>) -> Seq<(Seq<char>, JsonV)>
    decreases fs.len(),
{
    if fs.len() == 0 {
        fs
    } else if fs.last().0 == key {
        remove_all(fs.drop_last(), key)
    } else {
        remove_all(fs.drop_last(), key).push(fs.last())
    }
}

/// The body members as checked before the files are read: a file for
/// `name` counts as a pending name; any other file-supplied field is left
/// out until its content is known.
pub open spec fn pending_fields(fs: Seq<(Seq<char>, JsonV)>, refs: Seq<FileReference>) -> Seq<
    (Seq<char>, JsonV),
>
    decreases refs.len(),
{
    if refs.len() == 0 {
        fs
    } else {
        let p = pending_fields(fs, refs.drop_last());
        let fr = refs.last();
        if fr.field@ == "name"@ {
            upsert(p, "name"@, JsonV::Str("pending file_ref"@))
        } else {
            remove_all(p, fr.field@)
        }
    }
}

/// The check of a document creation body before its files are read.
pub open spec fn pending_check(body: Option<JsonV>, refs: Seq<FileReference>) -> Result<(), Seq<char>> {
    if refs.len() == 0 {
        create_document_check(body)
    } else {
        match body {
            Some(JsonV::Object(fs)) => create_document_check(
                Some(JsonV::Object(pending_fields(fs, refs))),
            ),
            _ => create_document_check(body),
        }
    }
}

/// Drops the members named `key`.
fn remove_members(fields: &mut Vec<(String, Json)>, key: &String)
    ensures
        fields_view(final(fields)@) == remove_all(fields_view(old(fields)@), key@),
{
    let ghost orig = fields@;
    let mut out: Vec<(String, Json)> = Vec::new();
    let mut i: usize = 0;
    let len = fields.len();
    assert(fields_view(orig.subrange(0, 0)) =~= Seq::<(Seq<char>, JsonV)>::empty());
    while i < len
        invariant
            0 <= i <= len,
            len == orig.len(),
            fields@ =~= orig.subrange(i as int, len as int),
            fields_view(out@) == remove_all(fields_view(orig.subrange(0, i as int)), key@),
        decreases len - i,
    {
        let x = fields.remove(0);
        proof {
            assert(fields_view(orig.subrange(0, i + 1)).drop_last() =~= fields_view(
                orig.subrange(0, i as int),
            ));
            assert(fields_view(orig.subrange(0, i + 1)).last() == (x.0@, x.1@));
        }
        if !str_eq(x.0.as_str(), key.as_str()) {
            let ghost before = out@;
            out.push(x);
            assert(fields_view(out@) =~= fields_view(before).push((x.0@, x.1@)));
        }
        i = i + 1;
    }
    assert(orig.subrange(0, len as int) =~= orig);
    *fields = out;
}

/// Checks a document creation body before the files it names are read.
pub fn validate_create_document_body_before_file_injection(
    body: Option<&Json>,
    file_refs: &[FileReference],
) -> (r: Result<(), String>)
    ensures
        check_result(pending_check(opt_view(body), file_refs@), r),
{
    if file_refs.len() == 0 {
        return validate_create_document_body(body);
    }
    let b = match body {
        Some(b) => b,
        None => return validate_create_document_body(None),
    };
    let pending = deep_clone(b);
    match pending {
        Json::Object(mut fields) => {
            proof {
                lemma_object_view(fields@);
            }
            let ghost start = fields_view(fields@);
            let mut i: usize = 0;
            assert(file_refs@.subrange(0, 0) =~= Seq::<FileReference>::empty());
            while i < file_refs.len()
                invariant
                    0 <= i <= file_refs@.len(),
                    fields_view(fields@) == pending_fields(start, file_refs@.subrange(0, i as int)),
                decreases file_refs@.len() - i,
            {
                proof {
                    assert(file_refs@.subrange(0, i + 1).drop_last() =~= file_refs@.subrange(
                        0,
                        i as int,
                    ));
                }
                let fr = &file_refs[i];
                if str_eq(fr.field.as_str(), "name") {
                    upsert_string(&mut fields, &"name".to_owned(), "pending file_ref".to_owned());
                } else {
                    remove_members(&mut fields, &fr.field);
                }
                i = i + 1;
            }
            assert(file_refs@.subrange(0, file_refs@.len() as int) =~= file_refs@);
            let pj = Json::Object(fields);
            proof {
                lemma_object_view(fields@);
            }
            validate_create_document_body(Some(&pj))
        },
        other => validate_create_document_body(Some(&other)),
    }
}

/// The endpoint-specific check of a call body: document creation bodies
/// are checked, other endpoints accept any body.
pub open spec fn call_body_check(endpoint: Seq<char>, body: Option<JsonV>, refs: Seq<FileReference>) -> Result<
    (),
    Seq<char>,
> {
    if endpoint == "createDocument"@ {
        pending_check(body, refs)
    } else {
        Ok(())
    }
}

/// Applies the Onshape endpoint checks before the request is built and its
/// files are read.
pub fn validate_call_body(endpoint: &str, body: Option<&Json>, file_refs: &[FileReference]) -> (r:
    Result<(), String>)
    ensures
        check_result(call_body_check(endpoint@, opt_view(body), file_refs@), r),
{
    if str_eq(endpoint, "createDocument") {
        validate_create_document_body_before_file_injection(body, file_refs)
    } else {
        Ok(())
    }
}

/// Whether a request creates a document: a JSON POST to `/documents`.
pub open spec fn creates_document(request: ApiRequest) -> bool {
    &&& request.method == HttpMethod::Post
    &&& request.path@ == "/documents"@
    &&& request.body matches Some(RequestBody::Json(_))
}

/// Whether a request creates a document.
pub fn is_create_document_request(request: &ApiRequest) -> (r: bool)
    ensures
        r == creates_document(*request),
{
    let post = match request.method {
        HttpMethod::Post => true,
        _ => false,
    };
    let json = match &request.body {
        Some(RequestBody::Json(_)) => true,
        _ => false,
    };
    post && str_eq(request.path.as_str(), "/documents") && json
}

/// The check of a request once its files are in: document creation
/// requests have their body checked again.
pub open spec fn injected_check(request: ApiRequest) -> Result<(), Seq<char>> {
    if creates_document(request) {
        match request.body {
            Some(RequestBody::Json(v)) => create_document_check(Some(v@)),
            _ => create_document_check(None),
        }
    } else {
        Ok(())
    }
}

/// Checks a request again after file contents were put in.
pub fn validate_injected_request(request: &ApiRequest) -> (r: Result<(), String>)
    ensures
        check_result(injected_check(*request), r),
{
    if is_create_document_request(request) {
        let body = match &request.body {
            Some(b) => b.as_json(),
            None => None,
        };
        validate_create_document_body(body)
    } else {
        Ok(())
    }
}

// ---------------------------------------------------------------------------
// Error bodies
// ---------------------------------------------------------------------------

/// The code held at `key`, when it is a string in the safe set.
pub open spec fn code_at(fs: Seq<(Seq<char>, JsonV)>, key: Seq<char>, safe: Seq<Seq<char>>) -> Option<
    Seq<char>,
> {
    match memberv(fs, key) {
        Some(JsonV::Str(c)) => if safe.contains(c) {
            Some(c)
        } else {
            None
        },
        _ => None,
    }
}

/// `a`, else `b`.
pub open spec fn or_else(a: Option<Seq<char>>, b: Option<Seq<char>>) -> Option<Seq<char>> {
    if a is Some {
        a
    } else {
        b
    }
}

/// The first safe code of an error body, looking at `statusEnum`,
/// `errorValue`, `errorCode` and `code` in that order.
pub open spec fn safe_error_code(body: JsonV, safe: Seq<Seq<char>>) -> Option<Seq<char>> {
    match body {
        JsonV::Object(fs) => or_else(
            code_at(fs, "statusEnum"@, safe),
            or_else(
                code_at(fs, "errorValue"@, safe),
                or_else(code_at(fs, "errorCode"@, safe), code_at(fs, "code"@, safe)),
            ),
        ),
        _ => None,
    }
}

/// The normalized form of a known severity.
pub open spec fn severity_label(s: Seq<char>) -> Option<Seq<char>> {
    if s == "OK"@ {
        Some("ok"@)
    } else if s == "INFO"@ {
        Some("info"@)
    } else if s == "WARNING"@ {
        Some("warning"@)
    } else if s == "ERROR"@ {
        Some("error"@)
    } else if s == "UNKNOWN"@ {
        Some("unknown"@)
    } else {
        None
    }
}

/// The severity held at `key`, when it is a known one.
pub open spec fn severity_at(fs: Seq<(Seq<char>, JsonV)>, key: Seq<char>) -> Option<Seq<char>> {
    match memberv(fs, key) {
        Some(JsonV::Str(s)) => severity_label(s),
        _ => None,
    }
}

/// The first known severity of an error body, looking at `featureStatus`,
/// `statusType` and `level` in that order.
pub open spec fn safe_error_severity(body: JsonV) -> Option<Seq<char>> {
    match body {
        JsonV::Object(fs) => or_else(
            severity_at(fs, "featureStatus"@),
            or_else(severity_at(fs, "statusType"@), severity_at(fs, "level"@)),
        ),
        _ => None,
    }
}

/// Whether `c` is in the safe set.
fn is_safe(c: &String, safe: &Vec<String>) -> (r: bool)
    ensures
        r == texts_view(safe@).contains(c@),
{
    let mut i: usize = 0;
    while i < safe.len()
        invariant
            0 <= i <= safe@.len(),
            forall|k: int| 0 <= k < i ==> safe@[k]@ != c@,
        decreases safe@.len() - i,
    {
        if str_eq(safe[i].as_str(), c.as_str()) {
            assert(texts_view(safe@)[i as int] == c@);
            return true;
        }
        i = i + 1;
    }
    proof {
        if texts_view(safe@).contains(c@) {
            let k = choose|k: int| 0 <= k < texts_view(safe@).len() && texts_view(safe@)[k] == c@;
            assert(safe@[k]@ == c@);
        }
    }
    false
}

/// The code at `key`, when it is safe.
fn safe_code_at<'a>(fields: &'a Vec<(String, Json)>, key: &str, safe: &Vec<String>) -> (r: Option<
    &'a String,
>)
    ensures
        match r {
            Some(c) => code_at(fields_model(fields@), key@, texts_view(safe@)) == Some(c@),
            None => code_at(fields_model(fields@), key@, texts_view(safe@)) is None,
        },
{
    match object_getv(fields, key) {
        Some(Json::String(c)) => if is_safe(c, safe) {
            Some(c)
        } else {
            None
        },
        _ => None,
    }
}

/// The first safe Onshape error code of an error body.
pub fn safe_onshape_error_code<'a>(body: &'a Json, safe_codes: &Vec<String>) -> (r: Option<
    &'a String,
>)
    ensures
        match r {
            Some(c) => safe_error_code(body@, texts_view(safe_codes@)) == Some(c@),
            None => safe_error_code(body@, texts_view(safe_codes@)) is None,
        },
{
    let fields = match body {
        Json::Object(f) => f,
        _ => return None,
    };
    if let Some(c) = safe_code_at(fields, "statusEnum", safe_codes) {
        return Some(c);
    }
    if let Some(c) = safe_code_at(fields, "errorValue", safe_codes) {
        return Some(c);
    }
    if let Some(c) = safe_code_at(fields, "errorCode", safe_codes) {
        return Some(c);
    }
    safe_code_at(fields, "code", safe_codes)
}

/// The severity at `key`, normalized, when it is a known one.
fn severity_of<'a>(fields: &'a Vec<(String, Json)>, key: &str) -> (r: Option<&'static str>)
    ensures
        match r {
            Some(c) => severity_at(fields_model(fields@), key@) == Some(c@),
            None => severity_at(fields_model(fields@), key@) is None,
        },
{
    match object_getv(fields, key) {
        Some(Json::String(s)) => {
            let s = s.as_str();
            if str_eq(s, "OK") {
                Some("ok")
            } else if str_eq(s, "INFO") {
                Some("info")
            } else if str_eq(s, "WARNING") {
                Some("warning")
            } else if str_eq(s, "ERROR") {
                Some("error")
            } else if str_eq(s, "UNKNOWN") {
                Some("unknown")
            } else {
                None
            }
        },
        _ => None,
    }
}

/// The first known severity of an error body, normalized.
pub fn safe_onshape_error_severity(body: &Json) -> (r: Option<&'static str>)
    ensures
        match r {
            Some(c) => safe_error_severity(body@) == Some(c@),
            None => safe_error_severity(body@) is None,
        },
{
    let fields = match body {
        Json::Object(f) => f,
        _ => return None,
    };
    if let Some(s) = severity_of(fields, "featureStatus") {
        return Some(s);
    }
    if let Some(s) = severity_of(fields, "statusType") {
        return Some(s);
    }
    severity_of(fields, "level")
}

/// `; error_code=<code>` when there is a code.
pub open spec fn code_detail(c: Option<Seq<char>>) -> Seq<char> {
    match c {
        Some(x) => "; error_code="@ + x,
        None => ""@,
    }
}

/// `; severity=<severity>` when there is a severity.
pub open spec fn severity_detail(c: Option<Seq<char>>) -> Seq<char> {
    match c {
        Some(x) => "; severity="@ + x,
        None => ""@,
    }
}

/// The allow-listed details of an error body: `; error_code=<code>` and
/// `; severity=<severity>` for what is present.
pub open spec fn error_details(body: Option<JsonV>, safe: Seq<Seq<char>>) -> Seq<char> {
    match body {
        Some(b) => code_detail(safe_error_code(b, safe)) + severity_detail(safe_error_severity(b)),
        None => ""@,
    }
}

/// Appends the allow-listed details of an error body to a diagnostic;
/// `body` is the response body parsed as JSON, if it is JSON.
pub fn append_api_error_details(detail: &mut String, body: Option<&Json>, safe_codes: &Vec<String>)
    ensures
        final(detail)@ == old(detail)@ + error_details(opt_view(body), texts_view(safe_codes@)),
{
    proof {
        reveal_strlit("");
    }
    let b = match body {
        Some(b) => b,
        None => {
            assert(old(detail)@ + ""@ =~= old(detail)@);
            return;
        },
    };
    let mut m = chars_of(detail.as_str());
    let ghost start = m@;
    if let Some(c) = safe_onshape_error_code(b, safe_codes) {
        push_str(&mut m, "; error_code=");
        push_str(&mut m, c.as_str());
    }
    let ghost mid = m@;
    if let Some(s) = safe_onshape_error_severity(b) {
        push_str(&mut m, "; severity=");
        push_str(&mut m, s);
    }
    proof {
        assert(m@ =~= start + error_details(Some(b@), texts_view(safe_codes@)));
    }
    *detail = string_from(m.as_slice());
}

// ---------------------------------------------------------------------------
// The FeatureScript error catalogue
// ---------------------------------------------------------------------------

/// FeatureScript error messages and the codes safe to show.
#[derive(Debug, PartialEq)]
pub struct ErrorEnums {
    /// `(code, message)` pairs.
    pub messages: Vec<(String, String)>,
    /// Codes that diagnostics may show.
    pub safe_codes: Vec<String>,
}

/// The string-valued members, in order.
pub open spec fn string_members(fs: Seq<(Seq<char>, JsonV)>) -> Seq<(Seq<char>, Seq<char>)>
    decreases fs.len(),
{
    if fs.len() == 0 {
        Seq::<(Seq<char>, Seq<char>)>::empty()
    } else {
        let p = string_members(fs.drop_last());
        match fs.last().1 {
            JsonV::Str(t) => p.push((fs.last().0, t)),
            _ => p,
        }
    }
}

/// What the catalogue document holds: an `enums` object (its string
/// members are the messages) and a `safe_codes` array of strings.
pub open spec fn error_enums_of(doc: JsonV) -> Option<(Seq<(Seq<char>, Seq<char>)>, Seq<Seq<char>>)> {
    match doc {
        JsonV::Object(fs) => match (memberv(fs, "enums"@), memberv(fs, "safe_codes"@)) {
            (Some(JsonV::Object(es)), Some(JsonV::Array(cs))) => if all_strings(cs) {
                Some((string_members(es), cs.map_values(|j: JsonV| j->Str_0)))
            } else {
                None
            },
            _ => None,
        },
        _ => None,
    }
}

impl ErrorEnums {
    /// Reads the catalogue from its document; `None` when the document does
    /// not have the expected form.
    pub fn from_document(doc: &Json) -> (r: Option<ErrorEnums>)
        ensures
            match error_enums_of(doc@) {
                Some((m, c)) => r matches Some(e) && pairs_view(e.messages@) == m && texts_view(
                    e.safe_codes@,
                ) == c,
                None => r is None,
            },
    {
        let fields = match doc {
            Json::Object(f) => f,
            _ => return None,
        };
        let enums = match object_getv(fields, "enums") {
            Some(Json::Object(es)) => es,
            _ => return None,
        };
        let codes = match object_getv(fields, "safe_codes") {
            Some(Json::Array(cs)) => cs,
            _ => return None,
        };
        proof {
            lemma_fields_model(enums@);
            crate::json::lemma_items_model(codes@);
        }
        let ghost expected = if all_strings(crate::json::items_model(codes@)) {
            Some(
                (
                    string_members(fields_model(enums@)),
                    crate::json::items_model(codes@).map_values(|x: JsonV| x->Str_0),
                ),
            )
        } else {
            None
        };
        assert(error_enums_of(doc@) == expected);
        let mut messages: Vec<(String, String)> = Vec::new();
        let mut i: usize = 0;
        assert(fields_model(enums@).subrange(0, 0) =~= Seq::<(Seq<char>, JsonV)>::empty());
        assert(pairs_view(messages@) =~= Seq::<(Seq<char>, Seq<char>)>::empty());
        while i < enums.len()
            invariant
                0 <= i <= enums@.len(),
                fields_model(enums@).len() == enums@.len(),
                forall|k: int|
                    0 <= k < enums@.len() ==> #[trigger] fields_model(enums@)[k] == (
                        enums@[k].0@,
                        enums@[k].1@,
                    ),
                pairs_view(messages@) == string_members(fields_model(enums@).subrange(0, i as int)),
            decreases enums@.len() - i,
        {
            proof {
                assert(fields_model(enums@).subrange(0, i + 1).drop_last() =~= fields_model(
                    enums@,
                ).subrange(0, i as int));
                assert(fields_model(enums@).subrange(0, i + 1).last() == fields_model(enums@)[i as int]);
            }
            match &enums[i].1 {
                Json::String(t) => {
                    let ghost before = messages@;
                    messages.push((enums[i].0.clone(), t.clone()));
                    assert(pairs_view(messages@) =~= pairs_view(before).push((enums@[i as int].0@, t@)));
                },
                _ => {},
            }
            i = i + 1;
        }
        assert(fields_model(enums@).subrange(0, enums@.len() as int) =~= fields_model(enums@));
        let mut safe_codes: Vec<String> = Vec::new();
        let mut j: usize = 0;
        while j < codes.len()
            invariant
                0 <= j <= codes@.len(),
                crate::json::items_model(codes@).len() == codes@.len(),
                forall|k: int|
                    0 <= k < codes@.len() ==> #[trigger] crate::json::items_model(codes@)[k]
                        == codes@[k]@,
                texts_view(safe_codes@) =~= crate::json::items_model(codes@).subrange(
                    0,
                    j as int,
                ).map_values(|x: JsonV| x->Str_0),
                error_enums_of(doc@) == expected,
                expected == if all_strings(crate::json::items_model(codes@)) {
                    Some(
                        (
                            string_members(fields_model(enums@)),
                            crate::json::items_model(codes@).map_values(|x: JsonV| x->Str_0),
                        ),
                    )
                } else {
                    None
                },
                pairs_view(messages@) == string_members(fields_model(enums@)),
                forall|k: int| 0 <= k < j ==> #[trigger] codes@[k] is String,
            decreases codes@.len() - j,
        {
            match &codes[j] {
                Json::String(c) => {
                    let ghost before = safe_codes@;
                    safe_codes.push(c.clone());
                    proof {
                        let its = crate::json::items_model(codes@);
                        assert(its[j as int] == JsonV::Str(c@));
                        assert(texts_view(safe_codes@) =~= texts_view(before).push(c@));
                        assert(its.subrange(0, j + 1).map_values(|x: JsonV| x->Str_0) =~= its.subrange(
                            0,
                            j as int,
                        ).map_values(|x: JsonV| x->Str_0).push(c@));
                    }
                },
                _ => {
                    proof {
                        let its = crate::json::items_model(codes@);
                        assert(!(its[j as int] is Str));
                        assert(!all_strings(its));
                    }
                    return None;
                },
            }
            j = j + 1;
        }
        proof {
            assert(crate::json::items_model(codes@).subrange(0, codes@.len() as int)
                =~= crate::json::items_model(codes@));
            assert forall|k: int| 0 <= k < codes@.len() implies #[trigger] crate::json::items_model(
                codes@,
            )[k] is Str by {
                assert(codes@[k] is String);
            }
        }
        Some(ErrorEnums { messages, safe_codes })
    }
}

} // verus!
