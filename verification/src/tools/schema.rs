//! Presentation of endpoint schemas. A property that refers (directly or
//! through its `items`) to a polymorphic schema is annotated with the
//! subtype names that the schema's discriminator admits, under
//! `x-bttype-options`. Only one level of properties is examined.
//!
//! The subtype names come from the catalogue as a table of `(reference,
//! names)` pairs; the first entry for a reference counts.
use vstd::prelude::*;
use crate::json::{deep_clone, fields_model, fields_view, lemma_fields_model, lemma_items_model, lemma_object_view, items_model, Json, JsonV, view_opt2};
use crate::oauth::strings_view;
use crate::openapi::EndpointDetail;
use crate::text::{chars_eq, chars_of};
use crate::tools::inject::{upsert, upsert_member};
use crate::tools::onshape::{memberv, object_getv};

verus! {

/// The subtype names listed for reference `r`: those of its first entry.
pub open spec fn options_for(table: Seq<(Seq<char>, Seq<Seq<char>>)>, r: Seq<char>) -> Option<
    Seq<Seq<char>>,
>
    decreases table.len(),
{
    if table.len() == 0 {
        None
    } else if table[0].0 == r {
        Some(table[0].1)
    } else {
        options_for(table.drop_first(), r)
    }
}

/// The model of a table of subtype names.
pub open spec fn table_view(t: Seq<(String, Vec<String>)>) -> Seq<(Seq<char>, Seq<Seq<char>>)> {
    t.map_values(|e: (String, Vec<String>)| (e.0@, strings_view(e.1@)))
}

/// The annotation value: the subtype names as a JSON array of strings.
pub open spec fn options_json(opts: Seq<Seq<char>>) -> JsonV {
    JsonV::Array(opts.map_values(|s: Seq<char>| JsonV::Str(s)))
}

/// The `$ref` string of an object, if it has one.
pub open spec fn ref_of(v: JsonV) -> Option<Seq<char>> {
    match v {
        JsonV::Object(f) => match memberv(f, "$ref"@) {
            Some(JsonV::Str(s)) => Some(s),
            _ => None,
        },
        _ => None,
    }
}

/// The subtype names for the schema that `v` refers to, if any.
pub open spec fn ref_options(v: JsonV, table: Seq<(Seq<char>, Seq<Seq<char>>)>) -> Option<
    Seq<Seq<char>>,
> {
    match ref_of(v) {
        Some(r) => options_for(table, r),
        None => None,
    }
}

/// A property annotated: a reference to a polymorphic schema gets the
/// annotation; otherwise an array whose items refer to one gets it on its
/// items; anything else is left as it is.
pub open spec fn annotated_property(v: JsonV, table: Seq<(Seq<char>, Seq<Seq<char>>)>) -> JsonV {
    match v {
        JsonV::Object(f) => match ref_options(v, table) {
            Some(opts) => JsonV::Object(upsert(f, "x-bttype-options"@, options_json(opts))),
            None => match memberv(f, "items"@) {
                Some(items) => match (items, ref_options(items, table)) {
                    (JsonV::Object(g), Some(opts)) => JsonV::Object(
                        upsert(
                            f,
                            "items"@,
                            JsonV::Object(upsert(g, "x-bttype-options"@, options_json(opts))),
                        ),
                    ),
                    _ => v,
                },
                None => v,
            },
        },
        _ => v,
    }
}

/// A properties object with each property annotated.
pub open spec fn annotated_properties(v: JsonV, table: Seq<(Seq<char>, Seq<Seq<char>>)>) -> JsonV {
    match v {
        JsonV::Object(f) => JsonV::Object(
            f.map_values(|p: (Seq<char>, JsonV)| (p.0, annotated_property(p.1, table))),
        ),
        _ => v,
    }
}

/// An `allOf` member with its properties annotated.
pub open spec fn annotated_item(v: JsonV, table: Seq<(Seq<char>, Seq<Seq<char>>)>) -> JsonV {
    match v {
        JsonV::Object(g) => match memberv(g, "properties"@) {
            Some(p) => JsonV::Object(upsert(g, "properties"@, annotated_properties(p, table))),
            None => v,
        },
        _ => v,
    }
}

/// The members of a schema object with its own properties annotated.
pub open spec fn with_annotated_properties(
    f: Seq<(Seq<char>, JsonV)>,
    table: Seq<(Seq<char>, Seq<Seq<char>>)>,
) -> Seq<(Seq<char>, JsonV)> {
    match memberv(f, "properties"@) {
        Some(p) => upsert(f, "properties"@, annotated_properties(p, table)),
        None => f,
    }
}

/// A schema annotated: its properties, and the properties of each member
/// of its `allOf` list.
pub open spec fn annotated_schema(v: JsonV, table: Seq<(Seq<char>, Seq<Seq<char>>)>) -> JsonV {
    match v {
        JsonV::Object(f) => {
            let f1 = with_annotated_properties(f, table);
            match memberv(f1, "allOf"@) {
                Some(JsonV::Array(items)) => JsonV::Object(
                    upsert(
                        f1,
                        "allOf"@,
                        JsonV::Array(items.map_values(|i: JsonV| annotated_item(i, table))),
                    ),
                ),
                _ => JsonV::Object(f1),
            }
        },
        _ => v,
    }
}

/// The model of an optional schema, annotated.
pub open spec fn annotated_opt(v: Option<Json>, table: Seq<(Seq<char>, Seq<Seq<char>>)>) -> Option<
    JsonV,
> {
    match v {
        Some(s) => Some(annotated_schema(s@, table)),
        None => None,
    }
}

fn find_options<'a>(table: &'a Vec<(String, Vec<String>)>, r: &str) -> (o: Option<&'a Vec<String>>)
    ensures
        match o {
            Some(v) => options_for(table_view(table@), r@) == Some(strings_view(v@)),
            None => options_for(table_view(table@), r@) is None,
        },
{
    let ghost tv = table_view(table@);
    let k = chars_of(r);
    let mut i: usize = 0;
    assert(tv.subrange(0, tv.len() as int) =~= tv);
    while i < table.len()
        invariant
            0 <= i <= table@.len(),
            tv == table_view(table@),
            k@ == r@,
            options_for(tv, r@) == options_for(tv.subrange(i as int, tv.len() as int), r@),
        decreases table@.len() - i,
    {
        let ghost rest = tv.subrange(i as int, tv.len() as int);
        assert(rest.drop_first() =~= tv.subrange(i + 1, tv.len() as int));
        assert(rest[0] == (table@[i as int].0@, strings_view(table@[i as int].1@)));
        let name = chars_of(table[i].0.as_str());
        if chars_eq(name.as_slice(), k.as_slice()) {
            return Some(&table[i].1);
        }
        i = i + 1;
    }
    None
}

fn options_value(opts: &Vec<String>) -> (r: Json)
    ensures
        r@ == options_json(strings_view(opts@)),
{
    let mut items: Vec<Json> = Vec::new();
    let mut i: usize = 0;
    while i < opts.len()
        invariant
            0 <= i <= opts@.len(),
            items@.len() == i,
            forall|k: int| 0 <= k < i ==> (#[trigger] items@[k])@ == JsonV::Str(opts@[k]@),
        decreases opts@.len() - i,
    {
        items.push(Json::String(opts[i].clone()));
        i = i + 1;
    }
    proof {
        lemma_items_model(items@);
        assert(items_model(items@) =~= strings_view(opts@).map_values(|s: Seq<char>| JsonV::Str(s)));
    }
    Json::Array(items)
}

/// A copy of an object's members.
fn clone_members(value: &Json) -> (r: Vec<(String, Json)>)
    requires
        value is Object,
    ensures
        fields_view(r@) == fields_view(value->Object_0@),
{
    let copy = deep_clone(value);
    match copy {
        Json::Object(f) => {
            proof {
                lemma_object_view(f@);
                lemma_object_view(value->Object_0@);
            }
            f
        },
        _ => {
            proof {
                assert(false);
            }
            Vec::new()
        },
    }
}

fn ref_options_of<'a>(v: &Json, table: &'a Vec<(String, Vec<String>)>) -> (o: Option<&'a Vec<String>>)
    ensures
        match o {
            Some(x) => ref_options(v@, table_view(table@)) == Some(strings_view(x@)),
            None => ref_options(v@, table_view(table@)) is None,
        },
{
    match v {
        Json::Object(fields) => match object_getv(fields, "$ref") {
            Some(Json::String(r)) => find_options(table, r.as_str()),
            _ => None,
        },
        _ => None,
    }
}

/// Annotates one property (see [`annotated_property`]).
pub fn annotate_single_property(value: &Json, table: &Vec<(String, Vec<String>)>) -> (r: Json)
    ensures
        r@ == annotated_property(value@, table_view(table@)),
{
    match value {
        Json::Object(fields) => {
            proof {
                lemma_object_view(fields@);
            }
            if let Some(opts) = ref_options_of(value, table) {
                let mut f = clone_members(value);
                upsert_member(&mut f, "x-bttype-options", options_value(opts));
                proof {
                    lemma_object_view(f@);
                }
                return Json::Object(f);
            }
            match object_getv(fields, "items") {
                Some(items) => match items {
                    Json::Object(g) => {
                        if let Some(opts) = ref_options_of(items, table) {
                            let mut gi = clone_members(items);
                            upsert_member(&mut gi, "x-bttype-options", options_value(opts));
                            proof {
                                lemma_object_view(gi@);
                                lemma_object_view(g@);
                            }
                            let mut f = clone_members(value);
                            upsert_member(&mut f, "items", Json::Object(gi));
                            proof {
                                lemma_object_view(f@);
                            }
                            Json::Object(f)
                        } else {
                            deep_clone(value)
                        }
                    },
                    _ => deep_clone(value),
                },
                None => deep_clone(value),
            }
        },
        _ => deep_clone(value),
    }
}

/// Annotates each property of a properties object (see
/// [`annotated_properties`]).
pub fn annotate_discriminators(schema: &Json, table: &Vec<(String, Vec<String>)>) -> (r: Json)
    ensures
        r@ == annotated_properties(schema@, table_view(table@)),
{
    match schema {
        Json::Object(fields) => {
            let mut out: Vec<(String, Json)> = Vec::new();
            let mut i: usize = 0;
            while i < fields.len()
                invariant
                    0 <= i <= fields@.len(),
                    out@.len() == i,
                    forall|k: int|
                        0 <= k < i ==> (#[trigger] out@[k]).0@ == fields@[k].0@ && out@[k].1@
                            == annotated_property(fields@[k].1@, table_view(table@)),
                decreases fields@.len() - i,
            {
                let v = annotate_single_property(&fields[i].1, table);
                out.push((fields[i].0.clone(), v));
                i = i + 1;
            }
            proof {
                lemma_fields_model(out@);
                lemma_fields_model(fields@);
                assert(fields_model(out@) =~= fields_model(fields@).map_values(
                    |p: (Seq<char>, JsonV)| (p.0, annotated_property(p.1, table_view(table@))),
                ));
            }
            Json::Object(out)
        },
        _ => deep_clone(schema),
    }
}

fn annotate_item(item: &Json, table: &Vec<(String, Vec<String>)>) -> (r: Json)
    ensures
        r@ == annotated_item(item@, table_view(table@)),
{
    match item {
        Json::Object(g) => match object_getv(g, "properties") {
            Some(p) => {
                let ap = annotate_discriminators(p, table);
                let mut gi = clone_members(item);
                upsert_member(&mut gi, "properties", ap);
                proof {
                    lemma_object_view(gi@);
                    lemma_object_view(g@);
                }
                Json::Object(gi)
            },
            None => deep_clone(item),
        },
        _ => deep_clone(item),
    }
}

/// Annotates a schema's properties and those of the members of its `allOf`
/// list (see [`annotated_schema`]).
pub fn annotate_schema_properties(schema: &Json, table: &Vec<(String, Vec<String>)>) -> (r: Json)
    ensures
        r@ == annotated_schema(schema@, table_view(table@)),
{
    let ghost tv = table_view(table@);
    match schema {
        Json::Object(fields) => {
            proof {
                lemma_object_view(fields@);
            }
            let mut f = clone_members(schema);
            match object_getv(fields, "properties") {
                Some(p) => {
                    let ap = annotate_discriminators(p, table);
                    upsert_member(&mut f, "properties", ap);
                },
                None => {},
            }
            let ghost f1 = fields_view(f@);
            assert(f1 == with_annotated_properties(fields_view(fields@), tv));
            proof {
                lemma_object_view(f@);
            }
            let all_of = match object_getv(&f, "allOf") {
                Some(Json::Array(items)) => {
                    let mut annotated: Vec<Json> = Vec::new();
                    let mut i: usize = 0;
                    while i < items.len()
                        invariant
                            0 <= i <= items@.len(),
                            annotated@.len() == i,
                            forall|k: int|
                                0 <= k < i ==> (#[trigger] annotated@[k])@ == annotated_item(
                                    items@[k]@,
                                    table_view(table@),
                                ),
                        decreases items@.len() - i,
                    {
                        annotated.push(annotate_item(&items[i], table));
                        i = i + 1;
                    }
                    proof {
                        lemma_items_model(annotated@);
                        lemma_items_model(items@);
                        assert(items_model(annotated@) =~= items_model(items@).map_values(
                            |x: JsonV| annotated_item(x, tv),
                        ));
                    }
                    Some(annotated)
                },
                _ => None,
            };
            match all_of {
                Some(annotated) => {
                    upsert_member(&mut f, "allOf", Json::Array(annotated));
                },
                None => {},
            }
            proof {
                lemma_object_view(f@);
            }
            Json::Object(f)
        },
        _ => deep_clone(schema),
    }
}

/// Annotates the request and response schemas of an endpoint explanation;
/// everything else is kept.
pub fn present_endpoint(detail: &mut EndpointDetail, table: &Vec<(String, Vec<String>)>)
    ensures
        view_opt2(final(detail).request_body_schema) == annotated_opt(
            old(detail).request_body_schema,
            table_view(table@),
        ),
        view_opt2(final(detail).response_schema) == annotated_opt(
            old(detail).response_schema,
            table_view(table@),
        ),
        final(detail).operation_id == old(detail).operation_id,
        final(detail).method == old(detail).method,
        final(detail).path == old(detail).path,
        final(detail).description == old(detail).description,
        final(detail).tags == old(detail).tags,
        final(detail).parameters == old(detail).parameters,
        final(detail).has_request_body == old(detail).has_request_body,
        final(detail).request_body_content_type == old(detail).request_body_content_type,
{
    let request = match &detail.request_body_schema {
        Some(s) => Some(annotate_schema_properties(s, table)),
        None => None,
    };
    let response = match &detail.response_schema {
        Some(s) => Some(annotate_schema_properties(s, table)),
        None => None,
    };
    detail.request_body_schema = request;
    detail.response_schema = response;
}

} // verus!
