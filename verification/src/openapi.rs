//! A catalogue of API endpoints read from an OpenAPI document, with search,
//! explanation and request construction.
//!
//! The document arrives as a parsed JSON value. Every endpoint is an
//! operation under `paths` whose method is one of GET, POST, PUT, DELETE or
//! PATCH and which has an `operationId`; operations are kept in document
//! order, and when an identifier repeats, the later operation wins.
use vstd::prelude::*;
use vstd::string::StringSliceAdditionalSpecFns;
use vstd::utf8::*;
use crate::encoding::utf8_decode;
use crate::json::{
    Json, JsonV, as_str_opt, deep_clone, deref_opt, get, get_spec, member, object_get, str_spec,
    view_opt, view_opt2,
};
use crate::endpoints::pairs_view;
use crate::oauth::{clone_strings, strings_view};
use crate::text::{
    chars_eq, chars_of, concat, contains_chars, has_prefix, has_substring, occurs_at, push_all, push_str,
    string_from, str_eq, to_lowercase, unicode_lowercase, replace_all, replace_chars,
};

verus! {

broadcast use vstd::std_specs::vec::group_vec_axioms;

// ---------------------------------------------------------------------------
// Public types
// ---------------------------------------------------------------------------

/// Errors of the endpoint catalogue.
#[derive(Debug, PartialEq)]
pub enum OpenApiError {
    /// The document is not JSON (the parser's message).
    ParseError(String),
    /// The document lacks a required part.
    InvalidSpec {
        /// What is missing.
        reason: String,
    },
    /// No endpoint has the requested operation ID.
    EndpointNotFound {
        /// The requested operation ID.
        endpoint_id: String,
    },
    /// The parameters of a call are incomplete.
    InvalidParams {
        /// What is missing.
        reason: String,
    },
}

/// The text of an error, as it is shown to users.
pub open spec fn error_text(e: OpenApiError) -> Seq<char> {
    match e {
        OpenApiError::ParseError(m) => "failed to parse OpenAPI spec: "@ + m@,
        OpenApiError::InvalidSpec { reason } => "invalid OpenAPI spec: "@ + reason@,
        OpenApiError::EndpointNotFound { endpoint_id } => "endpoint not found: "@ + endpoint_id@,
        OpenApiError::InvalidParams { reason } => "invalid parameters: "@ + reason@,
    }
}

impl OpenApiError {
    /// The text of the error.
    pub fn message(&self) -> (r: String)
        ensures
            r@ == error_text(*self),
    {
        let v = match self {
            OpenApiError::ParseError(m) => concat("failed to parse OpenAPI spec: ", m.as_str()),
            OpenApiError::InvalidSpec { reason } => concat("invalid OpenAPI spec: ", reason.as_str()),
            OpenApiError::EndpointNotFound { endpoint_id } => concat(
                "endpoint not found: ",
                endpoint_id.as_str(),
            ),
            OpenApiError::InvalidParams { reason } => concat("invalid parameters: ", reason.as_str()),
        };
        string_from(v.as_slice())
    }
}

/// HTTP method of an endpoint.
#[derive(Clone, Copy, Debug, PartialEq, Eq, Structural, Hash)]
pub enum HttpMethod {
    Get,
    Post,
    Put,
    Delete,
    Patch,
}

/// The method named by `s` once lowercased (std `str::to_lowercase`).
pub open spec fn method_named(s: Seq<char>) -> Option<HttpMethod> {
    let l = unicode_lowercase(s);
    if l == "get"@ {
        Some(HttpMethod::Get)
    } else if l == "post"@ {
        Some(HttpMethod::Post)
    } else if l == "put"@ {
        Some(HttpMethod::Put)
    } else if l == "delete"@ {
        Some(HttpMethod::Delete)
    } else if l == "patch"@ {
        Some(HttpMethod::Patch)
    } else {
        None
    }
}

/// The upper-case name of a method.
pub open spec fn method_label(m: HttpMethod) -> Seq<char> {
    match m {
        HttpMethod::Get => "GET"@,
        HttpMethod::Post => "POST"@,
        HttpMethod::Put => "PUT"@,
        HttpMethod::Delete => "DELETE"@,
        HttpMethod::Patch => "PATCH"@,
    }
}

impl HttpMethod {
    /// The method named by `s`, ignoring case.
    pub fn from_str(s: &str) -> (r: Option<HttpMethod>)
        ensures
            r == method_named(s@),
    {
        let l = to_lowercase(s);
        let l = l.as_str();
        if str_eq(l, "get") {
            Some(HttpMethod::Get)
        } else if str_eq(l, "post") {
            Some(HttpMethod::Post)
        } else if str_eq(l, "put") {
            Some(HttpMethod::Put)
        } else if str_eq(l, "delete") {
            Some(HttpMethod::Delete)
        } else if str_eq(l, "patch") {
            Some(HttpMethod::Patch)
        } else {
            None
        }
    }

    /// The upper-case name of the method.
    pub fn as_str(&self) -> (r: &'static str)
        ensures
            r@ == method_label(*self),
    {
        match self {
            HttpMethod::Get => "GET",
            HttpMethod::Post => "POST",
            HttpMethod::Put => "PUT",
            HttpMethod::Delete => "DELETE",
            HttpMethod::Patch => "PATCH",
        }
    }
}

/// Where a parameter goes in a request.
#[derive(Clone, Copy, Debug, PartialEq, Eq, Structural)]
pub enum ParameterLocation {
    Path,
    Query,
    Header,
}

/// Brief summary of an endpoint, as search returns it.
#[derive(Debug, PartialEq)]
pub struct EndpointSummary {
    /// The operation ID.
    pub operation_id: String,
    /// HTTP method.
    pub method: HttpMethod,
    /// URL path template.
    pub path: String,
    /// One-line description.
    pub description: String,
    /// Tags.
    pub tags: Vec<String>,
}

/// Description of one parameter.
#[derive(Debug, PartialEq)]
pub struct ParameterDetail {
    /// Parameter name.
    pub name: String,
    /// Where it goes.
    pub location: ParameterLocation,
    /// Whether it is required.
    pub required: bool,
    /// Its type, such as `string` or `integer`.
    pub param_type: String,
    /// Its description.
    pub description: String,
    /// Its default value, if any.
    pub default: Option<Json>,
    /// Its allowed values, if constrained.
    pub enum_values: Option<Vec<Json>>,
}

/// Full detail of an endpoint, as explain returns it.
#[derive(Debug, PartialEq)]
pub struct EndpointDetail {
    /// The operation ID.
    pub operation_id: String,
    /// HTTP method.
    pub method: HttpMethod,
    /// URL path template.
    pub path: String,
    /// Full description.
    pub description: String,
    /// Tags.
    pub tags: Vec<String>,
    /// Parameters.
    pub parameters: Vec<ParameterDetail>,
    /// Whether the endpoint takes a request body.
    pub has_request_body: bool,
    /// Schema of the request body, if given.
    pub request_body_schema: Option<Json>,
    /// Content type of the request body, if given.
    pub request_body_content_type: Option<String>,
    /// Schema of the success response, if given.
    pub response_schema: Option<Json>,
}

/// An API request for an endpoint, without credentials or base URL.
#[derive(Debug, PartialEq)]
pub struct ApiRequest {
    /// HTTP method.
    pub method: HttpMethod,
    /// Path with parameters substituted.
    pub path: String,
    /// Query parameters.
    pub query_params: Vec<(String, String)>,
    /// Body, if any.
    pub body: Option<Json>,
    /// Content type of the body.
    pub content_type: Option<String>,
}

/// Filters of a search.
#[derive(Debug, PartialEq)]
pub struct SearchFilters {
    /// Only endpoints with this method (ignored when it names no method).
    pub method: Option<String>,
    /// Only endpoints with this tag, ignoring case.
    pub tag: Option<String>,
}

impl Default for SearchFilters {
    fn default() -> (r: Self)
        ensures
            r.method is None,
            r.tag is None,
    {
        SearchFilters { method: None, tag: None }
    }
}

// ---------------------------------------------------------------------------
// Text helpers
// ---------------------------------------------------------------------------

/// `s` cut to at most `max_len` bytes of UTF-8: longer text keeps its first
/// `max_len - 3` bytes followed by `...`.
pub open spec fn truncated(s: Seq<char>, max_len: nat) -> Seq<char> {
    let b = encode_utf8(s);
    if b.len() <= max_len {
        s
    } else {
        decode_utf8(b.subrange(0, max_len - 3)) + "..."@
    }
}

/// Whether `s` can be cut at `max_len` bytes: it is short enough, or byte
/// `max_len - 3` starts a character.
pub open spec fn truncation_ok(s: Seq<char>, max_len: nat) -> bool {
    let b = encode_utf8(s);
    b.len() <= max_len || (max_len >= 3 && is_char_boundary(b, max_len - 3))
}

/// Cuts a description to at most `max_len` bytes.
pub fn truncate_description(s: &str, max_len: usize) -> (r: String)
    requires
        truncation_ok(s@, max_len as nat),
    ensures
        r@ == truncated(s@, max_len as nat),
{
    let b = s.as_bytes();
    proof {
        encode_utf8_valid_utf8(s@);
    }
    if b.len() <= max_len {
        return s.to_owned();
    }
    let k = max_len - 3;
    let p = vstd::slice::slice_subrange(b, 0, k);
    proof {
        valid_utf8_split(b@, k as int);
    }
    match utf8_decode(p) {
        Ok(t) => {
            let mut v = chars_of(t);
            push_str(&mut v, "...");
            string_from(v.as_slice())
        },
        Err(_) => String::new(),
    }
}

// ---------------------------------------------------------------------------
// Parsed endpoints
// ---------------------------------------------------------------------------

/// One parameter as the catalogue keeps it.
#[derive(Debug, PartialEq)]
pub struct ParsedParameter {
    /// Parameter name.
    pub name: String,
    /// Where it goes.
    pub location: ParameterLocation,
    /// Whether it is required.
    pub required: bool,
    /// Its type.
    pub param_type: String,
    /// Its description.
    pub description: String,
    /// Its default value.
    pub default: Option<Json>,
    /// Its allowed values.
    pub enum_values: Option<Vec<Json>>,
}

/// One endpoint as the catalogue keeps it.
#[derive(Debug, PartialEq)]
pub struct ParsedEndpoint {
    /// The operation ID.
    pub operation_id: String,
    /// HTTP method.
    pub method: HttpMethod,
    /// URL path template.
    pub path: String,
    /// Summary (empty when absent).
    pub summary: String,
    /// Description (empty when absent).
    pub description: String,
    /// Tags.
    pub tags: Vec<String>,
    /// Parameters.
    pub parameters: Vec<ParsedParameter>,
    /// Whether it takes a request body.
    pub has_request_body: bool,
    /// Request body schema, references resolved one level.
    pub request_body_schema: Option<Json>,
    /// Request body content type.
    pub request_body_content_type: Option<String>,
    /// Success response schema, references resolved one level.
    pub response_schema: Option<Json>,
    /// Lower-cased text that queries are matched against.
    pub search_text: String,
}

/// The text of an optional JSON string, or `d`.
pub open spec fn str_or(v: Option<Json>, d: Seq<char>) -> Seq<char> {
    match str_spec(v) {
        Some(s) => s,
        None => d,
    }
}

/// The member `key` of an optional schema.
pub open spec fn schema_member(schema: Option<Json>, key: Seq<char>) -> Option<Json> {
    match schema {
        Some(s) => get_spec(s, key),
        None => None,
    }
}

/// The texts of the string items, in order.
pub open spec fn string_items(items: Seq<Json>) -> Seq<Seq<char>>
    decreases items.len(),
{
    if items.len() == 0 {
        Seq::<Seq<char>>::empty()
    } else {
        let p = string_items(items.drop_last());
        match items.last() {
            Json::String(t) => p.push(t@),
            _ => p,
        }
    }
}

/// The tags of an operation: the strings of its `tags` array.
pub open spec fn tags_of(detail: Json) -> Seq<Seq<char>> {
    match get_spec(detail, "tags"@) {
        Some(Json::Array(items)) => string_items(items@),
        _ => Seq::<Seq<char>>::empty(),
    }
}

/// The location named `s`.
pub open spec fn location_named(s: Seq<char>) -> Option<ParameterLocation> {
    if s == "path"@ {
        Some(ParameterLocation::Path)
    } else if s == "query"@ {
        Some(ParameterLocation::Query)
    } else if s == "header"@ {
        Some(ParameterLocation::Header)
    } else {
        None
    }
}

/// Whether a parameter object is kept: it has a string `name` and an `in`
/// of `path`, `query` or `header`.
pub open spec fn param_accepted(p: Json) -> bool {
    &&& str_spec(get_spec(p, "name"@)) is Some
    &&& str_spec(get_spec(p, "in"@)) matches Some(l) && location_named(l) is Some
}

/// Whether two lists of JSON values have the same models.
pub open spec fn same_items(a: Seq<Json>, b: Seq<Json>) -> bool {
    a.len() == b.len() && forall|i: int| 0 <= i < a.len() ==> a[i]@ == b[i]@
}

/// Whether `r` is what the catalogue keeps of parameter object `p`: its
/// name and location; whether `required` is `true`; the schema's `type`
/// (`string` when absent), `default` and `enum` array; the description
/// (empty when absent).
pub open spec fn param_from(p: Json, r: ParsedParameter) -> bool {
    let schema = get_spec(p, "schema"@);
    &&& str_spec(get_spec(p, "name"@)) == Some(r.name@)
    &&& str_spec(get_spec(p, "in"@)) matches Some(l) && location_named(l) == Some(r.location)
    &&& r.required == (get_spec(p, "required"@) == Some(Json::Bool(true)))
    &&& r.param_type@ == str_or(schema_member(schema, "type"@), "string"@)
    &&& r.description@ == str_or(get_spec(p, "description"@), ""@)
    &&& view_opt2(r.default) == view_opt2(schema_member(schema, "default"@))
    &&& match schema_member(schema, "enum"@) {
        Some(Json::Array(items)) => r.enum_values matches Some(v) && same_items(v@, items@),
        _ => r.enum_values is None,
    }
}

/// The kept parameter objects, in order.
pub open spec fn accepted_params(ps: Seq<Json>) -> Seq<Json>
    decreases ps.len(),
{
    if ps.len() == 0 {
        ps
    } else if param_accepted(ps.last()) {
        accepted_params(ps.drop_last()).push(ps.last())
    } else {
        accepted_params(ps.drop_last())
    }
}

/// The kept parameter objects of an operation.
pub open spec fn operation_params(detail: Json) -> Seq<Json> {
    match get_spec(detail, "parameters"@) {
        Some(Json::Array(items)) => accepted_params(items@),
        _ => Seq::<Json>::empty(),
    }
}

/// Whether `r` holds what the catalogue keeps of the parameters of `detail`.
pub open spec fn params_from(detail: Json, r: Seq<ParsedParameter>) -> bool {
    let ps = operation_params(detail);
    r.len() == ps.len() && forall|i: int| 0 <= i < ps.len() ==> param_from(ps[i], #[trigger] r[i])
}

/// The prefix of local schema references.
pub open spec fn schema_ref_prefix() -> Seq<char> {
    "#/components/schemas/"@
}

/// What a schema denotes after one level of `$ref` resolution: a local
/// reference to a known component is replaced by that component.
pub open spec fn ref_target(schema: Json, comps: Seq<(String, Json)>) -> Json {
    match str_spec(get_spec(schema, "$ref"@)) {
        Some(r) => if has_prefix(r, schema_ref_prefix()) {
            match member(comps, r.subrange(schema_ref_prefix().len() as int, r.len() as int)) {
                Some(c) => c,
                None => schema,
            }
        } else {
            schema
        },
        None => schema,
    }
}

/// The component schemas of a document.
pub open spec fn components_of(root: Json) -> Seq<(String, Json)> {
    match get_spec(root, "components"@) {
        Some(c) => match get_spec(c, "schemas"@) {
            Some(Json::Object(f)) => f@,
            _ => Seq::<(String, Json)>::empty(),
        },
        None => Seq::<(String, Json)>::empty(),
    }
}

/// The schema at member `schema` of a media-type object, resolved.
pub open spec fn media_schema(info: Json, comps: Seq<(String, Json)>) -> Option<Json> {
    match get_spec(info, "schema"@) {
        Some(s) => Some(ref_target(s, comps)),
        None => None,
    }
}

/// Request body facts of an operation: whether it has one, the schema of
/// its first content type, and that content type.
pub open spec fn request_body_spec(detail: Json, comps: Seq<(String, Json)>) -> (
    bool,
    Option<Json>,
    Option<Seq<char>>,
) {
    match get_spec(detail, "requestBody"@) {
        None => (false, None, None),
        Some(rb) => match get_spec(rb, "content"@) {
            Some(Json::Object(cm)) => if cm@.len() > 0 {
                (true, media_schema(cm@[0].1, comps), Some(cm@[0].0@))
            } else {
                (true, None, None)
            },
            _ => (true, None, None),
        },
    }
}

/// The success response schema of an operation: from the `200`, else
/// `201`, else `2XX` response, the schema of its first content type.
pub open spec fn response_schema_spec(detail: Json, comps: Seq<(String, Json)>) -> Option<Json> {
    match get_spec(detail, "responses"@) {
        Some(Json::Object(rs)) => {
            let resp = match member(rs@, "200"@) {
                Some(x) => Some(x),
                None => match member(rs@, "201"@) {
                    Some(x) => Some(x),
                    None => member(rs@, "2XX"@),
                },
            };
            match resp {
                Some(r) => match get_spec(r, "content"@) {
                    Some(Json::Object(c)) => if c@.len() > 0 {
                        media_schema(c@[0].1, comps)
                    } else {
                        None
                    },
                    _ => None,
                },
                None => None,
            }
        },
        _ => None,
    }
}

/// Texts joined by single spaces.
pub open spec fn join_spaced(ss: Seq<Seq<char>>) -> Seq<char>
    decreases ss.len(),
{
    if ss.len() == 0 {
        Seq::<char>::empty()
    } else if ss.len() == 1 {
        ss[0]
    } else {
        join_spaced(ss.drop_last()) + " "@ + ss.last()
    }
}

/// The lower-cased texts.
pub open spec fn lowered(ss: Seq<Seq<char>>) -> Seq<Seq<char>> {
    ss.map_values(|t: Seq<char>| unicode_lowercase(t))
}

/// The text that queries are matched against: operation ID, path, summary,
/// description and tags, each lower-cased, separated by spaces.
pub open spec fn search_text_spec(
    op: Seq<char>,
    path: Seq<char>,
    summary: Seq<char>,
    description: Seq<char>,
    tags: Seq<Seq<char>>,
) -> Seq<char> {
    unicode_lowercase(op) + " "@ + unicode_lowercase(path) + " "@ + unicode_lowercase(summary) + " "@
        + unicode_lowercase(description) + " "@ + join_spaced(lowered(tags))
}

/// The model of an optional string.
pub open spec fn opt_string(v: Option<String>) -> Option<Seq<char>> {
    match v {
        Some(s) => Some(s@),
        None => None,
    }
}

/// Whether `e` is what the catalogue keeps of operation `op` (ID, method,
/// path, detail), given the component schemas.
pub open spec fn endpoint_from(
    op: (Seq<char>, HttpMethod, Seq<char>, Json),
    comps: Seq<(String, Json)>,
    e: ParsedEndpoint,
) -> bool {
    let detail = op.3;
    let summary = str_or(get_spec(detail, "summary"@), ""@);
    let description = str_or(get_spec(detail, "description"@), ""@);
    let tags = tags_of(detail);
    let body = request_body_spec(detail, comps);
    &&& e.operation_id@ == op.0
    &&& e.method == op.1
    &&& e.path@ == op.2
    &&& e.summary@ == summary
    &&& e.description@ == description
    &&& strings_view(e.tags@) == tags
    &&& params_from(detail, e.parameters@)
    &&& e.has_request_body == body.0
    &&& view_opt2(e.request_body_schema) == view_opt2(body.1)
    &&& opt_string(e.request_body_content_type) == body.2
    &&& view_opt2(e.response_schema) == view_opt2(response_schema_spec(detail, comps))
    &&& e.search_text@ == search_text_spec(op.0, op.2, summary, description, tags)
}

/// The text of an optional JSON string, or `d`.
fn str_or_default(v: Option<&Json>, d: &str) -> (r: String)
    ensures
        r@ == str_or(deref_opt(v), d@),
{
    match as_str_opt(v) {
        Some(s) => s.clone(),
        None => d.to_owned(),
    }
}

/// The string items of a JSON array, in order.
fn strings_of(items: &Vec<Json>) -> (r: Vec<String>)
    ensures
        strings_view(r@) == string_items(items@),
{
    let mut r: Vec<String> = Vec::new();
    let mut i: usize = 0;
    assert(items@.subrange(0, 0) =~= Seq::<Json>::empty());
    assert(strings_view(r@) =~= Seq::<Seq<char>>::empty());
    while i < items.len()
        invariant
            0 <= i <= items@.len(),
            strings_view(r@) == string_items(items@.subrange(0, i as int)),
        decreases items@.len() - i,
    {
        proof {
            assert(items@.subrange(0, i + 1).drop_last() =~= items@.subrange(0, i as int));
        }
        match &items[i] {
            Json::String(t) => {
                let ghost before = r@;
                r.push(t.clone());
                assert(strings_view(r@) =~= strings_view(before).push(t@));
            },
            _ => {},
        }
        i = i + 1;
    }
    assert(items@.subrange(0, items@.len() as int) =~= items@);
    r
}

/// Copies a list of JSON values.
fn clone_items(items: &Vec<Json>) -> (r: Vec<Json>)
    ensures
        same_items(r@, items@),
{
    let mut r: Vec<Json> = Vec::new();
    let mut i: usize = 0;
    while i < items.len()
        invariant
            0 <= i <= items@.len(),
            r@.len() == i,
            forall|k: int| 0 <= k < i ==> r@[k]@ == items@[k]@,
        decreases items@.len() - i,
    {
        r.push(deep_clone(&items[i]));
        i = i + 1;
    }
    r
}

/// The member `key` of an optional schema.
fn schema_get<'a>(schema: Option<&'a Json>, key: &str) -> (r: Option<&'a Json>)
    ensures
        deref_opt(r) == schema_member(deref_opt(schema), key@),
{
    match schema {
        Some(s) => get(s, key),
        None => None,
    }
}

/// Reads one parameter object; `None` when it lacks a name or a known
/// location.
fn parse_parameter(p: &Json) -> (r: Option<ParsedParameter>)
    ensures
        match r {
            Some(x) => param_accepted(*p) && param_from(*p, x),
            None => !param_accepted(*p),
        },
{
    let name = match as_str_opt(get(p, "name")) {
        Some(n) => n.clone(),
        None => return None,
    };
    let loc_text = match as_str_opt(get(p, "in")) {
        Some(l) => l,
        None => return None,
    };
    let location = if str_eq(loc_text.as_str(), "path") {
        ParameterLocation::Path
    } else if str_eq(loc_text.as_str(), "query") {
        ParameterLocation::Query
    } else if str_eq(loc_text.as_str(), "header") {
        ParameterLocation::Header
    } else {
        return None;
    };
    let required = match get(p, "required") {
        Some(Json::Bool(b)) => *b,
        _ => false,
    };
    let schema = get(p, "schema");
    let param_type = str_or_default(schema_get(schema, "type"), "string");
    let description = str_or_default(get(p, "description"), "");
    let default = match schema_get(schema, "default") {
        Some(d) => Some(deep_clone(d)),
        None => None,
    };
    let enum_values = match schema_get(schema, "enum") {
        Some(Json::Array(items)) => Some(clone_items(items)),
        _ => None,
    };
    Some(
        ParsedParameter {
            name,
            location,
            required,
            param_type,
            description,
            default,
            enum_values,
        },
    )
}

/// Reads the parameters of an operation, skipping malformed ones.
pub fn parse_parameters(detail: &Json) -> (r: Vec<ParsedParameter>)
    ensures
        params_from(*detail, r@),
{
    let mut r: Vec<ParsedParameter> = Vec::new();
    let items = match get(detail, "parameters") {
        Some(Json::Array(items)) => items,
        _ => return r,
    };
    let mut i: usize = 0;
    assert(items@.subrange(0, 0) =~= Seq::<Json>::empty());
    while i < items.len()
        invariant
            0 <= i <= items@.len(),
            ({
                let ps = accepted_params(items@.subrange(0, i as int));
                r@.len() == ps.len() && forall|k: int|
                    0 <= k < ps.len() ==> param_from(ps[k], #[trigger] r@[k])
            }),
        decreases items@.len() - i,
    {
        proof {
            assert(items@.subrange(0, i + 1).drop_last() =~= items@.subrange(0, i as int));
        }
        match parse_parameter(&items[i]) {
            Some(x) => {
                r.push(x);
            },
            None => {},
        }
        i = i + 1;
    }
    assert(items@.subrange(0, items@.len() as int) =~= items@);
    r
}

/// The component schemas of a document, when it has them.
fn extract_components(root: &Json) -> (r: Option<&Vec<(String, Json)>>)
    ensures
        match r {
            Some(f) => components_of(*root) == f@,
            None => components_of(*root) == Seq::<(String, Json)>::empty(),
        },
{
    match get(root, "components") {
        Some(c) => match get(c, "schemas") {
            Some(Json::Object(f)) => Some(f),
            _ => None,
        },
        None => None,
    }
}

/// The model of optional component schemas.
pub open spec fn comps_view(c: Option<&Vec<(String, Json)>>) -> Seq<(String, Json)> {
    match c {
        Some(f) => f@,
        None => Seq::<(String, Json)>::empty(),
    }
}

/// A copy of a schema with one level of `$ref` resolved.
pub fn resolve_ref_shallow(schema: &Json, components: Option<&Vec<(String, Json)>>) -> (r: Json)
    ensures
        r@ == ref_target(*schema, comps_view(components))@,
{
    if let Some(ref_str) = as_str_opt(get(schema, "$ref")) {
        let rs = chars_of(ref_str.as_str());
        let prefix = chars_of("#/components/schemas/");
        if crate::text::starts_with_chars(rs.as_slice(), prefix.as_slice()) {
            let mut name: Vec<char> = Vec::new();
            let mut i: usize = prefix.len();
            while i < rs.len()
                invariant
                    prefix@.len() <= i <= rs@.len(),
                    name@ =~= rs@.subrange(prefix@.len() as int, i as int),
                decreases rs@.len() - i,
            {
                name.push(rs[i]);
                i = i + 1;
            }
            if let Some(comps) = components {
                let n = string_from(name.as_slice());
                if let Some(c) = object_get(comps, n.as_str()) {
                    return deep_clone(c);
                }
            }
        }
    }
    deep_clone(schema)
}

/// The schema of a media-type object, resolved.
fn media_schema_of(info: &Json, components: Option<&Vec<(String, Json)>>) -> (r: Option<Json>)
    ensures
        view_opt2(r) == view_opt2(media_schema(*info, comps_view(components))),
{
    match get(info, "schema") {
        Some(s) => Some(resolve_ref_shallow(s, components)),
        None => None,
    }
}

/// Request body facts of an operation.
pub fn parse_request_body(detail: &Json, components: Option<&Vec<(String, Json)>>) -> (r: (
    bool,
    Option<Json>,
    Option<String>,
))
    ensures
        ({
            let b = request_body_spec(*detail, comps_view(components));
            r.0 == b.0 && view_opt2(r.1) == view_opt2(b.1) && opt_string(r.2) == b.2
        }),
{
    let rb = match get(detail, "requestBody") {
        Some(rb) => rb,
        None => return (false, None, None),
    };
    match get(rb, "content") {
        Some(Json::Object(cm)) => {
            if cm.len() > 0 {
                let schema = media_schema_of(&cm[0].1, components);
                (true, schema, Some(cm[0].0.clone()))
            } else {
                (true, None, None)
            }
        },
        _ => (true, None, None),
    }
}

/// The success response schema of an operation.
pub fn parse_response_schema(detail: &Json, components: Option<&Vec<(String, Json)>>) -> (r:
    Option<Json>)
    ensures
        view_opt2(r) == view_opt2(response_schema_spec(*detail, comps_view(components))),
{
    let rs = match get(detail, "responses") {
        Some(Json::Object(rs)) => rs,
        _ => return None,
    };
    let resp = match object_get(rs, "200") {
        Some(x) => x,
        None => match object_get(rs, "201") {
            Some(x) => x,
            None => match object_get(rs, "2XX") {
                Some(x) => x,
                None => return None,
            },
        },
    };
    match get(resp, "content") {
        Some(Json::Object(c)) => {
            if c.len() > 0 {
                media_schema_of(&c[0].1, components)
            } else {
                None
            }
        },
        _ => None,
    }
}

/// The lower-cased tags joined by spaces.
fn join_lowered(tags: &Vec<String>) -> (r: Vec<char>)
    ensures
        r@ == join_spaced(lowered(strings_view(tags@))),
{
    let mut r: Vec<char> = Vec::new();
    let mut i: usize = 0;
    assert(lowered(strings_view(tags@.subrange(0, 0))) =~= Seq::<Seq<char>>::empty());
    while i < tags.len()
        invariant
            0 <= i <= tags@.len(),
            r@ == join_spaced(lowered(strings_view(tags@.subrange(0, i as int)))),
        decreases tags@.len() - i,
    {
        let ghost pre = lowered(strings_view(tags@.subrange(0, i as int)));
        let ghost next = lowered(strings_view(tags@.subrange(0, i + 1)));
        assert(next.drop_last() =~= pre);
        assert(next.last() == unicode_lowercase(tags@[i as int]@));
        let l = to_lowercase(tags[i].as_str());
        if i > 0 {
            push_str(&mut r, " ");
        }
        push_str(&mut r, l.as_str());
        proof {
            if i == 0 {
                assert(next.len() == 1);
                assert(r@ =~= next[0]);
            }
        }
        i = i + 1;
    }
    assert(tags@.subrange(0, tags@.len() as int) =~= tags@);
    r
}

/// Reads one operation into a catalogue endpoint.
pub fn parse_endpoint(
    operation_id: &str,
    method: HttpMethod,
    path: &str,
    detail: &Json,
    components: Option<&Vec<(String, Json)>>,
) -> (r: ParsedEndpoint)
    ensures
        endpoint_from((operation_id@, method, path@, *detail), comps_view(components), r),
{
    let summary = str_or_default(get(detail, "summary"), "");
    let description = str_or_default(get(detail, "description"), "");
    let tags = match get(detail, "tags") {
        Some(Json::Array(items)) => strings_of(items),
        _ => {
            let v: Vec<String> = Vec::new();
            assert(strings_view(v@) =~= Seq::<Seq<char>>::empty());
            v
        },
    };
    let parameters = parse_parameters(detail);
    let (has_request_body, request_body_schema, request_body_content_type) = parse_request_body(
        detail,
        components,
    );
    let response_schema = parse_response_schema(detail, components);
    let mut text = chars_of(to_lowercase(operation_id).as_str());
    push_str(&mut text, " ");
    push_str(&mut text, to_lowercase(path).as_str());
    push_str(&mut text, " ");
    push_str(&mut text, to_lowercase(summary.as_str()).as_str());
    push_str(&mut text, " ");
    push_str(&mut text, to_lowercase(description.as_str()).as_str());
    push_str(&mut text, " ");
    let joined = join_lowered(&tags);
    push_all(&mut text, joined.as_slice());
    let search_text = string_from(text.as_slice());
    ParsedEndpoint {
        operation_id: operation_id.to_owned(),
        method,
        path: path.to_owned(),
        summary,
        description,
        tags,
        parameters,
        has_request_body,
        request_body_schema,
        request_body_content_type,
        response_schema,
        search_text,
    }
}

// ---------------------------------------------------------------------------
// The catalogue
// ---------------------------------------------------------------------------

/// An operation of the document: ID, method, path and detail object.
pub type Operation = (Seq<char>, HttpMethod, Seq<char>, Json);

/// The operations under one path, in document order.
pub open spec fn method_operations(path: Seq<char>, methods: Seq<(String, Json)>) -> Seq<Operation>
    decreases methods.len(),
{
    if methods.len() == 0 {
        Seq::<Operation>::empty()
    } else {
        let p = method_operations(path, methods.drop_last());
        let m = methods.last();
        match method_named(m.0@) {
            Some(hm) => match str_spec(get_spec(m.1, "operationId"@)) {
                Some(op) => p.push((op, hm, path, m.1)),
                None => p,
            },
            None => p,
        }
    }
}

/// The operations under `paths`, in document order.
pub open spec fn operations(paths: Seq<(String, Json)>) -> Seq<Operation>
    decreases paths.len(),
{
    if paths.len() == 0 {
        Seq::<Operation>::empty()
    } else {
        operations(paths.drop_last()) + match paths.last().1 {
            Json::Object(ms) => method_operations(paths.last().0@, ms@),
            _ => Seq::<Operation>::empty(),
        }
    }
}

/// The `paths` members of a document.
pub open spec fn paths_of(root: Json) -> Seq<(String, Json)> {
    match get_spec(root, "paths"@) {
        Some(Json::Object(p)) => p@,
        _ => Seq::<(String, Json)>::empty(),
    }
}

/// The operation IDs, in order.
pub open spec fn op_ids(ops: Seq<Operation>) -> Seq<Seq<char>> {
    ops.map_values(|o: Operation| o.0)
}

/// The last operation with ID `id`.
pub open spec fn last_operation(ops: Seq<Operation>, id: Seq<char>) -> Option<Operation>
    decreases ops.len(),
{
    if ops.len() == 0 {
        None
    } else if ops.last().0 == id {
        Some(ops.last())
    } else {
        last_operation(ops.drop_last(), id)
    }
}

/// How many different texts `ids` holds.
pub open spec fn distinct_count(ids: Seq<Seq<char>>) -> nat
    decreases ids.len(),
{
    if ids.len() == 0 {
        0
    } else if ids.drop_last().contains(ids.last()) {
        distinct_count(ids.drop_last())
    } else {
        distinct_count(ids.drop_last()) + 1
    }
}

/// The server URL used when the document names none.
pub open spec fn default_server_url() -> Seq<char> {
    "https://cad.onshape.com/api/v6"@
}

/// The first server object (JSON pointer `/servers/0`).
pub open spec fn first_server(root: Json) -> Option<Json> {
    match get_spec(root, "servers"@) {
        Some(Json::Array(items)) => if items@.len() > 0 {
            Some(items@[0])
        } else {
            None
        },
        Some(Json::Object(f)) => member(f@, "0"@),
        _ => None,
    }
}

/// The server URL of a document: the `url` of its first server, if it is
/// a string, else the default.
pub open spec fn server_url_spec(root: Json) -> Seq<char> {
    match first_server(root) {
        Some(sv) => str_or(get_spec(sv, "url"@), default_server_url()),
        None => default_server_url(),
    }
}

/// The first endpoint with ID `id`.
pub open spec fn find_endpoint(eps: Seq<ParsedEndpoint>, id: Seq<char>) -> Option<ParsedEndpoint>
    decreases eps.len(),
{
    if eps.len() == 0 {
        None
    } else if eps[0].operation_id@ == id {
        Some(eps[0])
    } else {
        find_endpoint(eps.drop_first(), id)
    }
}

/// Text found inside a part is found inside the whole.
proof fn lemma_substring_of_part(a: Seq<char>, b: Seq<char>, c: Seq<char>, q: Seq<char>)
    requires
        has_substring(b, q),
    ensures
        has_substring(a + b + c, q),
{
    let i = choose|i: int| occurs_at(b, q, i);
    let w = a + b + c;
    assert(w.subrange(a.len() + i, a.len() + i + q.len()) =~= b.subrange(i, i + q.len()));
    assert(occurs_at(w, q, a.len() + i));
}

/// An endpoint found under an ID carries that ID.
proof fn lemma_find_endpoint_id(eps: Seq<ParsedEndpoint>, id: Seq<char>)
    ensures
        find_endpoint(eps, id) matches Some(e) ==> e.operation_id@ == id,
    decreases eps.len(),
{
    if eps.len() > 0 && eps[0].operation_id@ != id {
        lemma_find_endpoint_id(eps.drop_first(), id);
    }
}

/// A parsed and indexed OpenAPI document.
#[derive(Debug, PartialEq)]
pub struct OpenApiSpec {
    server_url: String,
    endpoints: Vec<ParsedEndpoint>,
    operation_ids: Vec<String>,
}

impl OpenApiSpec {
    /// The base server URL.
    pub closed spec fn server_url_view(&self) -> Seq<char> {
        self.server_url@
    }

    /// The operation IDs in document order, repeats included.
    pub closed spec fn ids(&self) -> Seq<Seq<char>> {
        strings_view(self.operation_ids@)
    }

    /// The endpoint with ID `id`.
    pub closed spec fn lookup(&self, id: Seq<char>) -> Option<ParsedEndpoint> {
        find_endpoint(self.endpoints@, id)
    }

    /// The endpoint the catalogue holds under an operation ID carries that
    /// ID, so what `explain` and `build_request` work from is the endpoint
    /// asked for.
    pub proof fn lemma_lookup_carries_id(&self, id: Seq<char>)
        ensures
            self.lookup(id) matches Some(e) ==> e.operation_id@ == id,
    {
        lemma_find_endpoint_id(self.endpoints@, id);
    }

    /// The number of endpoints.
    pub closed spec fn count(&self) -> nat {
        self.endpoints@.len()
    }

    /// Whether this catalogue holds what document `root` describes: its
    /// server URL, every operation ID in order, one endpoint per distinct
    /// ID, read from the last operation with that ID.
    pub open spec fn describes(&self, root: Json) -> bool {
        let ops = operations(paths_of(root));
        let comps = components_of(root);
        &&& self.server_url_view() == server_url_spec(root)
        &&& self.ids() == op_ids(ops)
        &&& self.count() == distinct_count(op_ids(ops))
        &&& forall|id: Seq<char>|
            match last_operation(ops, id) {
                Some(op) => #[trigger] self.lookup(id) matches Some(e) && endpoint_from(op, comps, e),
                None => self.lookup(id) is None,
            }
    }
}

/// What `from_value` yields for a document.
pub open spec fn from_value_outcome(root: Json, r: Result<OpenApiSpec, OpenApiError>) -> bool {
    match get_spec(root, "paths"@) {
        Some(Json::Object(_)) => r matches Ok(s) && s.describes(root),
        _ => r matches Err(OpenApiError::InvalidSpec { reason }) && reason@ == "missing 'paths' object"@,
    }
}

/// Whether each ID of `ops` finds the endpoint read from its last
/// operation, and no other ID finds any.
spec fn lookups_ok(eps: Seq<ParsedEndpoint>, ops: Seq<Operation>, comps: Seq<(String, Json)>) -> bool {
    forall|id: Seq<char>|
        match last_operation(ops, id) {
            Some(op) => #[trigger] find_endpoint(eps, id) matches Some(e) && endpoint_from(op, comps, e),
            None => find_endpoint(eps, id) is None,
        }
}

/// Whether the endpoint IDs are pairwise different.
spec fn distinct_endpoints(eps: Seq<ParsedEndpoint>) -> bool {
    forall|a: int, b: int| 0 <= a < b < eps.len() ==> eps[a].operation_id@ != eps[b].operation_id@
}

/// Whether endpoints `eps` hold what operations `ops` describe.
spec fn store_ok(eps: Seq<ParsedEndpoint>, ops: Seq<Operation>, comps: Seq<(String, Json)>) -> bool {
    &&& distinct_endpoints(eps)
    &&& eps.len() == distinct_count(op_ids(ops))
    &&& lookups_ok(eps, ops, comps)
}

proof fn lemma_find_at(eps: Seq<ParsedEndpoint>, id: Seq<char>, k: int)
    requires
        0 <= k < eps.len(),
        eps[k].operation_id@ == id,
        forall|j: int| 0 <= j < k ==> eps[j].operation_id@ != id,
    ensures
        find_endpoint(eps, id) == Some(eps[k]),
    decreases k,
{
    if k > 0 {
        lemma_find_at(eps.drop_first(), id, k - 1);
    }
}

proof fn lemma_find_none(eps: Seq<ParsedEndpoint>, id: Seq<char>)
    requires
        forall|j: int| 0 <= j < eps.len() ==> eps[j].operation_id@ != id,
    ensures
        find_endpoint(eps, id) is None,
    decreases eps.len(),
{
    if eps.len() > 0 {
        lemma_find_none(eps.drop_first(), id);
    }
}

proof fn lemma_find_some(eps: Seq<ParsedEndpoint>, id: Seq<char>)
    requires
        find_endpoint(eps, id) is Some,
    ensures
        exists|k: int| 0 <= k < eps.len() && eps[k].operation_id@ == id,
    decreases eps.len(),
{
    if eps[0].operation_id@ != id {
        lemma_find_some(eps.drop_first(), id);
        let k = choose|k: int| 0 <= k < eps.len() - 1 && eps.drop_first()[k].operation_id@ == id;
        assert(eps[k + 1].operation_id@ == id);
    }
}

proof fn lemma_last_operation_contains(ops: Seq<Operation>, id: Seq<char>)
    ensures
        last_operation(ops, id) is Some <==> op_ids(ops).contains(id),
    decreases ops.len(),
{
    if ops.len() > 0 {
        lemma_last_operation_contains(ops.drop_last(), id);
        assert(op_ids(ops.drop_last()) =~= op_ids(ops).drop_last());
        if op_ids(ops).contains(id) && ops.last().0 != id {
            let k = choose|k: int| 0 <= k < op_ids(ops).len() && op_ids(ops)[k] == id;
            assert(k != ops.len() - 1);
            assert(op_ids(ops.drop_last())[k] == id);
        }
        if op_ids(ops.drop_last()).contains(id) {
            let k = choose|k: int| 0 <= k < op_ids(ops.drop_last()).len() && op_ids(ops.drop_last())[k] == id;
            assert(op_ids(ops)[k] == id);
        }
        if ops.last().0 == id {
            assert(op_ids(ops)[ops.len() - 1] == id);
        }
    }
}

proof fn lemma_store_step(
    eps: Seq<ParsedEndpoint>,
    ops: Seq<Operation>,
    comps: Seq<(String, Json)>,
    o: Operation,
    e: ParsedEndpoint,
    eps2: Seq<ParsedEndpoint>,
)
    requires
        store_ok(eps, ops, comps),
        endpoint_from(o, comps, e),
        (exists|k: int|
            0 <= k < eps.len() && eps[k].operation_id@ == o.0 && (forall|j: int|
                0 <= j < k ==> eps[j].operation_id@ != o.0) && eps2 == eps.update(k, e))
            || ((forall|j: int| 0 <= j < eps.len() ==> eps[j].operation_id@ != o.0) && eps2
            == eps.push(e)),
    ensures
        store_ok(eps2, ops.push(o), comps),
{
    let ops2 = ops.push(o);
    assert(ops2.drop_last() =~= ops);
    assert(op_ids(ops2).drop_last() =~= op_ids(ops));
    assert(op_ids(ops2).last() == o.0);
    lemma_last_operation_contains(ops, o.0);
    if exists|k: int|
        0 <= k < eps.len() && eps[k].operation_id@ == o.0 && (forall|j: int|
            0 <= j < k ==> eps[j].operation_id@ != o.0) && eps2 == eps.update(k, e) {
        let k = choose|k: int|
            0 <= k < eps.len() && eps[k].operation_id@ == o.0 && (forall|j: int|
                0 <= j < k ==> eps[j].operation_id@ != o.0) && eps2 == eps.update(k, e);
        lemma_find_at(eps, o.0, k);
        assert(op_ids(ops).contains(o.0));
        lemma_update_lookups(eps, ops, comps, o, e, k);
        assert(distinct_endpoints(eps2)) by {
            assert forall|a: int, b: int| 0 <= a < b < eps2.len() implies eps2[a].operation_id@
                != eps2[b].operation_id@ by {
                assert(eps2[a].operation_id@ == eps[a].operation_id@);
                assert(eps2[b].operation_id@ == eps[b].operation_id@);
            }
        }
    } else {
        lemma_find_none(eps, o.0);
        assert(!op_ids(ops).contains(o.0));
        lemma_push_lookups(eps, ops, comps, o, e);
    }
}

proof fn lemma_update_lookups(
    eps: Seq<ParsedEndpoint>,
    ops: Seq<Operation>,
    comps: Seq<(String, Json)>,
    o: Operation,
    e: ParsedEndpoint,
    k: int,
)
    requires
        lookups_ok(eps, ops, comps),
        distinct_endpoints(eps),
        endpoint_from(o, comps, e),
        0 <= k < eps.len(),
        eps[k].operation_id@ == o.0,
    ensures
        lookups_ok(eps.update(k, e), ops.push(o), comps),
{
    let eps2 = eps.update(k, e);
    let ops2 = ops.push(o);
    assert(ops2.drop_last() =~= ops);
    assert forall|id: Seq<char>|
        match last_operation(ops2, id) {
            Some(op) => #[trigger] find_endpoint(eps2, id) matches Some(x) && endpoint_from(op, comps, x),
            None => find_endpoint(eps2, id) is None,
        } by {
        if id == o.0 {
            assert forall|j: int| 0 <= j < k implies eps2[j].operation_id@ != id by {
                assert(eps2[j] == eps[j]);
            }
            lemma_find_at(eps2, id, k);
        } else {
            lemma_find_other(eps, id, k, e);
            assert(find_endpoint(eps, id) == find_endpoint(eps2, id));
        }
    }
}

proof fn lemma_push_lookups(
    eps: Seq<ParsedEndpoint>,
    ops: Seq<Operation>,
    comps: Seq<(String, Json)>,
    o: Operation,
    e: ParsedEndpoint,
)
    requires
        lookups_ok(eps, ops, comps),
        endpoint_from(o, comps, e),
        forall|j: int| 0 <= j < eps.len() ==> eps[j].operation_id@ != o.0,
    ensures
        lookups_ok(eps.push(e), ops.push(o), comps),
{
    let eps2 = eps.push(e);
    let ops2 = ops.push(o);
    assert(ops2.drop_last() =~= ops);
    assert forall|id: Seq<char>|
        match last_operation(ops2, id) {
            Some(op) => #[trigger] find_endpoint(eps2, id) matches Some(x) && endpoint_from(op, comps, x),
            None => find_endpoint(eps2, id) is None,
        } by {
        lemma_find_push(eps, id, e);
        if id == o.0 {
            lemma_find_none(eps, id);
        }
    }
}

proof fn lemma_find_other(eps: Seq<ParsedEndpoint>, id: Seq<char>, k: int, e: ParsedEndpoint)
    requires
        0 <= k < eps.len(),
        eps[k].operation_id@ != id,
        e.operation_id@ != id,
    ensures
        find_endpoint(eps.update(k, e), id) == find_endpoint(eps, id),
    decreases eps.len(),
{
    if eps.len() > 0 {
        if k == 0 {
            assert(eps.update(k, e).drop_first() =~= eps.drop_first());
        } else {
            assert(eps.update(k, e).drop_first() =~= eps.drop_first().update(k - 1, e));
            if eps[0].operation_id@ != id {
                lemma_find_other(eps.drop_first(), id, k - 1, e);
            }
        }
    }
}

proof fn lemma_find_push(eps: Seq<ParsedEndpoint>, id: Seq<char>, e: ParsedEndpoint)
    ensures
        find_endpoint(eps.push(e), id) == match find_endpoint(eps, id) {
            Some(x) => Some(x),
            None => if e.operation_id@ == id {
                Some(e)
            } else {
                None
            },
        },
    decreases eps.len(),
{
    let p = eps.push(e);
    if eps.len() > 0 {
        assert(p.drop_first() =~= eps.drop_first().push(e));
        assert(p[0] == eps[0]);
        lemma_find_push(eps.drop_first(), id, e);
        if eps[0].operation_id@ == id {
            assert(find_endpoint(p, id) == Some(eps[0]));
        } else {
            assert(find_endpoint(p, id) == find_endpoint(p.drop_first(), id));
            assert(find_endpoint(eps, id) == find_endpoint(eps.drop_first(), id));
        }
    } else {
        assert(p[0] == e);
        assert(p.drop_first() =~= Seq::<ParsedEndpoint>::empty());
        let z = p.drop_first();
        assert(find_endpoint(z, id) is None);
        assert(find_endpoint(eps, id) is None);
    }
}

/// The position of the endpoint with ID `id`.
fn find_endpoint_index(eps: &Vec<ParsedEndpoint>, id: &str) -> (r: Option<usize>)
    ensures
        match r {
            Some(k) => k < eps@.len() && eps@[k as int].operation_id@ == id@ && forall|j: int|
                0 <= j < k ==> eps@[j].operation_id@ != id@,
            None => forall|j: int| 0 <= j < eps@.len() ==> eps@[j].operation_id@ != id@,
        },
{
    let mut i: usize = 0;
    while i < eps.len()
        invariant
            0 <= i <= eps@.len(),
            forall|j: int| 0 <= j < i ==> eps@[j].operation_id@ != id@,
        decreases eps@.len() - i,
    {
        if str_eq(eps[i].operation_id.as_str(), id) {
            return Some(i);
        }
        i = i + 1;
    }
    None
}

impl OpenApiSpec {
    /// Reads a catalogue from the outcome of parsing a document's text: a
    /// parse failure gives `ParseError` with the parser's message, a parsed
    /// document is read as [`OpenApiSpec::from_value`] reads it.
    pub fn from_parsed(parsed: Result<Json, String>) -> (r: Result<OpenApiSpec, OpenApiError>)
        ensures
            match parsed {
                Err(m) => r matches Err(OpenApiError::ParseError(x)) && x == m,
                Ok(root) => from_value_outcome(root, r),
            },
    {
        match parsed {
            Err(m) => Err(OpenApiError::ParseError(m)),
            Ok(root) => OpenApiSpec::from_value(&root),
        }
    }
}

impl OpenApiSpec {
    /// Reads a catalogue from an OpenAPI document. The document must have a
    /// `paths` object.
    pub fn from_value(root: &Json) -> (r: Result<OpenApiSpec, OpenApiError>)
        ensures
            from_value_outcome(*root, r),
    {
        let server_url = {
            let first = match get(root, "servers") {
                Some(Json::Array(items)) => if items.len() > 0 {
                    Some(&items[0])
                } else {
                    None
                },
                Some(Json::Object(f)) => object_get(f, "0"),
                _ => None,
            };
            match first {
                Some(sv) => str_or_default(get(sv, "url"), "https://cad.onshape.com/api/v6"),
                None => "https://cad.onshape.com/api/v6".to_owned(),
            }
        };
        let components = extract_components(root);
        let paths = match get(root, "paths") {
            Some(Json::Object(p)) => p,
            _ => {
                return Err(OpenApiError::InvalidSpec { reason: "missing 'paths' object".to_owned() });
            },
        };
        let ghost comps = comps_view(components);
        let mut endpoints: Vec<ParsedEndpoint> = Vec::new();
        let mut operation_ids: Vec<String> = Vec::new();
        let mut i: usize = 0;
        proof {
            assert(paths@.subrange(0, 0) =~= Seq::<(String, Json)>::empty());
            assert(strings_view(operation_ids@) =~= op_ids(Seq::<Operation>::empty()));
        }
        while i < paths.len()
            invariant
                0 <= i <= paths@.len(),
                comps == comps_view(components),
                comps == components_of(*root),
                strings_view(operation_ids@) == op_ids(operations(paths@.subrange(0, i as int))),
                store_ok(endpoints@, operations(paths@.subrange(0, i as int)), comps),
            decreases paths@.len() - i,
        {
            let ghost before = operations(paths@.subrange(0, i as int));
            proof {
                assert(paths@.subrange(0, i + 1).drop_last() =~= paths@.subrange(0, i as int));
            }
            let path = &paths[i].0;
            match &paths[i].1 {
                Json::Object(methods) => {
                    let mut j: usize = 0;
                    proof {
                        assert(methods@.subrange(0, 0) =~= Seq::<(String, Json)>::empty());
                        assert(before + method_operations(path@, methods@.subrange(0, 0)) =~= before);
                    }
                    while j < methods.len()
                        invariant
                            0 <= j <= methods@.len(),
                            comps == comps_view(components),
                            ({
                                let ops = before + method_operations(
                                    path@,
                                    methods@.subrange(0, j as int),
                                );
                                &&& strings_view(operation_ids@) == op_ids(ops)
                                &&& store_ok(endpoints@, ops, comps)
                            }),
                        decreases methods@.len() - j,
                    {
                        let ghost ops = before + method_operations(path@, methods@.subrange(0, j as int));
                        proof {
                            assert(methods@.subrange(0, j + 1).drop_last() =~= methods@.subrange(0, j as int));
                        }
                        let (method_str, detail) = (&methods[j].0, &methods[j].1);
                        if let Some(method) = HttpMethod::from_str(method_str.as_str()) {
                            if let Some(op_id) = as_str_opt(get(detail, "operationId")) {
                                let ghost o: Operation = (op_id@, method, path@, *detail);
                                let endpoint = parse_endpoint(
                                    op_id.as_str(),
                                    method,
                                    path.as_str(),
                                    detail,
                                    components,
                                );
                                proof {
                                    assert(before + method_operations(path@, methods@.subrange(0, j + 1))
                                        =~= ops.push(o));
                                }
                                let ghost ids_before = operation_ids@;
                                operation_ids.push(op_id.clone());
                                proof {
                                    assert(strings_view(operation_ids@) =~= strings_view(ids_before).push(op_id@));
                                    assert(op_ids(ops.push(o)) =~= op_ids(ops).push(op_id@));
                                }
                                let ghost eps_before = endpoints@;
                                match find_endpoint_index(&endpoints, op_id.as_str()) {
                                    Some(k) => {
                                        endpoints.set(k, endpoint);
                                        proof {
                                            lemma_store_step(eps_before, ops, comps, o, endpoints@[k as int], endpoints@);
                                        }
                                    },
                                    None => {
                                        endpoints.push(endpoint);
                                        proof {
                                            lemma_store_step(
                                                eps_before,
                                                ops,
                                                comps,
                                                o,
                                                endpoints@[endpoints@.len() - 1],
                                                endpoints@,
                                            );
                                        }
                                    },
                                }
                            } else {
                                proof {
                                    assert(before + method_operations(path@, methods@.subrange(0, j + 1))
                                        =~= ops);
                                }
                            }
                        } else {
                            proof {
                                assert(before + method_operations(path@, methods@.subrange(0, j + 1))
                                    =~= ops);
                            }
                        }
                        j = j + 1;
                    }
                    proof {
                        assert(methods@.subrange(0, methods@.len() as int) =~= methods@);
                        assert(operations(paths@.subrange(0, i + 1)) =~= before + method_operations(
                            path@,
                            methods@,
                        ));
                    }
                },
                _ => {
                    proof {
                        assert(operations(paths@.subrange(0, i + 1)) =~= before);
                    }
                },
            }
            i = i + 1;
        }
        proof {
            assert(paths@.subrange(0, paths@.len() as int) =~= paths@);
        }
        let s = OpenApiSpec { server_url, endpoints, operation_ids };
        Ok(s)
    }

    /// The base server URL.
    pub fn server_url(&self) -> (r: &str)
        ensures
            r@ == self.server_url_view(),
    {
        self.server_url.as_str()
    }

    /// The number of endpoints.
    pub fn endpoint_count(&self) -> (r: usize)
        ensures
            r == self.count(),
    {
        self.endpoints.len()
    }

    /// The endpoint with ID `id`.
    pub fn find(&self, id: &str) -> (r: Option<&ParsedEndpoint>)
        ensures
            match r {
                Some(e) => self.lookup(id@) == Some(*e),
                None => self.lookup(id@) is None,
            },
    {
        match find_endpoint_index(&self.endpoints, id) {
            Some(k) => {
                proof {
                    lemma_find_at(self.endpoints@, id@, k as int);
                }
                Some(&self.endpoints[k])
            },
            None => {
                proof {
                    lemma_find_none(self.endpoints@, id@);
                }
                None
            },
        }
    }
}

// ---------------------------------------------------------------------------
// Search
// ---------------------------------------------------------------------------

/// Whether an endpoint passes the search filters: the method filter, a tag
/// equal to the tag filter once lower-cased, and the lower-cased query
/// occurring in its search text (an empty query matches everything).
pub open spec fn matches_filters(
    e: ParsedEndpoint,
    q: Seq<char>,
    mf: Option<HttpMethod>,
    tf: Option<Seq<char>>,
) -> bool {
    &&& (mf matches Some(m) ==> e.method == m)
    &&& (tf matches Some(t) ==> exists|k: int|
        0 <= k < e.tags@.len() && unicode_lowercase(#[trigger] e.tags@[k]@) == t)
    &&& (q.len() == 0 || has_substring(e.search_text@, q))
}

/// The method filter of a search: the method named, if any.
pub open spec fn method_filter(filters: SearchFilters) -> Option<HttpMethod> {
    match filters.method {
        Some(m) => method_named(m@),
        None => None,
    }
}

/// The tag filter of a search, lower-cased.
pub open spec fn tag_filter(filters: SearchFilters) -> Option<Seq<char>> {
    match filters.tag {
        Some(t) => Some(unicode_lowercase(t@)),
        None => None,
    }
}

/// Whether `r` summarizes endpoint `e`: its summary as description, or
/// when that is empty its description cut to 120 bytes.
pub open spec fn summary_from(e: ParsedEndpoint, r: EndpointSummary) -> bool {
    &&& r.operation_id@ == e.operation_id@
    &&& r.method == e.method
    &&& r.path@ == e.path@
    &&& r.description@ == if e.summary@.len() == 0 {
        truncated(e.description@, 120)
    } else {
        e.summary@
    }
    &&& strings_view(r.tags@) == strings_view(e.tags@)
}

/// Whether a search can summarize endpoint `e`: it has a summary, or its
/// description can be cut at 120 bytes.
pub open spec fn endpoint_summarizable(e: ParsedEndpoint) -> bool {
    e.summary@.len() == 0 ==> truncation_ok(e.description@, 120)
}

proof fn lemma_found_endpoint_listed(eps: Seq<ParsedEndpoint>, id: Seq<char>)
    ensures
        find_endpoint(eps, id) matches Some(e) ==> exists|k: int| 0 <= k < eps.len() && eps[k] == e,
    decreases eps.len(),
{
    if eps.len() > 0 && eps[0].operation_id@ != id {
        lemma_found_endpoint_listed(eps.drop_first(), id);
        if let Some(e) = find_endpoint(eps.drop_first(), id) {
            let k = choose|k: int| 0 <= k < eps.drop_first().len() && eps.drop_first()[k] == e;
            assert(eps[k + 1] == e);
        }
    } else if eps.len() > 0 {
        assert(eps[0] == eps[0]);
    }
}

/// Whether every endpoint in `hits` that is summarized by its description
/// can be cut at 120 bytes.
pub open spec fn summaries_ok(hits: Seq<ParsedEndpoint>) -> bool {
    forall|i: int| 0 <= i < hits.len() ==> endpoint_summarizable(#[trigger] hits[i])
}

impl OpenApiSpec {
    /// The endpoints of `ids` that pass the filters, in order.
    pub open spec fn hits(
        &self,
        ids: Seq<Seq<char>>,
        q: Seq<char>,
        mf: Option<HttpMethod>,
        tf: Option<Seq<char>>,
    ) -> Seq<ParsedEndpoint>
        decreases ids.len(),
    {
        if ids.len() == 0 {
            Seq::<ParsedEndpoint>::empty()
        } else {
            let p = self.hits(ids.drop_last(), q, mf, tf);
            match self.lookup(ids.last()) {
                Some(e) => if matches_filters(e, q, mf, tf) {
                    p.push(e)
                } else {
                    p
                },
                None => p,
            }
        }
    }

    /// The endpoints a search finds, in document order of their IDs.
    pub open spec fn search_hits(&self, query: Seq<char>, filters: SearchFilters) -> Seq<
        ParsedEndpoint,
    > {
        self.hits(self.ids(), unicode_lowercase(query), method_filter(filters), tag_filter(filters))
    }

    /// Whether an endpoint passes the tag filter.
    fn has_tag(e: &ParsedEndpoint, tf: &String) -> (r: bool)
        ensures
            r == exists|k: int|
                0 <= k < e.tags@.len() && unicode_lowercase(#[trigger] e.tags@[k]@) == tf@,
    {
        let mut i: usize = 0;
        while i < e.tags.len()
            invariant
                0 <= i <= e.tags@.len(),
                forall|k: int| 0 <= k < i ==> unicode_lowercase(#[trigger] e.tags@[k]@) != tf@,
            decreases e.tags@.len() - i,
        {
            let l = to_lowercase(e.tags[i].as_str());
            if str_eq(l.as_str(), tf.as_str()) {
                return true;
            }
            i = i + 1;
        }
        false
    }

    /// Whether every endpoint of the catalogue can be summarized: each one
    /// without a summary has a description of at most 120 bytes, or one that
    /// can be cut at 117 bytes.
    pub closed spec fn all_summarizable(&self) -> bool {
        forall|k: int| 0 <= k < self.endpoints@.len() ==> endpoint_summarizable(#[trigger] self.endpoints@[k])
    }

    /// Whether every endpoint that a search would summarize by its
    /// description can be summarized: each endpoint without a summary has a
    /// description of at most 120 bytes, or one that can be cut at 117 bytes.
    pub fn search_ready(&self) -> (r: bool)
        ensures
            r == self.all_summarizable(),
            r ==> forall|q: Seq<char>, f: SearchFilters| #[trigger] summaries_ok(self.search_hits(q, f)),
    {
        let mut i: usize = 0;
        while i < self.endpoints.len()
            invariant
                0 <= i <= self.endpoints@.len(),
                forall|k: int| 0 <= k < i ==> endpoint_summarizable(#[trigger] self.endpoints@[k]),
            decreases self.endpoints@.len() - i,
        {
            let e = &self.endpoints[i];
            assert(*e == self.endpoints@[i as int]);
            if e.summary.as_str().is_empty() {
                let d = e.description.as_str();
                if !(d.as_bytes().len() <= 120 || d.is_char_boundary(117)) {
                    assert(d.spec_bytes() == encode_utf8(e.description@));
                    assert(!endpoint_summarizable(self.endpoints@[i as int]));
                    return false;
                }
                assert(d.spec_bytes() == encode_utf8(e.description@));
            }
            assert(endpoint_summarizable(self.endpoints@[i as int]));
            i = i + 1;
        }
        proof {
            assert forall|q: Seq<char>, f: SearchFilters| #[trigger] summaries_ok(self.search_hits(q, f)) by {
                self.lemma_hits_summarizable(self.ids(), unicode_lowercase(q), method_filter(f), tag_filter(f));
            }
        }
        true
    }

    proof fn lemma_hits_summarizable(
        &self,
        ids: Seq<Seq<char>>,
        q: Seq<char>,
        mf: Option<HttpMethod>,
        tf: Option<Seq<char>>,
    )
        requires
            forall|k: int| 0 <= k < self.endpoints@.len() ==> endpoint_summarizable(#[trigger] self.endpoints@[k]),
        ensures
            summaries_ok(self.hits(ids, q, mf, tf)),
        decreases ids.len(),
    {
        if ids.len() > 0 {
            self.lemma_hits_summarizable(ids.drop_last(), q, mf, tf);
            let p = self.hits(ids.drop_last(), q, mf, tf);
            match self.lookup(ids.last()) {
                Some(e) => {
                    lemma_found_endpoint_listed(self.endpoints@, ids.last());
                    if matches_filters(e, q, mf, tf) {
                        let h = p.push(e);
                        assert forall|i: int| 0 <= i < h.len() implies endpoint_summarizable(
                            #[trigger] h[i],
                        ) by {
                            if i < p.len() {
                                assert(h[i] == p[i]);
                            }
                        }
                    }
                },
                None => {},
            }
        }
    }

    proof fn lemma_hits_exact(
        &self,
        ids: Seq<Seq<char>>,
        q: Seq<char>,
        mf: Option<HttpMethod>,
        tf: Option<Seq<char>>,
    )
        ensures
            forall|i: int| #![trigger self.hits(ids, q, mf, tf)[i]]
                0 <= i < self.hits(ids, q, mf, tf).len() ==> {
                    &&& matches_filters(self.hits(ids, q, mf, tf)[i], q, mf, tf)
                    &&& exists|k: int|
                        0 <= k < ids.len() && #[trigger] self.lookup(ids[k]) == Some(
                            self.hits(ids, q, mf, tf)[i],
                        )
                },
            forall|k: int|
                0 <= k < ids.len() && (#[trigger] self.lookup(ids[k])) is Some && matches_filters(
                    self.lookup(ids[k])->0,
                    q,
                    mf,
                    tf,
                ) ==> self.hits(ids, q, mf, tf).contains(self.lookup(ids[k])->0),
        decreases ids.len(),
    {
        if ids.len() > 0 {
            let pre = ids.drop_last();
            self.lemma_hits_exact(pre, q, mf, tf);
            let p = self.hits(pre, q, mf, tf);
            let h = self.hits(ids, q, mf, tf);
            assert forall|i: int| #![trigger h[i]] 0 <= i < h.len() implies {
                &&& matches_filters(h[i], q, mf, tf)
                &&& exists|k: int| 0 <= k < ids.len() && #[trigger] self.lookup(ids[k]) == Some(h[i])
            } by {
                if i < p.len() {
                    assert(h[i] == p[i]);
                    let k = choose|k: int| 0 <= k < pre.len() && #[trigger] self.lookup(pre[k]) == Some(p[i]);
                    assert(ids[k] == pre[k]);
                } else {
                    assert(self.lookup(ids[ids.len() - 1]) == Some(h[i]));
                }
            }
            assert forall|k: int|
                0 <= k < ids.len() && (#[trigger] self.lookup(ids[k])) is Some && matches_filters(
                    self.lookup(ids[k])->0,
                    q,
                    mf,
                    tf,
                ) implies h.contains(self.lookup(ids[k])->0) by {
                let e = self.lookup(ids[k])->0;
                if k < pre.len() {
                    assert(pre[k] == ids[k]);
                    assert(p.contains(e));
                    let j = choose|j: int| 0 <= j < p.len() && p[j] == e;
                    assert(h[j] == e);
                } else {
                    assert(h[h.len() - 1] == e);
                }
            }
        }
    }

    /// A search finds exactly the catalogue's endpoints that match: every
    /// endpoint found is in the catalogue, contains the lower-cased query in
    /// its search text (any endpoint, for an empty query) and passes the
    /// method and tag filters; and every catalogue endpoint that does so is
    /// found.
    pub proof fn lemma_search_finds_exactly_matches(&self, query: Seq<char>, filters: SearchFilters)
        ensures
            forall|i: int| #![trigger self.search_hits(query, filters)[i]]
                0 <= i < self.search_hits(query, filters).len() ==> {
                    &&& matches_filters(
                        self.search_hits(query, filters)[i],
                        unicode_lowercase(query),
                        method_filter(filters),
                        tag_filter(filters),
                    )
                    &&& exists|k: int|
                        0 <= k < self.ids().len() && #[trigger] self.lookup(self.ids()[k]) == Some(
                            self.search_hits(query, filters)[i],
                        )
                },
            forall|k: int|
                0 <= k < self.ids().len() && (#[trigger] self.lookup(self.ids()[k])) is Some
                    && matches_filters(
                    self.lookup(self.ids()[k])->0,
                    unicode_lowercase(query),
                    method_filter(filters),
                    tag_filter(filters),
                ) ==> self.search_hits(query, filters).contains(self.lookup(self.ids()[k])->0),
    {
        self.lemma_hits_exact(self.ids(), unicode_lowercase(query), method_filter(filters), tag_filter(filters));
    }

    /// A query that occurs, ignoring case, in an endpoint's description finds
    /// that endpoint: in a catalogue read from a document, an endpoint that
    /// passes the method and tag filters and whose lower-cased description
    /// contains the lower-cased query is among the search results.
    pub proof fn lemma_search_finds_description_match(
        &self,
        root: Json,
        query: Seq<char>,
        filters: SearchFilters,
        id: Seq<char>,
    )
        requires
            self.describes(root),
            self.lookup(id) is Some,
            method_filter(filters) matches Some(m) ==> self.lookup(id)->0.method == m,
            tag_filter(filters) matches Some(t) ==> exists|k: int|
                0 <= k < self.lookup(id)->0.tags@.len() && unicode_lowercase(
                    #[trigger] self.lookup(id)->0.tags@[k]@,
                ) == t,
            has_substring(unicode_lowercase(self.lookup(id)->0.description@), unicode_lowercase(query)),
        ensures
            self.search_hits(query, filters).contains(self.lookup(id)->0),
    {
        let e = self.lookup(id)->0;
        let ops = operations(paths_of(root));
        let comps = components_of(root);
        let op = last_operation(ops, id)->0;
        assert(last_operation(ops, id) is Some) by {
            if last_operation(ops, id) is None {
                assert(self.lookup(id) is None);
            }
        }
        assert(endpoint_from(op, comps, e));
        let summary = str_or(get_spec(op.3, "summary"@), ""@);
        let description = str_or(get_spec(op.3, "description"@), ""@);
        let tags = tags_of(op.3);
        let lq = unicode_lowercase(query);
        let pre = unicode_lowercase(op.0) + " "@ + unicode_lowercase(op.2) + " "@ + unicode_lowercase(summary) + " "@;
        let post = " "@ + join_spaced(lowered(tags));
        lemma_substring_of_part(pre, unicode_lowercase(description), post, lq);
        assert(search_text_spec(op.0, op.2, summary, description, tags) =~= pre + unicode_lowercase(description) + post);
        assert(matches_filters(e, lq, method_filter(filters), tag_filter(filters)));
        lemma_last_operation_contains(ops, id);
        let k = choose|k: int| 0 <= k < op_ids(ops).len() && op_ids(ops)[k] == id;
        assert(self.ids()[k] == id);
        self.lemma_search_finds_exactly_matches(query, filters);
        assert(self.lookup(self.ids()[k]) is Some);
    }

    /// Finds endpoints by query and filters. The query is matched, lower-cased,
    /// against each endpoint's search text; an empty query matches all.
    pub fn search(&self, query: &str, filters: &SearchFilters) -> (r: Vec<EndpointSummary>)
        requires
            summaries_ok(self.search_hits(query@, *filters)),
        ensures
            ({
                let hits = self.search_hits(query@, *filters);
                r@.len() == hits.len() && forall|i: int|
                    0 <= i < hits.len() ==> summary_from(hits[i], #[trigger] r@[i])
            }),
    {
        let q = to_lowercase(query);
        let qc = chars_of(q.as_str());
        let mf = match &filters.method {
            Some(m) => HttpMethod::from_str(m.as_str()),
            None => None,
        };
        let tf = match &filters.tag {
            Some(t) => Some(to_lowercase(t.as_str())),
            None => None,
        };
        let ghost ids = self.ids();
        let ghost tfv: Option<Seq<char>> = opt_string(tf);
        assert(tfv == tag_filter(*filters));
        let mut results: Vec<EndpointSummary> = Vec::new();
        let mut i: usize = 0;
        assert(ids.subrange(0, 0) =~= Seq::<Seq<char>>::empty());
        while i < self.operation_ids.len()
            invariant
                0 <= i <= self.operation_ids@.len(),
                ids == self.ids(),
                ids.len() == self.operation_ids@.len(),
                qc@ == unicode_lowercase(query@),
                mf == method_filter(*filters),
                tfv == tag_filter(*filters),
                tfv == opt_string(tf),
                summaries_ok(self.search_hits(query@, *filters)),
                ({
                    let hits = self.hits(ids.subrange(0, i as int), qc@, mf, tfv);
                    results@.len() == hits.len() && forall|k: int|
                        0 <= k < hits.len() ==> summary_from(hits[k], #[trigger] results@[k])
                }),
            decreases self.operation_ids@.len() - i,
        {
            proof {
                assert(ids.subrange(0, i + 1).drop_last() =~= ids.subrange(0, i as int));
                assert(ids.subrange(0, i + 1).last() == self.operation_ids@[i as int]@);
                lemma_hits_prefix(*self, ids, qc@, mf, tfv, i as int + 1);
                assert(ids.subrange(0, ids.len() as int) =~= ids);
            }
            match self.find(self.operation_ids[i].as_str()) {
                Some(ep) => {
                    let method_ok = match mf {
                        Some(m) => ep.method == m,
                        None => true,
                    };
                    let tag_ok = match &tf {
                        Some(t) => Self::has_tag(ep, t),
                        None => true,
                    };
                    let text = chars_of(ep.search_text.as_str());
                    let query_ok = qc.len() == 0 || contains_chars(text.as_slice(), qc.as_slice());
                    if method_ok && tag_ok && query_ok {
                        let description = if str_is_empty(ep.summary.as_str()) {
                            proof {
                                let hits = self.hits(ids.subrange(0, i + 1), qc@, mf, tfv);
                                assert(hits.last() == *ep);
                                assert(ep.summary@.len() == 0);
                            }
                            truncate_description(ep.description.as_str(), 120)
                        } else {
                            ep.summary.clone()
                        };
                        results.push(
                            EndpointSummary {
                                operation_id: ep.operation_id.clone(),
                                method: ep.method,
                                path: ep.path.clone(),
                                description,
                                tags: clone_strings(&ep.tags),
                            },
                        );
                    }
                },
                None => {},
            }
            i = i + 1;
        }
        proof {
            assert(ids.subrange(0, ids.len() as int) =~= ids);
        }
        results
    }
}

/// The hits of a prefix of the IDs are a prefix of all hits.
proof fn lemma_hits_prefix(
    s: OpenApiSpec,
    ids: Seq<Seq<char>>,
    q: Seq<char>,
    mf: Option<HttpMethod>,
    tf: Option<Seq<char>>,
    n: int,
)
    requires
        0 <= n <= ids.len(),
    ensures
        s.hits(ids.subrange(0, n), q, mf, tf).len() <= s.hits(ids, q, mf, tf).len(),
        forall|k: int|
            0 <= k < s.hits(ids.subrange(0, n), q, mf, tf).len() ==> #[trigger] s.hits(
                ids.subrange(0, n),
                q,
                mf,
                tf,
            )[k] == s.hits(ids, q, mf, tf)[k],
    decreases ids.len() - n,
{
    if n < ids.len() {
        lemma_hits_prefix(s, ids, q, mf, tf, n + 1);
        assert(ids.subrange(0, n + 1).drop_last() =~= ids.subrange(0, n));
        let a = s.hits(ids.subrange(0, n), q, mf, tf);
        let b = s.hits(ids.subrange(0, n + 1), q, mf, tf);
        assert(b == a || b == a.push(b.last()));
        assert forall|k: int| 0 <= k < a.len() implies #[trigger] a[k] == s.hits(ids, q, mf, tf)[k] by {
            assert(a[k] == b[k]);
        }
    } else {
        assert(ids.subrange(0, n) =~= ids);
    }
}

// ---------------------------------------------------------------------------
// Explain
// ---------------------------------------------------------------------------

/// An endpoint without a description is explained by its summary: the
/// explanation's description is the endpoint's description when there is
/// one and its summary otherwise, so it is empty only when both are.
pub proof fn lemma_explain_description_falls_back(e: ParsedEndpoint, d: EndpointDetail)
    requires
        detail_from(e, d),
    ensures
        e.description@.len() == 0 ==> d.description@ == e.summary@,
        e.description@.len() > 0 ==> d.description@ == e.description@,
        d.description@.len() == 0 <==> (e.description@.len() == 0 && e.summary@.len() == 0),
{
}

/// Whether `d` describes parameter `p`.
pub open spec fn param_detail_from(p: ParsedParameter, d: ParameterDetail) -> bool {
    &&& d.name@ == p.name@
    &&& d.location == p.location
    &&& d.required == p.required
    &&& d.param_type@ == p.param_type@
    &&& d.description@ == p.description@
    &&& view_opt2(d.default) == view_opt2(p.default)
    &&& match p.enum_values {
        Some(v) => d.enum_values matches Some(w) && same_items(w@, v@),
        None => d.enum_values is None,
    }
}

/// Whether `d` describes endpoint `e`: its description, or when that is
/// empty its summary; everything else as kept.
pub open spec fn detail_from(e: ParsedEndpoint, d: EndpointDetail) -> bool {
    &&& d.operation_id@ == e.operation_id@
    &&& d.method == e.method
    &&& d.path@ == e.path@
    &&& d.description@ == if e.description@.len() == 0 {
        e.summary@
    } else {
        e.description@
    }
    &&& strings_view(d.tags@) == strings_view(e.tags@)
    &&& d.parameters@.len() == e.parameters@.len()
    &&& forall|i: int|
        0 <= i < e.parameters@.len() ==> param_detail_from(
            e.parameters@[i],
            #[trigger] d.parameters@[i],
        )
    &&& d.has_request_body == e.has_request_body
    &&& view_opt2(d.request_body_schema) == view_opt2(e.request_body_schema)
    &&& opt_string(d.request_body_content_type) == opt_string(e.request_body_content_type)
    &&& view_opt2(d.response_schema) == view_opt2(e.response_schema)
}

/// Copies an optional string.
fn clone_opt_string(v: &Option<String>) -> (r: Option<String>)
    ensures
        opt_string(r) == opt_string(*v),
{
    match v {
        Some(s) => Some(s.clone()),
        None => None,
    }
}

/// Copies an optional JSON value.
fn clone_opt_json(v: &Option<Json>) -> (r: Option<Json>)
    ensures
        view_opt2(r) == view_opt2(*v),
{
    match v {
        Some(x) => Some(deep_clone(x)),
        None => None,
    }
}

impl OpenApiSpec {
    /// Full detail of the endpoint with ID `endpoint_id`.
    pub fn explain(&self, endpoint_id: &str) -> (r: Result<EndpointDetail, OpenApiError>)
        ensures
            match self.lookup(endpoint_id@) {
                Some(e) => r matches Ok(d) && detail_from(e, d),
                None => r matches Err(OpenApiError::EndpointNotFound { endpoint_id: x }) && x@
                    == endpoint_id@,
            },
    {
        let ep = match self.find(endpoint_id) {
            Some(ep) => ep,
            None => {
                return Err(OpenApiError::EndpointNotFound { endpoint_id: endpoint_id.to_owned() });
            },
        };
        let mut parameters: Vec<ParameterDetail> = Vec::new();
        let mut i: usize = 0;
        while i < ep.parameters.len()
            invariant
                0 <= i <= ep.parameters@.len(),
                parameters@.len() == i,
                forall|k: int|
                    0 <= k < i ==> param_detail_from(ep.parameters@[k], #[trigger] parameters@[k]),
            decreases ep.parameters@.len() - i,
        {
            let p = &ep.parameters[i];
            let enum_values = match &p.enum_values {
                Some(v) => Some(clone_items(v)),
                None => None,
            };
            parameters.push(
                ParameterDetail {
                    name: p.name.clone(),
                    location: p.location,
                    required: p.required,
                    param_type: p.param_type.clone(),
                    description: p.description.clone(),
                    default: clone_opt_json(&p.default),
                    enum_values,
                },
            );
            i = i + 1;
        }
        let description = if str_is_empty(ep.description.as_str()) {
            ep.summary.clone()
        } else {
            ep.description.clone()
        };
        Ok(
            EndpointDetail {
                operation_id: ep.operation_id.clone(),
                method: ep.method,
                path: ep.path.clone(),
                description,
                tags: clone_strings(&ep.tags),
                parameters,
                has_request_body: ep.has_request_body,
                request_body_schema: clone_opt_json(&ep.request_body_schema),
                request_body_content_type: clone_opt_string(&ep.request_body_content_type),
                response_schema: clone_opt_json(&ep.response_schema),
            },
        )
    }
}

// ---------------------------------------------------------------------------
// Request construction
// ---------------------------------------------------------------------------

/// The value of the first pair named `name`.
pub open spec fn pair_value(pairs: Seq<(Seq<char>, Seq<char>)>, name: Seq<char>) -> Option<Seq<char>>
    decreases pairs.len(),
{
    if pairs.len() == 0 {
        None
    } else if pairs[0].0 == name {
        Some(pairs[0].1)
    } else {
        pair_value(pairs.drop_first(), name)
    }
}

/// The first required parameter at `loc` that `pairs` does not supply.
pub open spec fn missing_required(
    params: Seq<ParsedParameter>,
    loc: ParameterLocation,
    pairs: Seq<(Seq<char>, Seq<char>)>,
) -> Option<Seq<char>>
    decreases params.len(),
{
    if params.len() == 0 {
        None
    } else if params[0].location == loc && params[0].required && pair_value(pairs, params[0].name@) is None {
        Some(params[0].name@)
    } else {
        missing_required(params.drop_first(), loc, pairs)
    }
}

/// The placeholder of a path parameter: its name in braces.
pub open spec fn placeholder(name: Seq<char>) -> Seq<char> {
    "{"@ + name + "}"@
}

/// The path with the values of the required path parameters substituted,
/// parameter by parameter.
pub open spec fn substitute_required(
    path: Seq<char>,
    params: Seq<ParsedParameter>,
    pairs: Seq<(Seq<char>, Seq<char>)>,
) -> Seq<char>
    decreases params.len(),
{
    if params.len() == 0 {
        path
    } else {
        let acc = substitute_required(path, params.drop_last(), pairs);
        let p = params.last();
        if p.location == ParameterLocation::Path && p.required {
            match pair_value(pairs, p.name@) {
                Some(v) => replace_all(acc, placeholder(p.name@), v),
                None => acc,
            }
        } else {
            acc
        }
    }
}

/// The path with every supplied pair substituted, pair by pair.
pub open spec fn substitute_pairs(path: Seq<char>, pairs: Seq<(Seq<char>, Seq<char>)>) -> Seq<char>
    decreases pairs.len(),
{
    if pairs.len() == 0 {
        path
    } else {
        replace_all(
            substitute_pairs(path, pairs.drop_last()),
            placeholder(pairs.last().0),
            pairs.last().1,
        )
    }
}

/// The value supplied for `name`.
fn find_pair<'a>(pairs: &'a Vec<(String, String)>, name: &str) -> (r: Option<&'a String>)
    ensures
        match r {
            Some(v) => pair_value(pairs_view(pairs@), name@) == Some(v@),
            None => pair_value(pairs_view(pairs@), name@) is None,
        },
{
    let mut i: usize = 0;
    assert(pairs@.subrange(0, pairs@.len() as int) =~= pairs@);
    while i < pairs.len()
        invariant
            0 <= i <= pairs@.len(),
            pair_value(pairs_view(pairs@), name@) == pair_value(
                pairs_view(pairs@.subrange(i as int, pairs@.len() as int)),
                name@,
            ),
        decreases pairs@.len() - i,
    {
        let ghost rest = pairs_view(pairs@.subrange(i as int, pairs@.len() as int));
        assert(rest.drop_first() =~= pairs_view(pairs@.subrange(i + 1, pairs@.len() as int)));
        if str_eq(pairs[i].0.as_str(), name) {
            return Some(&pairs[i].1);
        }
        i = i + 1;
    }
    None
}

/// The first required parameter at `loc` that `pairs` does not supply.
fn find_missing<'a>(
    params: &'a Vec<ParsedParameter>,
    loc: ParameterLocation,
    pairs: &Vec<(String, String)>,
) -> (r: Option<&'a String>)
    ensures
        match r {
            Some(n) => missing_required(params@, loc, pairs_view(pairs@)) == Some(n@),
            None => missing_required(params@, loc, pairs_view(pairs@)) is None,
        },
{
    let mut i: usize = 0;
    assert(params@.subrange(0, params@.len() as int) =~= params@);
    while i < params.len()
        invariant
            0 <= i <= params@.len(),
            missing_required(params@, loc, pairs_view(pairs@)) == missing_required(
                params@.subrange(i as int, params@.len() as int),
                loc,
                pairs_view(pairs@),
            ),
        decreases params@.len() - i,
    {
        let ghost rest = params@.subrange(i as int, params@.len() as int);
        assert(rest.drop_first() =~= params@.subrange(i + 1, params@.len() as int));
        let p = &params[i];
        if p.location == loc && p.required && find_pair(pairs, p.name.as_str()).is_none() {
            return Some(&p.name);
        }
        i = i + 1;
    }
    None
}

/// The placeholder `{name}`.
fn placeholder_of(name: &str) -> (r: Vec<char>)
    ensures
        r@ == placeholder(name@),
        r@.len() > 0,
{
    let mut v = chars_of("{");
    push_str(&mut v, name);
    push_str(&mut v, "}");
    proof {
        reveal_strlit("{");
    }
    v
}

/// Whether a string is empty.
fn str_is_empty(s: &str) -> (r: bool)
    ensures
        r == (s@.len() == 0),
{
    chars_of(s).len() == 0
}

/// Copies a list of pairs.
fn clone_pairs(pairs: &Vec<(String, String)>) -> (r: Vec<(String, String)>)
    ensures
        pairs_view(r@) == pairs_view(pairs@),
{
    let mut r: Vec<(String, String)> = Vec::new();
    let mut i: usize = 0;
    while i < pairs.len()
        invariant
            0 <= i <= pairs@.len(),
            pairs_view(r@) =~= pairs_view(pairs@.subrange(0, i as int)),
        decreases pairs@.len() - i,
    {
        let ghost before = r@;
        r.push((pairs[i].0.clone(), pairs[i].1.clone()));
        proof {
            assert(pairs_view(r@) =~= pairs_view(before).push((pairs@[i as int].0@, pairs@[i as int].1@)));
            assert(pairs_view(pairs@.subrange(0, i + 1)) =~= pairs_view(pairs@.subrange(0, i as int)).push(
                (pairs@[i as int].0@, pairs@[i as int].1@),
            ));
        }
        i = i + 1;
    }
    assert(pairs@.subrange(0, pairs@.len() as int) =~= pairs@);
    r
}

/// What `build_request` yields.
pub open spec fn build_outcome(
    e: Option<ParsedEndpoint>,
    endpoint_id: Seq<char>,
    path_params: Seq<(Seq<char>, Seq<char>)>,
    query_params: Seq<(Seq<char>, Seq<char>)>,
    body: Option<JsonV>,
    r: Result<ApiRequest, OpenApiError>,
) -> bool {
    match e {
        None => r matches Err(OpenApiError::EndpointNotFound { endpoint_id: x }) && x@ == endpoint_id,
        Some(ep) => match missing_required(ep.parameters@, ParameterLocation::Path, path_params) {
            Some(n) => r matches Err(OpenApiError::InvalidParams { reason }) && reason@
                == "missing required path parameter: "@ + n,
            None => match missing_required(ep.parameters@, ParameterLocation::Query, query_params) {
                Some(n) => r matches Err(OpenApiError::InvalidParams { reason }) && reason@
                    == "missing required query parameter: "@ + n,
                None => r matches Ok(req) && {
                    &&& req.method == ep.method
                    &&& req.path@ == substitute_pairs(
                        substitute_required(ep.path@, ep.parameters@, path_params),
                        path_params,
                    )
                    &&& pairs_view(req.query_params@) == query_params
                    &&& view_opt2(req.body) == body
                    &&& opt_string(req.content_type) == opt_string(ep.request_body_content_type)
                },
            },
        },
    }
}

impl OpenApiSpec {
    /// Builds a request for the endpoint with ID `endpoint_id`: every required
    /// path parameter must be supplied and is substituted for its `{name}`
    /// placeholder, as is every other supplied path parameter; every
    /// required query parameter must be supplied. Parameters are given as
    /// `(name, value)` pairs with distinct names.
    pub fn build_request(
        &self,
        endpoint_id: &str,
        path_params: &Vec<(String, String)>,
        query_params: &Vec<(String, String)>,
        body: Option<Json>,
    ) -> (r: Result<ApiRequest, OpenApiError>)
        ensures
            build_outcome(
                self.lookup(endpoint_id@),
                endpoint_id@,
                pairs_view(path_params@),
                pairs_view(query_params@),
                view_opt2(body),
                r,
            ),
    {
        let ep = match self.find(endpoint_id) {
            Some(ep) => ep,
            None => {
                return Err(OpenApiError::EndpointNotFound { endpoint_id: endpoint_id.to_owned() });
            },
        };
        if let Some(n) = find_missing(&ep.parameters, ParameterLocation::Path, path_params) {
            let v = concat("missing required path parameter: ", n.as_str());
            return Err(OpenApiError::InvalidParams { reason: string_from(v.as_slice()) });
        }
        let ghost pp = pairs_view(path_params@);
        let mut resolved = chars_of(ep.path.as_str());
        let mut i: usize = 0;
        assert(ep.parameters@.subrange(0, 0) =~= Seq::<ParsedParameter>::empty());
        while i < ep.parameters.len()
            invariant
                0 <= i <= ep.parameters@.len(),
                pp == pairs_view(path_params@),
                resolved@ == substitute_required(ep.path@, ep.parameters@.subrange(0, i as int), pp),
            decreases ep.parameters@.len() - i,
        {
            proof {
                assert(ep.parameters@.subrange(0, i + 1).drop_last() =~= ep.parameters@.subrange(
                    0,
                    i as int,
                ));
            }
            let p = &ep.parameters[i];
            if p.location == ParameterLocation::Path && p.required {
                if let Some(v) = find_pair(path_params, p.name.as_str()) {
                    let pat = placeholder_of(p.name.as_str());
                    let rep = chars_of(v.as_str());
                    resolved = replace_chars(resolved.as_slice(), pat.as_slice(), rep.as_slice());
                }
            }
            i = i + 1;
        }
        assert(ep.parameters@.subrange(0, ep.parameters@.len() as int) =~= ep.parameters@);
        let mut j: usize = 0;
        let ghost base = resolved@;
        assert(pp.subrange(0, 0) =~= Seq::<(Seq<char>, Seq<char>)>::empty());
        while j < path_params.len()
            invariant
                0 <= j <= path_params@.len(),
                pp == pairs_view(path_params@),
                resolved@ == substitute_pairs(base, pp.subrange(0, j as int)),
            decreases path_params@.len() - j,
        {
            proof {
                assert(pp.subrange(0, j + 1).drop_last() =~= pp.subrange(0, j as int));
            }
            let pat = placeholder_of(path_params[j].0.as_str());
            let rep = chars_of(path_params[j].1.as_str());
            resolved = replace_chars(resolved.as_slice(), pat.as_slice(), rep.as_slice());
            j = j + 1;
        }
        assert(pp.subrange(0, pp.len() as int) =~= pp);
        if let Some(n) = find_missing(&ep.parameters, ParameterLocation::Query, query_params) {
            let v = concat("missing required query parameter: ", n.as_str());
            return Err(OpenApiError::InvalidParams { reason: string_from(v.as_slice()) });
        }
        Ok(
            ApiRequest {
                method: ep.method,
                path: string_from(resolved.as_slice()),
                query_params: clone_pairs(query_params),
                body,
                content_type: clone_opt_string(&ep.request_body_content_type),
            },
        )
    }
}

} // verus!
