//! The generic API tools: endpoint search, endpoint explanation and the
//! preparation of API calls.
use vstd::prelude::*;
use crate::endpoints::pairs_view;
use crate::json::{Json, JsonV, view_opt2};
use crate::openapi::{
    self, EndpointDetail, EndpointSummary, OpenApiError, OpenApiSpec, SearchFilters, build_outcome,
    detail_from, error_text, summaries_ok, summary_from,
};
use crate::request::{ApiRequest, HttpMethod, RequestBody};
use crate::text::{
    chars_of, debug_quoted, debug_str, is_blank, is_tchar, lower_seq, push_str, str_eq, string_from,
    trim,
};
use crate::tools::onshape::{call_body_check, check_result, opt_view, validate_call_body};
use crate::tools::paths::{file_path_check, paths_equal, same_path, validate_file_path};
use crate::tools::{
    ContentItem, Continuation, FileEncoding, FileRead, FileReference, ProtocolError, ToolEffect,
    ToolOutput, is_input_error, single_text, tool_input_error,
};

verus! {

broadcast use vstd::std_specs::vec::group_vec_axioms;

// ---------------------------------------------------------------------------
// Inputs
// ---------------------------------------------------------------------------

/// Input of the endpoint search tool.
#[derive(Debug, PartialEq)]
pub struct ApiSearchInput {
    /// Free-text query; empty lists every endpoint.
    pub query: String,
    /// Method filter.
    pub method: Option<String>,
    /// Tag filter.
    pub tag: Option<String>,
}

/// Input of the endpoint explanation tool.
#[derive(Debug, PartialEq)]
pub struct ApiExplainInput {
    /// Operation ID of the endpoint.
    pub endpoint: String,
}

/// The body argument of an API call.
#[derive(Debug, PartialEq)]
pub enum CallBody {
    /// A JSON value given directly.
    Value(Json),
    /// A JSON document serialized into a string: what it decodes to, or
    /// the parser's message.
    Serialized(Result<Json, String>),
}

/// Input of the API call tool.
#[derive(Debug, PartialEq)]
pub struct ApiCallInput {
    /// Operation ID of the endpoint.
    pub endpoint: String,
    /// Path parameters as `(name, value)` pairs with distinct names.
    pub path_params: Vec<(String, String)>,
    /// Query parameters as `(name, value)` pairs with distinct names.
    pub query_params: Vec<(String, String)>,
    /// Header parameters as `(name, value)` pairs with distinct names.
    pub header_params: Vec<(String, String)>,
    /// The request body, if any.
    pub body: Option<CallBody>,
    /// Files whose contents fill body fields.
    pub file_refs: Vec<FileReference>,
}

// ---------------------------------------------------------------------------
// Headers
// ---------------------------------------------------------------------------

/// Whether `s` is a valid header name: one to 65535 token characters.
pub open spec fn valid_header_name(s: Seq<char>) -> bool {
    &&& 1 <= s.len() <= 65535
    &&& forall|i: int| 0 <= i < s.len() ==> is_tchar(#[trigger] s[i])
}

/// Whether `s` is a valid header value: tabs and characters from the space
/// on, except DEL.
pub open spec fn valid_header_value(s: Seq<char>) -> bool {
    forall|i: int|
        0 <= i < s.len() ==> ((#[trigger] s[i] as u32) >= 32 && (s[i] as u32) != 127) || s[i] == '\t'
}

/// Parses a header name (`http::HeaderName::from_bytes`). Claimed, as the
/// crate's source shows: a name of 1 to 65535 token characters is accepted
/// and stored in ASCII lower case; anything else fails with the message
/// `invalid HTTP header name`.
#[verifier::external_body]
fn http_header_name(name: &str) -> (r: Result<String, String>)
    ensures
        r is Ok <==> valid_header_name(name@),
        r matches Ok(n) ==> n@ == lower_seq(name@),
        r matches Err(m) ==> m@ == "invalid HTTP header name"@,
{
    match http::HeaderName::from_bytes(name.as_bytes()) {
        Ok(h) => Ok(h.as_str().to_owned()),
        Err(e) => Err(e.to_string()),
    }
}

/// Checks a header value (`http::HeaderValue::from_str`). Claimed, as the
/// crate's source shows: a value is accepted when every byte is a tab or at
/// least 32 and not 127 (so every non-ASCII character passes); otherwise it
/// fails with the message `failed to parse header value`.
#[verifier::external_body]
fn http_header_value(value: &str) -> (r: Result<(), String>)
    ensures
        r is Ok <==> valid_header_value(value@),
        r matches Err(m) ==> m@ == "failed to parse header value"@,
{
    match http::HeaderValue::from_str(value) {
        Ok(_) => Ok(()),
        Err(e) => Err(e.to_string()),
    }
}

/// `hs` with header `k` set to `v`: the entry of that name is replaced, or
/// one is appended.
pub open spec fn header_set(hs: Seq<(Seq<char>, Seq<char>)>, k: Seq<char>, v: Seq<char>) -> Seq<
    (Seq<char>, Seq<char>),
>
    decreases hs.len(),
{
    if hs.len() == 0 {
        seq![(k, v)]
    } else if hs[0].0 == k {
        seq![(k, v)] + hs.drop_first()
    } else {
        seq![hs[0]] + header_set(hs.drop_first(), k, v)
    }
}

/// The headers of the header parameters, or the first problem: each name
/// must be a valid header name (stored lower-cased) and each value a valid
/// header value; a later parameter replaces an earlier one of the same name.
pub open spec fn header_map(params: Seq<(Seq<char>, Seq<char>)>) -> Result<
    Seq<(Seq<char>, Seq<char>)>,
    Seq<char>,
>
    decreases params.len(),
{
    if params.len() == 0 {
        Ok(Seq::<(Seq<char>, Seq<char>)>::empty())
    } else {
        match header_map(params.drop_last()) {
            Err(e) => Err(e),
            Ok(hs) => {
                let (n, v) = params.last();
                if !valid_header_name(n) {
                    Err("invalid header name "@ + debug_quoted(n) + ": invalid HTTP header name"@)
                } else if !valid_header_value(v) {
                    Err("invalid value for header "@ + debug_quoted(n) + ": failed to parse header value"@)
                } else {
                    Ok(header_set(hs, lower_seq(n), v))
                }
            },
        }
    }
}

proof fn lemma_header_set_at(hs: Seq<(Seq<char>, Seq<char>)>, k: Seq<char>, v: Seq<char>, i: int)
    requires
        0 <= i < hs.len(),
        hs[i].0 == k,
        forall|j: int| 0 <= j < i ==> hs[j].0 != k,
    ensures
        header_set(hs, k, v) == hs.update(i, (k, v)),
    decreases i,
{
    if i == 0 {
        assert(seq![(k, v)] + hs.drop_first() =~= hs.update(0, (k, v)));
    } else {
        lemma_header_set_at(hs.drop_first(), k, v, i - 1);
        assert(seq![hs[0]] + hs.drop_first().update(i - 1, (k, v)) =~= hs.update(i, (k, v)));
    }
}

proof fn lemma_header_set_absent(hs: Seq<(Seq<char>, Seq<char>)>, k: Seq<char>, v: Seq<char>)
    requires
        forall|j: int| 0 <= j < hs.len() ==> hs[j].0 != k,
    ensures
        header_set(hs, k, v) == hs.push((k, v)),
    decreases hs.len(),
{
    if hs.len() > 0 {
        lemma_header_set_absent(hs.drop_first(), k, v);
        assert(seq![hs[0]] + hs.drop_first().push((k, v)) =~= hs.push((k, v)));
    } else {
        assert(seq![(k, v)] =~= hs.push((k, v)));
    }
}

/// Sets header `k` to `v`.
fn set_header(hs: &mut Vec<(String, String)>, k: String, v: String)
    ensures
        pairs_view(final(hs)@) == header_set(pairs_view(old(hs)@), k@, v@),
{
    let ghost before = pairs_view(hs@);
    let mut i: usize = 0;
    while i < hs.len()
        invariant
            0 <= i <= hs@.len(),
            hs@ == old(hs)@,
            before == pairs_view(hs@),
            forall|j: int| 0 <= j < i ==> hs@[j].0@ != k@,
        decreases hs@.len() - i,
    {
        if str_eq(hs[i].0.as_str(), k.as_str()) {
            proof {
                assert forall|j: int| 0 <= j < i implies before[j].0 != k@ by {
                    assert(before[j] == (hs@[j].0@, hs@[j].1@));
                }
                lemma_header_set_at(before, k@, v@, i as int);
            }
            let ghost kv = (k@, v@);
            hs.set(i, (k, v));
            assert(pairs_view(hs@) =~= before.update(i as int, kv));
            return;
        }
        i = i + 1;
    }
    proof {
        assert forall|j: int| 0 <= j < before.len() implies before[j].0 != k@ by {
            assert(before[j] == (hs@[j].0@, hs@[j].1@));
        }
        lemma_header_set_absent(before, k@, v@);
    }
    let ghost kv = (k@, v@);
    hs.push((k, v));
    assert(pairs_view(hs@) =~= before.push(kv));
}

/// Turns header parameters into request headers.
pub fn header_params_to_header_map(params: &Vec<(String, String)>) -> (r: Result<
    Vec<(String, String)>,
    String,
>)
    ensures
        match header_map(pairs_view(params@)) {
            Ok(hs) => r matches Ok(v) && pairs_view(v@) == hs,
            Err(m) => r matches Err(x) && x@ == m,
        },
{
    let ghost ps = pairs_view(params@);
    let mut headers: Vec<(String, String)> = Vec::new();
    let mut i: usize = 0;
    assert(ps.subrange(0, 0) =~= Seq::<(Seq<char>, Seq<char>)>::empty());
    assert(pairs_view(headers@) =~= Seq::<(Seq<char>, Seq<char>)>::empty());
    while i < params.len()
        invariant
            0 <= i <= params@.len(),
            ps == pairs_view(params@),
            header_map(ps.subrange(0, i as int)) == Ok::<Seq<(Seq<char>, Seq<char>)>, Seq<char>>(
                pairs_view(headers@),
            ),
        decreases params@.len() - i,
    {
        proof {
            assert(ps.subrange(0, i + 1).drop_last() =~= ps.subrange(0, i as int));
            assert(ps.subrange(0, i + 1).last() == (params@[i as int].0@, params@[i as int].1@));
        }
        let name = &params[i].0;
        let value = &params[i].1;
        let lowered = match http_header_name(name.as_str()) {
            Ok(n) => n,
            Err(e) => {
                let mut m = chars_of("invalid header name ");
                push_str(&mut m, debug_str(name.as_str()).as_str());
                push_str(&mut m, ": ");
                push_str(&mut m, e.as_str());
                proof {
                    reveal_strlit(": ");
                    reveal_strlit("invalid HTTP header name");
                    reveal_strlit(": invalid HTTP header name");
                    assert(": "@ + "invalid HTTP header name"@ =~= ": invalid HTTP header name"@);
                    assert(m@ =~= "invalid header name "@ + debug_quoted(name@)
                        + ": invalid HTTP header name"@);
                    lemma_header_map_stops(ps, i as int + 1);
                }
                return Err(string_from(m.as_slice()));
            },
        };
        match http_header_value(value.as_str()) {
            Ok(()) => {},
            Err(e) => {
                let mut m = chars_of("invalid value for header ");
                push_str(&mut m, debug_str(name.as_str()).as_str());
                push_str(&mut m, ": ");
                push_str(&mut m, e.as_str());
                proof {
                    reveal_strlit(": ");
                    reveal_strlit("failed to parse header value");
                    reveal_strlit(": failed to parse header value");
                    assert(": "@ + "failed to parse header value"@ =~= ": failed to parse header value"@);
                    assert(m@ =~= "invalid value for header "@ + debug_quoted(name@)
                        + ": failed to parse header value"@);
                    lemma_header_map_stops(ps, i as int + 1);
                }
                return Err(string_from(m.as_slice()));
            },
        }
        set_header(&mut headers, lowered, value.clone());
        i = i + 1;
    }
    assert(ps.subrange(0, ps.len() as int) =~= ps);
    Ok(headers)
}

proof fn lemma_header_map_stops(ps: Seq<(Seq<char>, Seq<char>)>, k: int)
    requires
        0 < k <= ps.len(),
        header_map(ps.subrange(0, k)) is Err,
    ensures
        header_map(ps) == header_map(ps.subrange(0, k)),
    decreases ps.len() - k,
{
    if k < ps.len() {
        assert(ps.subrange(0, k + 1).drop_last() =~= ps.subrange(0, k));
        lemma_header_map_stops(ps, k + 1);
    } else {
        assert(ps.subrange(0, k) =~= ps);
    }
}

// ---------------------------------------------------------------------------
// Search and explain
// ---------------------------------------------------------------------------

/// The filters of a search input.
pub open spec fn filters_of(input: ApiSearchInput) -> SearchFilters {
    SearchFilters { method: input.method, tag: input.tag }
}

/// What the search tool yields: the summaries of the endpoints found.
pub open spec fn search_outcome(
    input: ApiSearchInput,
    spec: OpenApiSpec,
    r: Result<ToolOutput, ProtocolError>,
) -> bool {
    r matches Ok(out) && {
        let hits = spec.search_hits(input.query@, filters_of(input));
        &&& !out.is_error
        &&& out.content@.len() == 1
        &&& out.content@[0] matches ContentItem::Endpoints(v) && v@.len() == hits.len() && forall|
            i: int,
        | 0 <= i < hits.len() ==> summary_from(hits[i], #[trigger] v@[i])
    }
}

/// Whether the search of `input` can run: the endpoints it finds that are
/// summarized by their descriptions can be cut at 120 bytes.
pub open spec fn search_allowed(input: ApiSearchInput, spec: OpenApiSpec) -> bool {
    summaries_ok(spec.search_hits(input.query@, filters_of(input)))
}

/// What the explain tool yields: the detail of the endpoint, or the
/// message that it does not exist.
pub open spec fn detail_outcome(
    input: ApiExplainInput,
    spec: OpenApiSpec,
    r: Result<ToolOutput, ProtocolError>,
) -> bool {
    r matches Ok(out) && match spec.lookup(input.endpoint@) {
        Some(e) => !out.is_error && out.content@.len() == 1 && (out.content@[0] matches ContentItem::Endpoint(d)
            && detail_from(e, d)),
        None => single_text(out, true, "endpoint not found: "@ + input.endpoint@),
    }
}

/// Runs an endpoint search.
pub fn call_api_search(input: &ApiSearchInput, spec: &OpenApiSpec) -> (r: Result<
    ToolOutput,
    ProtocolError,
>)
    requires
        search_allowed(*input, *spec),
    ensures
        search_outcome(*input, *spec, r),
{
    let filters = SearchFilters {
        method: match &input.method {
            Some(m) => Some(m.clone()),
            None => None,
        },
        tag: match &input.tag {
            Some(t) => Some(t.clone()),
            None => None,
        },
    };
    assert(filters == filters_of(*input));
    let results = spec.search(input.query.as_str(), &filters);
    Ok(ToolOutput { is_error: false, content: vec![ContentItem::Endpoints(results)] })
}

/// Explains one endpoint; an unknown endpoint is reported to the caller.
pub fn call_api_explain(input: &ApiExplainInput, spec: &OpenApiSpec) -> (r: Result<
    ToolOutput,
    ProtocolError,
>)
    ensures
        detail_outcome(*input, *spec, r),
{
    match spec.explain(input.endpoint.as_str()) {
        Ok(d) => Ok(ToolOutput { is_error: false, content: vec![ContentItem::Endpoint(d)] }),
        Err(e) => {
            let m = e.message();
            Ok(ToolOutput { is_error: true, content: vec![ContentItem::Text(m)] })
        },
    }
}

// ---------------------------------------------------------------------------
// Calls
// ---------------------------------------------------------------------------

/// The request method of a catalogue method.
pub open spec fn client_method(m: openapi::HttpMethod) -> HttpMethod {
    match m {
        openapi::HttpMethod::Get => HttpMethod::Get,
        openapi::HttpMethod::Post => HttpMethod::Post,
        openapi::HttpMethod::Put => HttpMethod::Put,
        openapi::HttpMethod::Delete => HttpMethod::Delete,
        openapi::HttpMethod::Patch => HttpMethod::Patch,
    }
}

/// A request is sent with its endpoint's own method: the client method's
/// wire name is the catalogue method's name, for every method, and
/// different catalogue methods give different client methods.
pub proof fn lemma_client_method_keeps_name(m: openapi::HttpMethod, n: openapi::HttpMethod)
    ensures
        crate::request::method_name(client_method(m)) == openapi::method_label(m),
        m != n ==> client_method(m) != client_method(n),
{
    reveal_strlit("GET");
    reveal_strlit("POST");
    reveal_strlit("PUT");
    reveal_strlit("DELETE");
    reveal_strlit("PATCH");
    if m != n && client_method(m) == client_method(n) {
        assert(openapi::method_label(m) == openapi::method_label(n));
        let names = seq!["GET"@, "POST"@, "PUT"@, "DELETE"@, "PATCH"@];
        assert forall|i: int, j: int| 0 <= i < j < 5 implies names[i] != names[j] by {
            if names[i].len() == names[j].len() {
                assert(names[i][1] != names[j][1]);
            }
        }
    }
}

/// The client request for a catalogue request with the given headers: a
/// body becomes a JSON body.
pub fn to_client_request(r: openapi::ApiRequest, headers: Vec<(String, String)>) -> (q: ApiRequest)
    ensures
        q.method == client_method(r.method),
        q.path == r.path,
        q.query_params == r.query_params,
        q.headers == headers,
        match r.body {
            Some(v) => q.body matches Some(RequestBody::Json(w)) && w == v,
            None => q.body is None,
        },
        q.content_type == r.content_type,
{
    let method = match r.method {
        openapi::HttpMethod::Get => HttpMethod::Get,
        openapi::HttpMethod::Post => HttpMethod::Post,
        openapi::HttpMethod::Put => HttpMethod::Put,
        openapi::HttpMethod::Delete => HttpMethod::Delete,
        openapi::HttpMethod::Patch => HttpMethod::Patch,
    };
    let body = match r.body {
        Some(v) => Some(RequestBody::Json(v)),
        None => None,
    };
    ApiRequest {
        method,
        path: r.path,
        query_params: r.query_params,
        headers,
        body,
        content_type: r.content_type,
    }
}

/// The first problem with the file references: a path that fails the file
/// path check, or a blank field name.
pub open spec fn first_bad_file_ref(refs: Seq<FileReference>) -> Option<Seq<char>>
    decreases refs.len(),
{
    if refs.len() == 0 {
        None
    } else {
        match file_path_check(refs[0].path@) {
            Err(m) => Some("invalid file_ref path: "@ + m),
            Ok(_) => if trim(refs[0].field@).len() == 0 {
                Some("invalid file_ref field: field must not be empty"@)
            } else {
                first_bad_file_ref(refs.drop_first())
            },
        }
    }
}

/// The files to read for the references: each path once, at its first
/// reference (paths compared as std `Path`s).
pub open spec fn reads_for(refs: Seq<FileReference>) -> Seq<Seq<char>>
    decreases refs.len(),
{
    if refs.len() == 0 {
        Seq::<Seq<char>>::empty()
    } else {
        let p = reads_for(refs.drop_last());
        if exists|j: int| 0 <= j < refs.len() - 1 && same_path(#[trigger] refs[j].path@, refs.last().path@) {
            p
        } else {
            p.push(refs.last().path@)
        }
    }
}

/// The paths of file reads.
pub open spec fn read_paths(v: Seq<FileRead>) -> Seq<Seq<char>> {
    v.map_values(|r: FileRead| r.path@)
}

/// The error text of a request that cannot be built, if it cannot.
pub open spec fn build_error(
    e: Option<openapi::ParsedEndpoint>,
    id: Seq<char>,
    pp: Seq<(Seq<char>, Seq<char>)>,
    qp: Seq<(Seq<char>, Seq<char>)>,
) -> Option<Seq<char>> {
    match e {
        None => Some("endpoint not found: "@ + id),
        Some(ep) => match openapi::missing_required(ep.parameters@, openapi::ParameterLocation::Path, pp) {
            Some(n) => Some("invalid parameters: "@ + ("missing required path parameter: "@ + n)),
            None => match openapi::missing_required(ep.parameters@, openapi::ParameterLocation::Query, qp) {
                Some(n) => Some("invalid parameters: "@ + ("missing required query parameter: "@ + n)),
                None => None,
            },
        },
    }
}

/// Whether `q` is the request for endpoint `ep` with the given parameters,
/// headers and body.
pub open spec fn request_for(
    q: ApiRequest,
    ep: openapi::ParsedEndpoint,
    pp: Seq<(Seq<char>, Seq<char>)>,
    qp: Seq<(Seq<char>, Seq<char>)>,
    hs: Seq<(Seq<char>, Seq<char>)>,
    body: Option<JsonV>,
) -> bool {
    &&& q.method == client_method(ep.method)
    &&& q.path@ == openapi::substitute_pairs(openapi::substitute_required(ep.path@, ep.parameters@, pp), pp)
    &&& pairs_view(q.query_params@) == qp
    &&& pairs_view(q.headers@) == hs
    &&& match body {
        Some(v) => q.body matches Some(RequestBody::Json(w)) && w@ == v,
        None => q.body is None,
    }
    &&& openapi::opt_string(q.content_type) == openapi::opt_string(ep.request_body_content_type)
}

/// Message for a JSON null body given directly.
pub open spec fn null_argument_message() -> Seq<char> {
    "body must not be JSON null; omit it instead"@
}

/// Message for a serialized body that decodes to null.
pub open spec fn null_body_message() -> Seq<char> {
    "body parsed as JSON null; omit the body field instead of passing \"null\""@
}

/// Message for raw bytes aimed at a JSON body.
pub open spec fn raw_bytes_message() -> Seq<char> {
    "raw_bytes file_refs cannot be used with JSON request bodies; use text_utf8 or base64 instead"@
}

/// Whether some reference asks for raw bytes.
pub open spec fn any_raw_bytes(refs: Seq<FileReference>) -> bool {
    exists|j: int| 0 <= j < refs.len() && #[trigger] refs[j].encoding == FileEncoding::RawBytes
}

/// What the API call tool yields once the body has been decoded and the
/// host's check of the call has given `host`: a rejection is reported as
/// is; then come the file references, the headers, building the request,
/// and the body's fitness for file references. Without file references the
/// request is sent; with them, the distinct files are read first.
pub open spec fn call_outcome_after(
    input: ApiCallInput,
    spec: OpenApiSpec,
    body: Option<JsonV>,
    host: Result<(), Seq<char>>,
    r: ToolEffect,
) -> bool {
    match host {
        Err(m) => is_input_error(r, m),
        Ok(()) => match first_bad_file_ref(input.file_refs@) {
            Some(m) => is_input_error(r, m),
            None => match header_map(pairs_view(input.header_params@)) {
                Err(m) => is_input_error(r, m),
                Ok(hs) => {
                    let pp = pairs_view(input.path_params@);
                    let qp = pairs_view(input.query_params@);
                    let e = spec.lookup(input.endpoint@);
                    match build_error(e, input.endpoint@, pp, qp) {
                        Some(m) => is_input_error(r, m),
                        None => {
                            let ep = e->0;
                            let refs = input.file_refs@;
                            if refs.len() > 0 && body is None {
                                is_input_error(r, crate::tools::inject::no_body_message())
                            } else if refs.len() > 0 && !(body->0 is Object) {
                                is_input_error(r, crate::tools::inject::not_object_message())
                            } else if refs.len() > 0 && any_raw_bytes(refs) {
                                is_input_error(r, raw_bytes_message())
                            } else if refs.len() == 0 {
                                r matches ToolEffect::ApiRequest {
                                    request: q,
                                    continuation: Continuation::FormatApiResponse,
                                } && request_for(q, ep, pp, qp, hs, body)
                            } else {
                                r matches ToolEffect::ReadFiles {
                                    reads,
                                    continuation: Continuation::InjectFilesIntoRequest {
                                        request: q,
                                        file_refs,
                                    },
                                } && read_paths(reads@) == reads_for(refs) && file_refs
                                    == input.file_refs && request_for(q, ep, pp, qp, hs, body)
                            }
                        },
                    }
                },
            },
        },
    }
}

/// The body an API call carries once decoded: a JSON null given directly,
/// a serialized body that does not decode, and one that decodes to null
/// are rejected with their messages.
pub open spec fn checked_body(b: Option<CallBody>) -> Result<Option<Json>, Seq<char>> {
    match b {
        None => Ok(None),
        Some(CallBody::Value(Json::Null)) => Err(null_argument_message()),
        Some(CallBody::Value(v)) => Ok(Some(v)),
        Some(CallBody::Serialized(Ok(Json::Null))) => Err(null_body_message()),
        Some(CallBody::Serialized(Ok(v))) => Ok(Some(v)),
        Some(CallBody::Serialized(Err(e))) => Err("invalid body JSON: "@ + e@),
    }
}

/// The value behind an optional reference.
pub open spec fn opt_deref(b: Option<&Json>) -> Option<Json> {
    match b {
        Some(j) => Some(*j),
        None => None,
    }
}

/// The message of a host's check result.
pub open spec fn host_result_view(h: Result<(), String>) -> Result<(), Seq<char>> {
    match h {
        Ok(()) => Ok(()),
        Err(m) => Err(m@),
    }
}

/// What the API call tool yields with the Onshape endpoint checks as the
/// host's check: the checks run in order, a null body, a body that does
/// not decode, a decoded null, the endpoint-specific body check, and then
/// as [`call_outcome_after`] says.
pub open spec fn call_outcome(input: ApiCallInput, spec: OpenApiSpec, r: ToolEffect) -> bool {
    match checked_body(input.body) {
        Err(m) => is_input_error(r, m),
        Ok(b) => call_outcome_after(
            input,
            spec,
            view_opt2(b),
            call_body_check(input.endpoint@, view_opt2(b), input.file_refs@),
            r,
        ),
    }
}

/// Finds the first problem with the file references.
fn check_file_refs(refs: &Vec<FileReference>) -> (r: Option<String>)
    ensures
        match first_bad_file_ref(refs@) {
            Some(m) => r matches Some(x) && x@ == m,
            None => r is None,
        },
{
    let mut i: usize = 0;
    assert(refs@.subrange(0, refs@.len() as int) =~= refs@);
    while i < refs.len()
        invariant
            0 <= i <= refs@.len(),
            first_bad_file_ref(refs@) == first_bad_file_ref(refs@.subrange(i as int, refs@.len() as int)),
        decreases refs@.len() - i,
    {
        let ghost rest = refs@.subrange(i as int, refs@.len() as int);
        assert(rest.drop_first() =~= refs@.subrange(i + 1, refs@.len() as int));
        match validate_file_path(refs[i].path.as_str()) {
            Err(msg) => {
                let mut m = chars_of("invalid file_ref path: ");
                push_str(&mut m, msg.as_str());
                return Some(string_from(m.as_slice()));
            },
            Ok(_) => {},
        }
        if is_blank(refs[i].field.as_str()) {
            return Some("invalid file_ref field: field must not be empty".to_owned());
        }
        i = i + 1;
    }
    None
}

/// The files to read for the references, each path once.
fn distinct_reads(refs: &Vec<FileReference>) -> (r: Vec<FileRead>)
    ensures
        read_paths(r@) == reads_for(refs@),
{
    let mut reads: Vec<FileRead> = Vec::new();
    let mut i: usize = 0;
    assert(refs@.subrange(0, 0) =~= Seq::<FileReference>::empty());
    assert(read_paths(reads@) =~= Seq::<Seq<char>>::empty());
    while i < refs.len()
        invariant
            0 <= i <= refs@.len(),
            read_paths(reads@) == reads_for(refs@.subrange(0, i as int)),
        decreases refs@.len() - i,
    {
        let ghost pre = refs@.subrange(0, i + 1);
        assert(pre.drop_last() =~= refs@.subrange(0, i as int));
        let mut seen = false;
        let mut j: usize = 0;
        while j < i
            invariant
                0 <= j <= i,
                i < refs@.len(),
                pre == refs@.subrange(0, i + 1),
                seen == exists|k: int| 0 <= k < j && same_path(#[trigger] refs@[k].path@, refs@[i as int].path@),
            decreases i - j,
        {
            if paths_equal(refs[j].path.as_str(), refs[i].path.as_str()) {
                seen = true;
            }
            j = j + 1;
        }
        proof {
            assert forall|k: int| 0 <= k < pre.len() - 1 implies #[trigger] pre[k] == refs@[k] by {}
            assert(pre.last() == refs@[i as int]);
            if seen {
                let k = choose|k: int| 0 <= k < i && same_path(#[trigger] refs@[k].path@, refs@[i as int].path@);
                assert(same_path(pre[k].path@, pre.last().path@));
            } else {
                assert forall|k: int| 0 <= k < pre.len() - 1 implies !same_path(#[trigger] pre[k].path@, pre.last().path@) by {
                    assert(pre[k] == refs@[k]);
                }
            }
        }
        if !seen {
            let ghost before = reads@;
            reads.push(FileRead { path: refs[i].path.clone() });
            assert(read_paths(reads@) =~= read_paths(before).push(refs@[i as int].path@));
        }
        i = i + 1;
    }
    assert(refs@.subrange(0, refs@.len() as int) =~= refs@);
    reads
}

/// Whether some reference asks for raw bytes.
fn has_raw_bytes(refs: &Vec<FileReference>) -> (r: bool)
    ensures
        r == any_raw_bytes(refs@),
{
    let mut i: usize = 0;
    while i < refs.len()
        invariant
            0 <= i <= refs@.len(),
            forall|k: int| 0 <= k < i ==> #[trigger] refs@[k].encoding != FileEncoding::RawBytes,
        decreases refs@.len() - i,
    {
        match refs[i].encoding {
            FileEncoding::RawBytes => {
                return true;
            },
            _ => {},
        }
        i = i + 1;
    }
    false
}

/// Prepares an API call: decodes the body, lets the host check the call
/// (`validate_body`, given the endpoint, the decoded body and the file
/// references), checks the rest of the input, builds the request, and either
/// sends it or first asks for the referenced files to be read. A rejection
/// by the host is reported to the caller as given.
pub fn call<F>(input: ApiCallInput, spec: &OpenApiSpec, validate_body: F) -> (r: ToolEffect)
    where
        F: Fn(&str, Option<&Json>, &[FileReference]) -> Result<(), String>,
    requires
        forall|e: &str, b: Option<&Json>, f: &[FileReference]| #[trigger] validate_body.requires((e, b, f)),
    ensures
        match checked_body(input.body) {
            Err(m) => is_input_error(r, m),
            Ok(b) => exists|e: &str, bb: Option<&Json>, f: &[FileReference], h: Result<(), String>|
                {
                    &&& e@ == input.endpoint@
                    &&& opt_deref(bb) == b
                    &&& f@ == input.file_refs@
                    &&& #[trigger] validate_body.ensures((e, bb, f), h)
                    &&& call_outcome_after(input, *spec, view_opt2(b), host_result_view(h), r)
                },
        },
{
    let ghost orig = input;
    let ApiCallInput { endpoint, path_params, query_params, header_params, body, file_refs } = input;
    let body: Option<Json> = match body {
        None => None,
        Some(CallBody::Value(v)) => {
            if let Json::Null = v {
                return tool_input_error("body must not be JSON null; omit it instead".to_owned());
            }
            Some(v)
        },
        Some(CallBody::Serialized(Ok(v))) => Some(v),
        Some(CallBody::Serialized(Err(e))) => {
            let mut m = chars_of("invalid body JSON: ");
            push_str(&mut m, e.as_str());
            return tool_input_error(string_from(m.as_slice()));
        },
    };
    if let Some(Json::Null) = &body {
        return tool_input_error(
            "body parsed as JSON null; omit the body field instead of passing \"null\"".to_owned(),
        );
    }
    assert(checked_body(orig.body) == Ok::<Option<Json>, Seq<char>>(body));
    let bref: Option<&Json> = match &body {
        Some(b) => Some(b),
        None => None,
    };
    let ename = endpoint.as_str();
    let refs = file_refs.as_slice();
    let check = validate_body(ename, bref, refs);
    let ghost (ge, gb, gf, gh) = (ename, bref, refs, check);
    assert(validate_body.ensures((ge, gb, gf), gh));
    let r = call_after_check(
        ApiCallInput { endpoint, path_params, query_params, header_params, body: None, file_refs },
        spec,
        body,
        check,
    );
    assert(call_outcome_after(orig, *spec, view_opt2(opt_deref(gb)), host_result_view(gh), r));
    r
}

/// The part of an API call after the host's check.
fn call_after_check(input: ApiCallInput, spec: &OpenApiSpec, body: Option<Json>, check: Result<(), String>) -> (r:
    ToolEffect)
    requires
        body != Some(Json::Null),
    ensures
        call_outcome_after(input, *spec, view_opt2(body), host_result_view(check), r),
{
    let ApiCallInput { endpoint, path_params, query_params, header_params, body: _, file_refs } = input;
    if let Err(m) = check {
        return tool_input_error(m);
    }
    if let Some(m) = check_file_refs(&file_refs) {
        return tool_input_error(m);
    }
    let headers = match header_params_to_header_map(&header_params) {
        Ok(h) => h,
        Err(m) => return tool_input_error(m),
    };
    let built = spec.build_request(endpoint.as_str(), &path_params, &query_params, body);
    let request = match built {
        Ok(req) => req,
        Err(e) => {
            let m = e.message();
            return tool_input_error(m);
        },
    };
    let request = to_client_request(request, headers);
    if file_refs.len() > 0 {
        match &request.body {
            Some(RequestBody::Json(v)) => {
                let is_object = match v {
                    Json::Object(_) => true,
                    _ => false,
                };
                if !is_object {
                    return tool_input_error(
                        "file_refs require the request body to be a JSON object".to_owned(),
                    );
                }
                if has_raw_bytes(&file_refs) {
                    return tool_input_error(
                        "raw_bytes file_refs cannot be used with JSON request bodies; use text_utf8 or base64 instead".to_owned(),
                    );
                }
            },
            Some(RequestBody::Multipart(_)) => {},
            None => {
                return tool_input_error(
                    "file_refs provided but the endpoint has no request body".to_owned(),
                );
            },
        }
    }
    if file_refs.len() == 0 {
        ToolEffect::ApiRequest { request, continuation: Continuation::FormatApiResponse }
    } else {
        let reads = distinct_reads(&file_refs);
        ToolEffect::ReadFiles {
            reads,
            continuation: Continuation::InjectFilesIntoRequest { request, file_refs },
        }
    }
}

/// Prepares an API call with the Onshape endpoint checks as the host's
/// check of the call.
pub fn call_api_call(input: ApiCallInput, spec: &OpenApiSpec) -> (r: ToolEffect)
    ensures
        call_outcome(input, *spec, r),
{
    let ghost orig = input;
    let onshape_check = |e: &str, b: Option<&Json>, f: &[FileReference]| -> (res: Result<(), String>)
        ensures
            check_result(call_body_check(e@, opt_view(b), f@), res),
        { validate_call_body(e, b, f) };
    let r = call(input, spec, onshape_check);
    proof {
        if let Ok(b) = checked_body(orig.body) {
            let (e, bb, f, h) = choose|e: &str, bb: Option<&Json>, f: &[FileReference], h: Result<(), String>|
                {
                    &&& e@ == orig.endpoint@
                    &&& opt_deref(bb) == b
                    &&& f@ == orig.file_refs@
                    &&& #[trigger] onshape_check.ensures((e, bb, f), h)
                    &&& call_outcome_after(orig, *spec, view_opt2(b), host_result_view(h), r)
                };
            assert(opt_view(bb) == view_opt2(b));
            assert(host_result_view(h) == call_body_check(orig.endpoint@, view_opt2(b), orig.file_refs@));
        }
    }
    r
}

} // verus!

