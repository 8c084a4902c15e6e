//! Tool dispatch by name, and the tools that need no API catalogue
//! lookup of their own: authentication status and login, resources, error
//! lookup and screenshots.
use vstd::prelude::*;
use crate::config::ResolvedAuth;
use crate::endpoints::pairs_view;
use crate::json::JsonV;
use crate::openapi::{self, OpenApiSpec, pair_value, summaries_ok};
use crate::status::{AuthStatusResult, ValidationState, instructions, instructions_text, status_result_spec};
use crate::text::{
    chars_of, decimal, is_blank, join_strings, join_texts, push_all, push_str, str_eq, string_from,
    texts_view, trim, u64_to_decimal,
};
use crate::time::UtcTime;
use crate::tools::api::{
    ApiCallInput, ApiExplainInput, ApiSearchInput, build_error, call_api_call, call_api_explain,
    call_api_search, call_outcome, detail_outcome, filters_of, request_for, search_outcome,
    to_client_request,
};
use crate::tools::paths::{file_path_check, validate_file_path};
use crate::tools::{
    ContentItem, Continuation, INTERNAL_ERROR, LoginMode, METHOD_NOT_FOUND, ProtocolError,
    ToolEffect, ToolOutput, is_input_error, single_text, tool_input_error,
};

verus! {

broadcast use vstd::std_specs::vec::group_vec_axioms;

/// Default OAuth proxy used when no proxy URL is given.
pub const DEFAULT_PROXY_URL: &'static str = "https://onshape-oauth-proxy.fstab.workers.dev";


// ---------------------------------------------------------------------------
// Inputs
// ---------------------------------------------------------------------------

/// Input of the authentication status tool.
#[derive(Debug, PartialEq)]
pub struct AuthStatusInput {
    /// Whether to check the credentials against the API.
    pub validate: Option<bool>,
}

/// Input of the login tool.
#[derive(Debug, PartialEq)]
pub struct AuthLoginInput {
    /// `proxy` (the default) or `direct`.
    pub mode: Option<String>,
    /// Proxy URL override, for proxy mode.
    pub proxy_url: Option<String>,
    /// OAuth client ID, for direct mode.
    pub client_id: Option<String>,
    /// OAuth client secret, for direct mode.
    pub client_secret: Option<String>,
}

/// Input of the resource reading tool.
#[derive(Debug, PartialEq)]
pub struct ReadResourceInput {
    /// URI of the resource.
    pub uri: String,
}

/// Input of the error lookup tool.
#[derive(Debug, PartialEq)]
pub struct ErrorLookupInput {
    /// The `ErrorStringEnum` names to resolve.
    pub values: Vec<String>,
}

/// Named view presets of screenshots.
#[derive(Clone, Copy, Debug, PartialEq, Eq, Structural)]
pub enum ViewPreset {
    Front,
    Back,
    Top,
    Bottom,
    Left,
    Right,
    Isometric,
}

/// The label of a view preset.
pub open spec fn preset_label(p: ViewPreset) -> Seq<char> {
    match p {
        ViewPreset::Front => "front"@,
        ViewPreset::Back => "back"@,
        ViewPreset::Top => "top"@,
        ViewPreset::Bottom => "bottom"@,
        ViewPreset::Left => "left"@,
        ViewPreset::Right => "right"@,
        ViewPreset::Isometric => "isometric"@,
    }
}

impl ViewPreset {
    /// The label of the preset, as result messages show it.
    pub fn label(&self) -> (r: &'static str)
        ensures
            r@ == preset_label(*self),
    {
        match self {
            ViewPreset::Front => "front",
            ViewPreset::Back => "back",
            ViewPreset::Top => "top",
            ViewPreset::Bottom => "bottom",
            ViewPreset::Left => "left",
            ViewPreset::Right => "right",
            ViewPreset::Isometric => "isometric",
        }
    }

    /// The view matrix parameter of an axis preset, which is its name; the
    /// isometric view is sent as a computed matrix instead.
    pub fn named_view_matrix(&self) -> (r: Option<&'static str>)
        ensures
            match r {
                Some(s) => *self != ViewPreset::Isometric && s@ == preset_label(*self),
                None => *self == ViewPreset::Isometric,
            },
    {
        match self {
            ViewPreset::Isometric => None,
            _ => Some(self.label()),
        }
    }
}

/// A screenshot request, with the view already turned into its view
/// matrix parameter and label.
#[derive(Debug, PartialEq)]
pub struct ScreenshotRequest {
    /// Document ID.
    pub did: String,
    /// `w`, `v` or `m`.
    pub wvm: String,
    /// Workspace, version or microversion ID.
    pub wvmid: String,
    /// Part Studio element ID.
    pub eid: String,
    /// The `viewMatrix` parameter: a preset name or twelve numbers.
    pub view_matrix: String,
    /// Human-readable view label.
    pub view_label: String,
    /// Where to write the PNG.
    pub output_path: String,
    /// Image height in pixels.
    pub output_height: Option<u32>,
    /// Image width in pixels.
    pub output_width: Option<u32>,
    /// `show` or `hide`.
    pub edges: Option<String>,
    /// Whether to anti-alias.
    pub use_anti_aliasing: Option<bool>,
    /// Whether to show every part.
    pub show_all_parts: Option<bool>,
    /// Whether to include surfaces.
    pub include_surfaces: Option<bool>,
    /// Whether to include wire bodies.
    pub include_wires: Option<bool>,
}

/// A resource document.
#[derive(Debug, PartialEq)]
pub struct ResourceEntry {
    /// Its URI.
    pub uri: String,
    /// Its title.
    pub title: String,
    /// One-line description.
    pub description: String,
    /// Markdown content.
    pub content: String,
}

// ---------------------------------------------------------------------------
// Authentication
// ---------------------------------------------------------------------------

/// What the authentication status tool yields at `now`: without
/// validation, the status with the last validation outcome; with it, a
/// session-info request whose response is processed later (or an internal
/// error when the catalogue is missing or lacks that endpoint).
pub open spec fn auth_status_outcome(
    input: AuthStatusInput,
    resolved: ResolvedAuth,
    validation: ValidationState,
    spec: Option<OpenApiSpec>,
    now: UtcTime,
    r: ToolEffect,
) -> bool {
    if input.validate != Some(true) {
        r matches ToolEffect::Done(Ok(out)) && !out.is_error && out.content@.len() == 1 && (
        out.content@[0] matches ContentItem::AuthStatus(a) && status_result_spec(
            resolved,
            Some(&validation),
            now,
            a,
        ))
    } else {
        match spec {
            None => r matches ToolEffect::Done(Err(e)) && e.code == INTERNAL_ERROR && e.message@
                == "OpenAPI spec not loaded"@,
            Some(s) => {
                let e = s.lookup("sessionInfo"@);
                let empty = Seq::<(Seq<char>, Seq<char>)>::empty();
                match build_error(e, "sessionInfo"@, empty, empty) {
                    Some(m) => r matches ToolEffect::Done(Err(pe)) && pe.code == INTERNAL_ERROR
                        && pe.message@ == "failed to build sessionInfo request: "@ + m,
                    None => r matches ToolEffect::ApiRequest {
                        request: q,
                        continuation: Continuation::ProcessAuthValidation { resolved_auth },
                    } && request_for(q, e->0, empty, empty, empty, None) && resolved_auth == resolved,
                }
            },
        }
    }
}

/// The authentication status tool.
pub fn call_auth_status(
    input: &AuthStatusInput,
    resolved_auth: &ResolvedAuth,
    validation: &ValidationState,
    spec: Option<&OpenApiSpec>,
    now: UtcTime,
) -> (r: ToolEffect)
    ensures
        auth_status_outcome(
            *input,
            *resolved_auth,
            *validation,
            match spec {
                Some(s) => Some(*s),
                None => None,
            },
            now,
            r,
        ),
{
    let validate = match input.validate {
        Some(true) => true,
        _ => false,
    };
    if !validate {
        let result = AuthStatusResult::new(resolved_auth, Some(validation), now);
        return ToolEffect::Done(
            Ok(ToolOutput { is_error: false, content: vec![ContentItem::AuthStatus(result)] }),
        );
    }
    let s = match spec {
        Some(s) => s,
        None => {
            return ToolEffect::Done(
                Err(
                    ProtocolError {
                        code: INTERNAL_ERROR,
                        message: "OpenAPI spec not loaded".to_owned(),
                    },
                ),
            );
        },
    };
    let empty: Vec<(String, String)> = Vec::new();
    assert(pairs_view(empty@) =~= Seq::<(Seq<char>, Seq<char>)>::empty());
    let request = match s.build_request("sessionInfo", &empty, &empty, None) {
        Ok(req) => req,
        Err(e) => {
            let mut m = chars_of("failed to build sessionInfo request: ");
            push_str(&mut m, e.message().as_str());
            return ToolEffect::Done(
                Err(ProtocolError { code: INTERNAL_ERROR, message: string_from(m.as_slice()) }),
            );
        },
    };
    let headers: Vec<(String, String)> = Vec::new();
    assert(pairs_view(headers@) =~= Seq::<(Seq<char>, Seq<char>)>::empty());
    let request = to_client_request(request, headers);
    ToolEffect::ApiRequest {
        request,
        continuation: Continuation::ProcessAuthValidation { resolved_auth: resolved_auth.duplicate() },
    }
}

/// What the login tool yields: proxy mode (the default) with the given or
/// default proxy URL, or direct mode with both client credentials; any
/// other mode, or a direct mode without credentials, is refused.
pub open spec fn login_outcome(input: AuthLoginInput, r: ToolEffect) -> bool {
    let mode = match input.mode {
        Some(m) => m@,
        None => "proxy"@,
    };
    if mode == "proxy"@ {
        r matches ToolEffect::OAuthLoginFlow { mode: LoginMode::Proxy { proxy_url } } && proxy_url@
            == match input.proxy_url {
            Some(u) => u@,
            None => DEFAULT_PROXY_URL@,
        }
    } else if mode == "direct"@ {
        match (input.client_id, input.client_secret) {
            (None, _) => is_input_error(r, "client_id is required for direct mode"@),
            (Some(_), None) => is_input_error(r, "client_secret is required for direct mode"@),
            (Some(id), Some(secret)) => r matches ToolEffect::OAuthLoginFlow {
                mode: LoginMode::Direct { client_id, client_secret },
            } && client_id == id && client_secret == secret,
        }
    } else {
        is_input_error(
            r,
            "invalid mode \""@ + mode + "\": expected \"proxy\" (default) or \"direct\""@,
        )
    }
}

/// The login tool.
pub fn call_auth_login(input: AuthLoginInput) -> (r: ToolEffect)
    ensures
        login_outcome(input, r),
{
    let ghost orig = input;
    let AuthLoginInput { mode, proxy_url, client_id, client_secret } = input;
    let mode_text: String = match mode {
        Some(m) => m,
        None => "proxy".to_owned(),
    };
    if str_eq(mode_text.as_str(), "proxy") {
        let url = match proxy_url {
            Some(u) => u,
            None => DEFAULT_PROXY_URL.to_owned(),
        };
        ToolEffect::OAuthLoginFlow { mode: LoginMode::Proxy { proxy_url: url } }
    } else if str_eq(mode_text.as_str(), "direct") {
        let id = match client_id {
            Some(i) => i,
            None => return tool_input_error("client_id is required for direct mode".to_owned()),
        };
        let secret = match client_secret {
            Some(s) => s,
            None => return tool_input_error("client_secret is required for direct mode".to_owned()),
        };
        ToolEffect::OAuthLoginFlow { mode: LoginMode::Direct { client_id: id, client_secret: secret } }
    } else {
        let mut m = chars_of("invalid mode \"");
        push_str(&mut m, mode_text.as_str());
        push_str(&mut m, "\": expected \"proxy\" (default) or \"direct\"");
        tool_input_error(string_from(m.as_slice()))
    }
}

// ---------------------------------------------------------------------------
// Resources and error lookup
// ---------------------------------------------------------------------------

/// One entry of the resource listing.
pub open spec fn resource_line(e: ResourceEntry) -> Seq<char> {
    "\n"@ + e.uri@ + " \u{2014} "@ + e.title@ + "\n  "@ + e.description@ + "\n"@
}

/// The resource lines, in order.
pub open spec fn resource_lines(es: Seq<ResourceEntry>) -> Seq<char>
    decreases es.len(),
{
    if es.len() == 0 {
        Seq::<char>::empty()
    } else {
        resource_lines(es.drop_last()) + resource_line(es.last())
    }
}

/// The resource listing.
pub open spec fn resource_listing(es: Seq<ResourceEntry>) -> Seq<char> {
    "Available resources ("@ + decimal(es.len()) + "):\n"@ + resource_lines(es)
}

/// Lists the resource documents.
pub fn call_list_resources(resources: &Vec<ResourceEntry>) -> (r: ToolOutput)
    ensures
        single_text(r, false, resource_listing(resources@)),
{
    let mut m = chars_of("Available resources (");
    push_all(&mut m, u64_to_decimal(resources.len() as u64).as_slice());
    push_str(&mut m, "):\n");
    let ghost head = m@;
    let mut i: usize = 0;
    assert(resources@.subrange(0, 0) =~= Seq::<ResourceEntry>::empty());
    assert(m@ =~= head + resource_lines(resources@.subrange(0, 0)));
    while i < resources.len()
        invariant
            0 <= i <= resources@.len(),
            m@ == head + resource_lines(resources@.subrange(0, i as int)),
        decreases resources@.len() - i,
    {
        proof {
            assert(resources@.subrange(0, i + 1).drop_last() =~= resources@.subrange(0, i as int));
        }
        let e = &resources[i];
        push_str(&mut m, "\n");
        push_str(&mut m, e.uri.as_str());
        push_str(&mut m, " \u{2014} ");
        push_str(&mut m, e.title.as_str());
        push_str(&mut m, "\n  ");
        push_str(&mut m, e.description.as_str());
        push_str(&mut m, "\n");
        assert(m@ =~= head + resource_lines(resources@.subrange(0, i + 1)));
        i = i + 1;
    }
    assert(resources@.subrange(0, resources@.len() as int) =~= resources@);
    ToolOutput { is_error: false, content: vec![ContentItem::Text(string_from(m.as_slice()))] }
}

/// The first resource with URI `uri`.
pub open spec fn resource_named(es: Seq<ResourceEntry>, uri: Seq<char>) -> Option<ResourceEntry>
    decreases es.len(),
{
    if es.len() == 0 {
        None
    } else if es[0].uri@ == uri {
        Some(es[0])
    } else {
        resource_named(es.drop_first(), uri)
    }
}

/// The URIs of the resources.
pub open spec fn resource_uris(es: Seq<ResourceEntry>) -> Seq<Seq<char>> {
    es.map_values(|e: ResourceEntry| e.uri@)
}

/// What reading a resource yields: its content, or a message listing the
/// known URIs.
pub open spec fn read_resource_outcome(uri: Seq<char>, es: Seq<ResourceEntry>, r: ToolOutput) -> bool {
    match resource_named(es, uri) {
        Some(e) => single_text(r, false, e.content@),
        None => single_text(
            r,
            true,
            "Resource not found: "@ + uri + ". Available URIs: "@ + join_texts(resource_uris(es), ", "@),
        ),
    }
}

/// Reads one resource document.
pub fn call_read_resource(input: &ReadResourceInput, resources: &Vec<ResourceEntry>) -> (r: ToolOutput)
    ensures
        read_resource_outcome(input.uri@, resources@, r),
{
    let mut i: usize = 0;
    assert(resources@.subrange(0, resources@.len() as int) =~= resources@);
    while i < resources.len()
        invariant
            0 <= i <= resources@.len(),
            resource_named(resources@, input.uri@) == resource_named(
                resources@.subrange(i as int, resources@.len() as int),
                input.uri@,
            ),
        decreases resources@.len() - i,
    {
        let ghost rest = resources@.subrange(i as int, resources@.len() as int);
        assert(rest.drop_first() =~= resources@.subrange(i + 1, resources@.len() as int));
        if str_eq(resources[i].uri.as_str(), input.uri.as_str()) {
            return ToolOutput {
                is_error: false,
                content: vec![ContentItem::Text(resources[i].content.clone())],
            };
        }
        i = i + 1;
    }
    let mut uris: Vec<String> = Vec::new();
    let mut k: usize = 0;
    while k < resources.len()
        invariant
            0 <= k <= resources@.len(),
            texts_view(uris@) =~= resource_uris(resources@).subrange(0, k as int),
        decreases resources@.len() - k,
    {
        let ghost before = uris@;
        uris.push(resources[k].uri.clone());
        proof {
            assert(texts_view(uris@) =~= texts_view(before).push(resources@[k as int].uri@));
            assert(resource_uris(resources@).subrange(0, k + 1) =~= resource_uris(resources@).subrange(
                0,
                k as int,
            ).push(resources@[k as int].uri@));
        }
        k = k + 1;
    }
    assert(resource_uris(resources@).subrange(0, resources@.len() as int) =~= resource_uris(resources@));
    let mut m = chars_of("Resource not found: ");
    push_str(&mut m, input.uri.as_str());
    push_str(&mut m, ". Available URIs: ");
    push_all(&mut m, join_strings(&uris, ", ").as_slice());
    ToolOutput { is_error: true, content: vec![ContentItem::Text(string_from(m.as_slice()))] }
}

/// The report line of one error name.
pub open spec fn error_line(name: Seq<char>, messages: Seq<(Seq<char>, Seq<char>)>) -> Seq<char> {
    match pair_value(messages, name) {
        Some(m) => name + ": "@ + m + "\n"@,
        None => name + ": (unknown \u{2014} not found in ErrorStringEnum)\n"@,
    }
}

/// The report lines of the error names, in order.
pub open spec fn error_lines(names: Seq<Seq<char>>, messages: Seq<(Seq<char>, Seq<char>)>) -> Seq<char>
    decreases names.len(),
{
    if names.len() == 0 {
        Seq::<char>::empty()
    } else {
        error_lines(names.drop_last(), messages) + error_line(names.last(), messages)
    }
}

/// Message for an error lookup without names.
pub open spec fn no_values_message() -> Seq<char> {
    "No enum values provided. Pass one or more ErrorStringEnum names (e.g., [\"FILLET_FAILED\", \"SWEEP_PATH_FAILED\"])."@
}

/// What the error lookup yields for names and a message table.
pub open spec fn error_lookup_outcome(
    names: Seq<Seq<char>>,
    messages: Seq<(Seq<char>, Seq<char>)>,
    r: ToolOutput,
) -> bool {
    if names.len() == 0 {
        single_text(r, true, no_values_message())
    } else {
        single_text(r, false, error_lines(names, messages))
    }
}

/// The message of error name `name`.
fn find_message<'a>(messages: &'a Vec<(String, String)>, name: &str) -> (r: Option<&'a String>)
    ensures
        match r {
            Some(v) => pair_value(pairs_view(messages@), name@) == Some(v@),
            None => pair_value(pairs_view(messages@), name@) is None,
        },
{
    let mut i: usize = 0;
    assert(messages@.subrange(0, messages@.len() as int) =~= messages@);
    while i < messages.len()
        invariant
            0 <= i <= messages@.len(),
            pair_value(pairs_view(messages@), name@) == pair_value(
                pairs_view(messages@.subrange(i as int, messages@.len() as int)),
                name@,
            ),
        decreases messages@.len() - i,
    {
        let ghost rest = pairs_view(messages@.subrange(i as int, messages@.len() as int));
        assert(rest.drop_first() =~= pairs_view(messages@.subrange(i + 1, messages@.len() as int)));
        if str_eq(messages[i].0.as_str(), name) {
            return Some(&messages[i].1);
        }
        i = i + 1;
    }
    None
}

/// Resolves `ErrorStringEnum` names to their messages.
pub fn call_error_lookup(input: &ErrorLookupInput, messages: &Vec<(String, String)>) -> (r: ToolOutput)
    ensures
        error_lookup_outcome(texts_view(input.values@), pairs_view(messages@), r),
{
    if input.values.len() == 0 {
        return ToolOutput {
            is_error: true,
            content: vec![
                ContentItem::Text(
                    "No enum values provided. Pass one or more ErrorStringEnum names (e.g., [\"FILLET_FAILED\", \"SWEEP_PATH_FAILED\"]).".to_owned(),
                ),
            ],
        };
    }
    let ghost names = texts_view(input.values@);
    let ghost ms = pairs_view(messages@);
    let mut out: Vec<char> = Vec::new();
    let mut i: usize = 0;
    assert(names.subrange(0, 0) =~= Seq::<Seq<char>>::empty());
    while i < input.values.len()
        invariant
            0 <= i <= input.values@.len(),
            names == texts_view(input.values@),
            ms == pairs_view(messages@),
            out@ == error_lines(names.subrange(0, i as int), ms),
        decreases input.values@.len() - i,
    {
        proof {
            assert(names.subrange(0, i + 1).drop_last() =~= names.subrange(0, i as int));
        }
        let name = input.values[i].as_str();
        let ghost before = out@;
        push_str(&mut out, name);
        match find_message(messages, name) {
            Some(m) => {
                push_str(&mut out, ": ");
                push_str(&mut out, m.as_str());
                push_str(&mut out, "\n");
            },
            None => {
                push_str(&mut out, ": (unknown \u{2014} not found in ErrorStringEnum)\n");
            },
        }
        assert(out@ =~= before + error_line(names[i as int], ms));
        i = i + 1;
    }
    assert(names.subrange(0, names.len() as int) =~= names);
    ToolOutput { is_error: false, content: vec![ContentItem::Text(string_from(out.as_slice()))] }
}

// ---------------------------------------------------------------------------
// Screenshots
// ---------------------------------------------------------------------------

/// Largest accepted image side, in pixels.
pub const MAX_SCREENSHOT_DIM: u32 = 4096;

/// `true` or `false`.
pub open spec fn bool_text(b: bool) -> Seq<char> {
    if b {
        "true"@
    } else {
        "false"@
    }
}

/// A parameter pair when a value is present.
pub open spec fn opt_param(name: Seq<char>, v: Option<Seq<char>>) -> Seq<(Seq<char>, Seq<char>)> {
    match v {
        Some(x) => seq![(name, x)],
        None => Seq::<(Seq<char>, Seq<char>)>::empty(),
    }
}

/// The decimal text of an optional number.
pub open spec fn opt_decimal(v: Option<u32>) -> Option<Seq<char>> {
    match v {
        Some(x) => Some(decimal(x as nat)),
        None => None,
    }
}

/// The text of an optional flag.
pub open spec fn opt_bool(v: Option<bool>) -> Option<Seq<char>> {
    match v {
        Some(b) => Some(bool_text(b)),
        None => None,
    }
}

/// The path parameters of a shaded-views request.
pub open spec fn screenshot_path_params(i: ScreenshotRequest) -> Seq<(Seq<char>, Seq<char>)> {
    seq![("did"@, i.did@), ("wvm"@, i.wvm@), ("wvmid"@, i.wvmid@), ("eid"@, i.eid@)]
}

/// The query parameters of a shaded-views request: the view matrix, an
/// automatic pixel size, then the options that were given.
pub open spec fn screenshot_query(i: ScreenshotRequest) -> Seq<(Seq<char>, Seq<char>)> {
    seq![("viewMatrix"@, i.view_matrix@), ("pixelSize"@, "0"@)] + opt_param(
        "outputHeight"@,
        opt_decimal(i.output_height),
    ) + opt_param("outputWidth"@, opt_decimal(i.output_width)) + opt_param(
        "edges"@,
        openapi::opt_string(i.edges),
    ) + opt_param("useAntiAliasing"@, opt_bool(i.use_anti_aliasing)) + opt_param(
        "showAllParts"@,
        opt_bool(i.show_all_parts),
    ) + opt_param("includeSurfaces"@, opt_bool(i.include_surfaces)) + opt_param(
        "includeWires"@,
        opt_bool(i.include_wires),
    )
}

/// Whether an optional image side is in range.
pub open spec fn dim_ok(d: Option<u32>) -> bool {
    match d {
        Some(x) => 1 <= x && x <= MAX_SCREENSHOT_DIM,
        None => true,
    }
}

/// The first problem with a screenshot request, checking in order the
/// edges option, the context kind, the three IDs, and the image height and
/// width.
pub open spec fn screenshot_problem(i: ScreenshotRequest) -> Option<Seq<char>> {
    if i.edges matches Some(e) && e@ != "show"@ && e@ != "hide"@ {
        Some("invalid edges value \""@ + i.edges->0@ + "\": expected \"show\" or \"hide\""@)
    } else if !(i.wvm@ == "w"@ || i.wvm@ == "v"@ || i.wvm@ == "m"@) {
        Some("invalid wvm value \""@ + i.wvm@ + "\": expected \"w\", \"v\", or \"m\""@)
    } else if trim(i.did@).len() == 0 {
        Some("did must not be empty"@)
    } else if trim(i.wvmid@).len() == 0 {
        Some("wvmid must not be empty"@)
    } else if trim(i.eid@).len() == 0 {
        Some("eid must not be empty"@)
    } else if !dim_ok(i.output_height) {
        Some("invalid output_height "@ + decimal(i.output_height->0 as nat) + ": expected 1..=4096"@)
    } else if !dim_ok(i.output_width) {
        Some("invalid output_width "@ + decimal(i.output_width->0 as nat) + ": expected 1..=4096"@)
    } else {
        None
    }
}

/// What the screenshot tool yields: the first problem with the request, or
/// with its output path, or with building the request, is reported; a
/// valid request is sent with the output path, label and view matrix kept
/// for the response.
pub open spec fn screenshot_call_outcome(i: ScreenshotRequest, spec: OpenApiSpec, r: ToolEffect) -> bool {
    match screenshot_problem(i) {
        Some(m) => is_input_error(r, m),
        None => match file_path_check(i.output_path@) {
            Err(m) => is_input_error(r, m),
            Ok(p) => {
                let pp = screenshot_path_params(i);
                let qp = screenshot_query(i);
                let e = spec.lookup("getPartStudioShadedViews"@);
                match build_error(e, "getPartStudioShadedViews"@, pp, qp) {
                    Some(m) => is_input_error(r, "failed to build shaded views request: "@ + m),
                    None => r matches ToolEffect::ApiRequest {
                        request: q,
                        continuation: Continuation::ProcessScreenshotResponse {
                            output_path,
                            label,
                            view_matrix,
                        },
                    } && request_for(q, e->0, pp, qp, Seq::<(Seq<char>, Seq<char>)>::empty(), None)
                        && output_path@ == p && label == i.view_label && view_matrix
                        == i.view_matrix,
                }
            },
        },
    }
}

/// Appends `(name, value)`.
fn push_param(v: &mut Vec<(String, String)>, name: &str, value: String)
    ensures
        pairs_view(final(v)@) == pairs_view(old(v)@).push((name@, value@)),
{
    let ghost before = pairs_view(v@);
    v.push((name.to_owned(), value));
    assert(pairs_view(v@) =~= before.push((name@, value@)));
}

/// `true` or `false`.
fn bool_string(b: bool) -> (r: String)
    ensures
        r@ == bool_text(b),
{
    if b {
        "true".to_owned()
    } else {
        "false".to_owned()
    }
}

/// Finds the first problem with a screenshot request.
fn check_screenshot(input: &ScreenshotRequest) -> (r: Option<String>)
    ensures
        match screenshot_problem(*input) {
            Some(m) => r matches Some(x) && x@ == m,
            None => r is None,
        },
{
    if let Some(e) = &input.edges {
        if !str_eq(e.as_str(), "show") && !str_eq(e.as_str(), "hide") {
            let mut m = chars_of("invalid edges value \"");
            push_str(&mut m, e.as_str());
            push_str(&mut m, "\": expected \"show\" or \"hide\"");
            return Some(string_from(m.as_slice()));
        }
    }
    let w = input.wvm.as_str();
    if !(str_eq(w, "w") || str_eq(w, "v") || str_eq(w, "m")) {
        let mut m = chars_of("invalid wvm value \"");
        push_str(&mut m, w);
        push_str(&mut m, "\": expected \"w\", \"v\", or \"m\"");
        return Some(string_from(m.as_slice()));
    }
    if is_blank(input.did.as_str()) {
        return Some("did must not be empty".to_owned());
    }
    if is_blank(input.wvmid.as_str()) {
        return Some("wvmid must not be empty".to_owned());
    }
    if is_blank(input.eid.as_str()) {
        return Some("eid must not be empty".to_owned());
    }
    if let Some(h) = input.output_height {
        if h == 0 || h > MAX_SCREENSHOT_DIM {
            let mut m = chars_of("invalid output_height ");
            push_all(&mut m, u64_to_decimal(h as u64).as_slice());
            push_str(&mut m, ": expected 1..=4096");
            return Some(string_from(m.as_slice()));
        }
    }
    if let Some(wd) = input.output_width {
        if wd == 0 || wd > MAX_SCREENSHOT_DIM {
            let mut m = chars_of("invalid output_width ");
            push_all(&mut m, u64_to_decimal(wd as u64).as_slice());
            push_str(&mut m, ": expected 1..=4096");
            return Some(string_from(m.as_slice()));
        }
    }
    None
}

/// Appends `(name, value)` when a value is present.
fn push_opt_param(v: &mut Vec<(String, String)>, name: &str, value: Option<String>)
    ensures
        pairs_view(final(v)@) == pairs_view(old(v)@) + opt_param(name@, openapi::opt_string(value)),
{
    let ghost before = pairs_view(v@);
    match value {
        Some(x) => {
            push_param(v, name, x);
            assert(pairs_view(v@) =~= before + opt_param(name@, openapi::opt_string(Some(x))));
        },
        None => {
            assert(pairs_view(v@) =~= before + opt_param(name@, openapi::opt_string(None)));
        },
    }
}

/// The query parameters of a shaded-views request.
fn screenshot_query_params(input: &ScreenshotRequest) -> (r: Vec<(String, String)>)
    ensures
        pairs_view(r@) == screenshot_query(*input),
{
    let mut query: Vec<(String, String)> = Vec::new();
    assert(pairs_view(query@) =~= Seq::<(Seq<char>, Seq<char>)>::empty());
    push_param(&mut query, "viewMatrix", input.view_matrix.clone());
    push_param(&mut query, "pixelSize", "0".to_owned());
    assert(pairs_view(query@) =~= seq![("viewMatrix"@, input.view_matrix@), ("pixelSize"@, "0"@)]);
    let height = match input.output_height {
        Some(h) => Some(string_from(u64_to_decimal(h as u64).as_slice())),
        None => None,
    };
    push_opt_param(&mut query, "outputHeight", height);
    let width = match input.output_width {
        Some(h) => Some(string_from(u64_to_decimal(h as u64).as_slice())),
        None => None,
    };
    push_opt_param(&mut query, "outputWidth", width);
    let edges = match &input.edges {
        Some(e) => Some(e.clone()),
        None => None,
    };
    push_opt_param(&mut query, "edges", edges);
    let aa = match input.use_anti_aliasing {
        Some(b) => Some(bool_string(b)),
        None => None,
    };
    push_opt_param(&mut query, "useAntiAliasing", aa);
    let sap = match input.show_all_parts {
        Some(b) => Some(bool_string(b)),
        None => None,
    };
    push_opt_param(&mut query, "showAllParts", sap);
    let surfaces = match input.include_surfaces {
        Some(b) => Some(bool_string(b)),
        None => None,
    };
    push_opt_param(&mut query, "includeSurfaces", surfaces);
    let wires = match input.include_wires {
        Some(b) => Some(bool_string(b)),
        None => None,
    };
    push_opt_param(&mut query, "includeWires", wires);
    proof {
        assert(openapi::opt_string(height) == opt_decimal(input.output_height));
        assert(openapi::opt_string(width) == opt_decimal(input.output_width));
        assert(openapi::opt_string(aa) == opt_bool(input.use_anti_aliasing));
        assert(openapi::opt_string(sap) == opt_bool(input.show_all_parts));
        assert(openapi::opt_string(surfaces) == opt_bool(input.include_surfaces));
        assert(openapi::opt_string(wires) == opt_bool(input.include_wires));
    }
    query
}

/// The screenshot tool: checks the request and asks for the shaded view.
pub fn call_screenshot(input: ScreenshotRequest, spec: &OpenApiSpec) -> (r: ToolEffect)
    ensures
        screenshot_call_outcome(input, *spec, r),
{
    if let Some(m) = check_screenshot(&input) {
        return tool_input_error(m);
    }
    let mut path_params: Vec<(String, String)> = Vec::new();
    assert(pairs_view(path_params@) =~= Seq::<(Seq<char>, Seq<char>)>::empty());
    push_param(&mut path_params, "did", input.did.clone());
    push_param(&mut path_params, "wvm", input.wvm.clone());
    push_param(&mut path_params, "wvmid", input.wvmid.clone());
    push_param(&mut path_params, "eid", input.eid.clone());
    assert(pairs_view(path_params@) =~= screenshot_path_params(input));
    let query = screenshot_query_params(&input);
    let output_path = match validate_file_path(input.output_path.as_str()) {
        Ok(p) => p,
        Err(m) => return tool_input_error(m),
    };
    let request = match spec.build_request("getPartStudioShadedViews", &path_params, &query, None) {
        Ok(req) => req,
        Err(e) => {
            let mut m = chars_of("failed to build shaded views request: ");
            push_str(&mut m, e.message().as_str());
            return tool_input_error(string_from(m.as_slice()));
        },
    };
    let headers: Vec<(String, String)> = Vec::new();
    assert(pairs_view(headers@) =~= Seq::<(Seq<char>, Seq<char>)>::empty());
    let request = to_client_request(request, headers);
    ToolEffect::ApiRequest {
        request,
        continuation: Continuation::ProcessScreenshotResponse {
            output_path,
            label: input.view_label,
            view_matrix: input.view_matrix,
        },
    }
}

// ---------------------------------------------------------------------------
// Dispatch
// ---------------------------------------------------------------------------

/// The typed input of a tool call, as the host decoded the call's
/// arguments for the named tool.
#[derive(Debug, PartialEq)]
pub enum ToolInput {
    /// The tool takes no input (or its input is ignored).
    Empty,
    /// Input of `onshape_auth_status`.
    AuthStatus(AuthStatusInput),
    /// Input of `onshape_auth_login`.
    AuthLogin(AuthLoginInput),
    /// Input of `onshape_api_search`.
    ApiSearch(ApiSearchInput),
    /// Input of `onshape_api_explain`.
    ApiExplain(ApiExplainInput),
    /// Input of `onshape_api_call`.
    ApiCall(ApiCallInput),
    /// Input of `onshape_read_resource`.
    ReadResource(ReadResourceInput),
    /// Input of `onshape_error_lookup`.
    ErrorLookup(ErrorLookupInput),
    /// Input of `onshape_screenshot`.
    Screenshot(ScreenshotRequest),
    /// The arguments did not decode into the tool's input; the decoder's
    /// message.
    Invalid(String),
}

/// Whether the decoded input is of the kind that tool `name` takes.
pub open spec fn input_fits(name: Seq<char>, input: ToolInput) -> bool {
    input is Invalid || if name == "onshape_auth_status"@ {
        input is AuthStatus
    } else if name == "onshape_auth_login"@ {
        input is AuthLogin
    } else if name == "onshape_api_search"@ {
        input is ApiSearch
    } else if name == "onshape_api_explain"@ {
        input is ApiExplain
    } else if name == "onshape_api_call"@ {
        input is ApiCall
    } else if name == "onshape_read_resource"@ {
        input is ReadResource
    } else if name == "onshape_error_lookup"@ {
        input is ErrorLookup
    } else if name == "onshape_screenshot"@ {
        input is Screenshot
    } else {
        true
    }
}

/// Whether the catalogue is missing, as a protocol error reports it.
pub open spec fn not_loaded(r: ToolEffect) -> bool {
    r matches ToolEffect::Done(Err(e)) && e.code == INTERNAL_ERROR && e.message@
        == "OpenAPI spec not loaded"@
}

/// The model of an optional catalogue reference.
pub open spec fn opt_spec(spec: Option<&OpenApiSpec>) -> Option<OpenApiSpec> {
    match spec {
        Some(s) => Some(*s),
        None => None,
    }
}

/// Whether a search call can run (see `search_allowed`).
pub open spec fn call_allowed(name: Seq<char>, input: ToolInput, spec: Option<OpenApiSpec>) -> bool {
    (name == "onshape_api_search"@ && spec is Some && input is ApiSearch) ==> crate::tools::api::search_allowed(
        input->ApiSearch_0,
        spec->0,
    )
}

/// What the schema lookup tool reports: this server lists the tool but has
/// no schema lookup for its catalogue.
pub open spec fn schema_unavailable_message() -> Seq<char> {
    "onshape_api_schema is unavailable: this server has no schema lookup for its API catalogue; use onshape_api_explain for an endpoint's request and response schemas"@
}

/// What a tool call yields, by tool name. Tools that need the catalogue
/// report its absence first; the schema lookup tool is then reported as
/// unavailable; then an input that did not decode is reported to the
/// caller; then the tool runs. An unknown name is a protocol error.
pub open spec fn call_tool_outcome(
    name: Seq<char>,
    input: ToolInput,
    resolved: ResolvedAuth,
    validation: ValidationState,
    spec: Option<OpenApiSpec>,
    resources: Seq<ResourceEntry>,
    messages: Seq<(Seq<char>, Seq<char>)>,
    now: UtcTime,
    r: ToolEffect,
) -> bool {
    let needs_spec = name == "onshape_api_search"@ || name == "onshape_api_explain"@ || name
        == "onshape_api_call"@ || name == "onshape_screenshot"@ || name == "onshape_api_schema"@;
    if name == "onshape_mcp_get_started"@ {
        r matches ToolEffect::Done(Ok(out)) && single_text(out, false, instructions_text())
    } else if name == "onshape_list_resources"@ {
        r matches ToolEffect::Done(Ok(out)) && single_text(out, false, resource_listing(resources))
    } else if !(name == "onshape_auth_status"@ || name == "onshape_auth_login"@ || needs_spec || name
        == "onshape_read_resource"@ || name == "onshape_error_lookup"@) {
        r matches ToolEffect::Done(Err(e)) && e.code == METHOD_NOT_FOUND && e.message@
            == "Unknown tool: "@ + name
    } else if needs_spec && spec is None {
        not_loaded(r)
    } else if name == "onshape_api_schema"@ {
        is_input_error(r, schema_unavailable_message())
    } else {
        match input {
            ToolInput::Invalid(m) => is_input_error(r, m@),
            ToolInput::AuthStatus(i) => auth_status_outcome(i, resolved, validation, spec, now, r),
            ToolInput::AuthLogin(i) => login_outcome(i, r),
            ToolInput::ApiSearch(i) => r matches ToolEffect::Done(res) && search_outcome(
                i,
                spec->0,
                res,
            ),
            ToolInput::ApiExplain(i) => r matches ToolEffect::Done(res) && detail_outcome(
                i,
                spec->0,
                res,
            ),
            ToolInput::ApiCall(i) => call_outcome(i, spec->0, r),
            ToolInput::ReadResource(i) => r matches ToolEffect::Done(Ok(out)) && read_resource_outcome(
                i.uri@,
                resources,
                out,
            ),
            ToolInput::ErrorLookup(i) => r matches ToolEffect::Done(Ok(out)) && error_lookup_outcome(
                texts_view(i.values@),
                messages,
                out,
            ),
            ToolInput::Screenshot(i) => screenshot_call_outcome(i, spec->0, r),
            ToolInput::Empty => false,
        }
    }
}

/// Dispatches a tool call by name. `resolved_auth` and `validation` are the
/// current credential configuration and validation state, `spec` the API
/// catalogue if loaded, `resources` the guidance documents, `messages` the
/// FeatureScript error messages, and `now` the current time.
pub fn call_tool(
    name: &str,
    input: ToolInput,
    resolved_auth: &ResolvedAuth,
    validation: &ValidationState,
    spec: Option<&OpenApiSpec>,
    resources: &Vec<ResourceEntry>,
    messages: &Vec<(String, String)>,
    now: UtcTime,
) -> (r: ToolEffect)
    requires
        input_fits(name@, input),
        call_allowed(name@, input, opt_spec(spec)),
    ensures
        call_tool_outcome(
            name@,
            input,
            *resolved_auth,
            *validation,
            opt_spec(spec),
            resources@,
            pairs_view(messages@),
            now,
            r,
        ),
{
    if str_eq(name, "onshape_mcp_get_started") {
        return ToolEffect::Done(
            Ok(ToolOutput { is_error: false, content: vec![ContentItem::Text(instructions())] }),
        );
    }
    if str_eq(name, "onshape_list_resources") {
        return ToolEffect::Done(Ok(call_list_resources(resources)));
    }
    let needs_spec = str_eq(name, "onshape_api_search") || str_eq(name, "onshape_api_explain")
        || str_eq(name, "onshape_api_call") || str_eq(name, "onshape_screenshot")
        || str_eq(name, "onshape_api_schema");
    let known = needs_spec || str_eq(name, "onshape_auth_status") || str_eq(name, "onshape_auth_login")
        || str_eq(name, "onshape_read_resource") || str_eq(name, "onshape_error_lookup");
    if !known {
        let mut m = chars_of("Unknown tool: ");
        push_str(&mut m, name);
        return ToolEffect::Done(
            Err(ProtocolError { code: METHOD_NOT_FOUND, message: string_from(m.as_slice()) }),
        );
    }
    if needs_spec && spec.is_none() {
        return ToolEffect::Done(
            Err(ProtocolError { code: INTERNAL_ERROR, message: "OpenAPI spec not loaded".to_owned() }),
        );
    }
    if str_eq(name, "onshape_api_schema") {
        return tool_input_error(
            "onshape_api_schema is unavailable: this server has no schema lookup for its API catalogue; use onshape_api_explain for an endpoint's request and response schemas".to_owned(),
        );
    }
    match input {
        ToolInput::Invalid(m) => tool_input_error(m),
        ToolInput::AuthStatus(i) => call_auth_status(&i, resolved_auth, validation, spec, now),
        ToolInput::AuthLogin(i) => call_auth_login(i),
        ToolInput::ApiSearch(i) => match spec {
            Some(s) => ToolEffect::Done(call_api_search(&i, s)),
            None => tool_input_error(String::new()),
        },
        ToolInput::ApiExplain(i) => match spec {
            Some(s) => ToolEffect::Done(call_api_explain(&i, s)),
            None => tool_input_error(String::new()),
        },
        ToolInput::ApiCall(i) => match spec {
            Some(s) => call_api_call(i, s),
            None => tool_input_error(String::new()),
        },
        ToolInput::ReadResource(i) => ToolEffect::Done(Ok(call_read_resource(&i, resources))),
        ToolInput::ErrorLookup(i) => ToolEffect::Done(Ok(call_error_lookup(&i, messages))),
        ToolInput::Screenshot(i) => match spec {
            Some(s) => call_screenshot(i, s),
            None => tool_input_error(String::new()),
        },
        ToolInput::Empty => tool_input_error(String::new()),
    }
}


/// Every shaded-view request carries the view matrix first and a pixel size
/// of 0 next, and only requests whose image sizes lie within 1 to 4096
/// pixels are sent.
pub proof fn lemma_screenshot_query(i: ScreenshotRequest)
    ensures
        screenshot_query(i)[0] == ("viewMatrix"@, i.view_matrix@),
        screenshot_query(i)[1] == ("pixelSize"@, "0"@),
        screenshot_problem(i) is None ==> dim_ok(i.output_height) && dim_ok(i.output_width),
{
}

/// The names of a parameter list.
pub open spec fn param_names(s: Seq<(Seq<char>, Seq<char>)>) -> Seq<Seq<char>> {
    s.map_values(|p: (Seq<char>, Seq<char>)| p.0)
}

proof fn lemma_option_sent_once(
    pre: Seq<(Seq<char>, Seq<char>)>,
    name: Seq<char>,
    v: Option<Seq<char>>,
    post: Seq<(Seq<char>, Seq<char>)>,
)
    requires
        !param_names(pre).contains(name),
        !param_names(post).contains(name),
    ensures
        v matches Some(x) ==> (pre + opt_param(name, v) + post).contains((name, x)),
        forall|k: int|
            0 <= k < (pre + opt_param(name, v) + post).len() && (#[trigger] (pre + opt_param(
                name,
                v,
            ) + post)[k]).0 == name ==> (v matches Some(x) && (pre + opt_param(name, v) + post)[k].1 == x),
{
    let q = pre + opt_param(name, v) + post;
    let m = opt_param(name, v);
    if let Some(x) = v {
        assert(q[pre.len() as int] == (name, x));
    }
    assert forall|k: int| 0 <= k < q.len() && (#[trigger] q[k]).0 == name implies (v matches Some(x) && q[k].1
        == x) by {
        if k < pre.len() {
            assert(param_names(pre)[k] == name);
        } else if k < pre.len() + m.len() {
            assert(q[k] == m[k - pre.len()]);
        } else {
            assert(q[k] == post[k - pre.len() - m.len()]);
            assert(param_names(post)[k - pre.len() - m.len()] == name);
        }
    }
}

proof fn lemma_names_of_option(name: Seq<char>, v: Option<Seq<char>>, other: Seq<char>)
    requires
        name != other,
    ensures
        !param_names(opt_param(name, v)).contains(other),
{
    if param_names(opt_param(name, v)).contains(other) {
        let k = choose|k: int| 0 <= k < param_names(opt_param(name, v)).len() && param_names(opt_param(name, v))[k] == other;
        assert(param_names(opt_param(name, v))[k] == name);
    }
}

proof fn lemma_names_concat(a: Seq<(Seq<char>, Seq<char>)>, b: Seq<(Seq<char>, Seq<char>)>, n: Seq<char>)
    requires
        !param_names(a).contains(n),
        !param_names(b).contains(n),
    ensures
        !param_names(a + b).contains(n),
{
    if param_names(a + b).contains(n) {
        let k = choose|k: int| 0 <= k < param_names(a + b).len() && param_names(a + b)[k] == n;
        if k < a.len() {
            assert(param_names(a)[k] == n);
        } else {
            assert(param_names(b)[k - a.len()] == n);
        }
    }
}

/// Each surface and wire option of a screenshot is sent under its own name
/// with its own value: when `include_surfaces` is given, the query holds
/// `includeSurfaces` with `true` or `false` as given, and every query entry
/// of that name holds that value; likewise `include_wires` under
/// `includeWires`. An option not given is not sent.
pub proof fn lemma_screenshot_options_sent_by_name(i: ScreenshotRequest)
    ensures
        i.include_surfaces matches Some(b) ==> screenshot_query(i).contains(
            ("includeSurfaces"@, if b { "true"@ } else { "false"@ }),
        ),
        i.include_wires matches Some(b) ==> screenshot_query(i).contains(
            ("includeWires"@, if b { "true"@ } else { "false"@ }),
        ),
        forall|k: int|
            0 <= k < screenshot_query(i).len() && (#[trigger] screenshot_query(i)[k]).0 == "includeSurfaces"@
                ==> (i.include_surfaces matches Some(b) && screenshot_query(i)[k].1 == (if b {
                "true"@
            } else {
                "false"@
            })),
        forall|k: int|
            0 <= k < screenshot_query(i).len() && (#[trigger] screenshot_query(i)[k]).0 == "includeWires"@
                ==> (i.include_wires matches Some(b) && screenshot_query(i)[k].1 == (if b {
                "true"@
            } else {
                "false"@
            })),
{
    reveal_strlit("viewMatrix");
    reveal_strlit("pixelSize");
    reveal_strlit("outputHeight");
    reveal_strlit("outputWidth");
    reveal_strlit("edges");
    reveal_strlit("useAntiAliasing");
    reveal_strlit("showAllParts");
    reveal_strlit("includeSurfaces");
    reveal_strlit("includeWires");
    let s = "includeSurfaces"@;
    let w = "includeWires"@;
    let head = seq![("viewMatrix"@, i.view_matrix@), ("pixelSize"@, "0"@)];
    let oh = opt_param("outputHeight"@, opt_decimal(i.output_height));
    let ow = opt_param("outputWidth"@, opt_decimal(i.output_width));
    let ed = opt_param("edges"@, openapi::opt_string(i.edges));
    let aa = opt_param("useAntiAliasing"@, opt_bool(i.use_anti_aliasing));
    let sp = opt_param("showAllParts"@, opt_bool(i.show_all_parts));
    let isf = opt_param(s, opt_bool(i.include_surfaces));
    let iw = opt_param(w, opt_bool(i.include_wires));
    let pre = head + oh + ow + ed + aa + sp;
    assert(s.len() == 15 && w.len() == 12 && "viewMatrix"@.len() == 10 && "pixelSize"@.len() == 9);
    assert(s[0] == 'i' && "useAntiAliasing"@[0] == 'u' && "useAntiAliasing"@.len() == 15);
    assert(w[0] == 'i' && "showAllParts"@[0] == 's' && "showAllParts"@.len() == 12);
    assert(s != w && s != "useAntiAliasing"@ && w != "showAllParts"@);
    assert(param_names(head) =~= seq!["viewMatrix"@, "pixelSize"@]);
    assert(!param_names(head).contains(s) && !param_names(head).contains(w)) by {
        assert(param_names(head)[0] != s && param_names(head)[1] != s);
        assert(param_names(head)[0] != w && param_names(head)[1] != w);
    }
    lemma_names_of_option("outputHeight"@, opt_decimal(i.output_height), s);
    lemma_names_of_option("outputWidth"@, opt_decimal(i.output_width), s);
    lemma_names_of_option("edges"@, openapi::opt_string(i.edges), s);
    lemma_names_of_option("useAntiAliasing"@, opt_bool(i.use_anti_aliasing), s);
    lemma_names_of_option("showAllParts"@, opt_bool(i.show_all_parts), s);
    lemma_names_of_option("outputHeight"@, opt_decimal(i.output_height), w);
    lemma_names_of_option("outputWidth"@, opt_decimal(i.output_width), w);
    lemma_names_of_option("edges"@, openapi::opt_string(i.edges), w);
    lemma_names_of_option("useAntiAliasing"@, opt_bool(i.use_anti_aliasing), w);
    lemma_names_of_option("showAllParts"@, opt_bool(i.show_all_parts), w);
    lemma_names_of_option(s, opt_bool(i.include_surfaces), w);
    lemma_names_of_option(w, opt_bool(i.include_wires), s);
    lemma_names_concat(head, oh, s);
    lemma_names_concat(head + oh, ow, s);
    lemma_names_concat(head + oh + ow, ed, s);
    lemma_names_concat(head + oh + ow + ed, aa, s);
    lemma_names_concat(head + oh + ow + ed + aa, sp, s);
    lemma_names_concat(head, oh, w);
    lemma_names_concat(head + oh, ow, w);
    lemma_names_concat(head + oh + ow, ed, w);
    lemma_names_concat(head + oh + ow + ed, aa, w);
    lemma_names_concat(head + oh + ow + ed + aa, sp, w);
    lemma_names_concat(pre, isf, w);
    let q = screenshot_query(i);
    assert(q =~= pre + isf + iw);
    lemma_option_sent_once(pre, s, opt_bool(i.include_surfaces), iw);
    lemma_option_sent_once(pre + isf, w, opt_bool(i.include_wires), Seq::empty());
    assert(pre + isf + iw + Seq::<(Seq<char>, Seq<char>)>::empty() =~= q);
    assert(!param_names(Seq::<(Seq<char>, Seq<char>)>::empty()).contains(w));
}

} // verus!
