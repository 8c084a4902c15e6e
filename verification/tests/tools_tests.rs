use base64::Engine as _;
use onshape_core::auth::AuthMethod;
use onshape_core::config::ResolvedAuth;
use onshape_core::json::{get, Json, JsonNumber};
use onshape_core::openapi::OpenApiSpec;
use onshape_core::request::{ApiRequest, HttpMethod, MultipartBody, RequestBody};
use onshape_core::status::{AuthStatus, ValidationState, ValidationStatus};
use onshape_core::time::UtcTime;
use onshape_core::tools::api::{ApiCallInput, ApiExplainInput, ApiSearchInput, CallBody};
use onshape_core::tools::dispatch::{
    call_tool, AuthLoginInput, AuthStatusInput, ErrorLookupInput, ReadResourceInput,
    ResourceEntry, ScreenshotRequest, ToolInput, DEFAULT_PROXY_URL,
};
use onshape_core::tools::resume::{format_screenshot_result, resume};
use onshape_core::tools::{
    ContentItem, Continuation, FileEncoding, FileRead, FileReadResult, FileReference, FileWrite,
    FileWriteResult, IoResult, LoginMode, ProtocolError, SideEffect, ToolEffect, ToolOutput,
    INTERNAL_ERROR, INVALID_PARAMS, METHOD_NOT_FOUND,
};

fn to_json(v: &serde_json::Value) -> Json {
    match v {
        serde_json::Value::Null => Json::Null,
        serde_json::Value::Bool(b) => Json::Bool(*b),
        serde_json::Value::Number(n) => {
            if let Some(u) = n.as_u64() {
                Json::Number(JsonNumber::PosInt(u))
            } else if let Some(i) = n.as_i64() {
                Json::Number(JsonNumber::NegInt(i))
            } else {
                Json::Number(JsonNumber::Float(n.to_string()))
            }
        }
        serde_json::Value::String(s) => Json::String(s.clone()),
        serde_json::Value::Array(items) => Json::Array(items.iter().map(to_json).collect()),
        serde_json::Value::Object(map) => Json::Object(
            map.iter()
                .map(|(k, v)| (k.clone(), to_json(v)))
                .collect(),
        ),
    }
}

fn parse(text: &str) -> Json {
    to_json(&serde_json::from_str::<serde_json::Value>(text).expect("test JSON should parse"))
}

fn parsed(text: &str) -> Result<Json, String> {
    serde_json::from_str::<serde_json::Value>(text)
        .map(|v| to_json(&v))
        .map_err(|e| e.to_string())
}

fn spec_from(text: &str) -> OpenApiSpec {
    OpenApiSpec::from_value(&parse(text)).expect("test spec should parse")
}

fn test_spec() -> OpenApiSpec {
    spec_from(
        r#"{
                "openapi": "3.0.1",
                "info": { "title": "Test API", "version": "1.0" },
                "servers": [{ "url": "https://example.com/api/v1" }],
                "paths": {
                    "/documents": {
                        "get": {
                            "operationId": "getDocuments",
                            "summary": "List documents",
                            "tags": ["Document"],
                            "parameters": [
                                {
                                    "name": "q",
                                    "in": "query",
                                    "required": false,
                                    "schema": { "type": "string" },
                                    "description": "Search query"
                                }
                            ],
                            "responses": { "200": {} }
                        }
                    },
                    "/documents/{did}": {
                        "get": {
                            "operationId": "getDocument",
                            "summary": "Get document by ID",
                            "tags": ["Document"],
                            "parameters": [
                                {
                                    "name": "did",
                                    "in": "path",
                                    "required": true,
                                    "schema": { "type": "string" },
                                    "description": "Document ID"
                                }
                            ],
                            "responses": { "200": {} }
                        }
                    },
                    "/documents/search": {
                        "post": {
                            "operationId": "searchDocuments",
                            "summary": "Search documents",
                            "tags": ["Document"],
                            "requestBody": {
                                "content": {
                                    "application/json;charset=UTF-8; qs=0.09": {
                                        "schema": {
                                            "type": "object",
                                            "properties": {
                                                "rawQuery": { "type": "string" },
                                                "limit": { "type": "integer" }
                                            }
                                        }
                                    }
                                },
                                "required": true
                            },
                            "responses": { "200": {} }
                        }
                    }
                },
                "components": { "schemas": {} }
            }"#,
    )
}

fn test_spec_with_session_info() -> OpenApiSpec {
    spec_from(
        r#"{
                "openapi": "3.0.1",
                "info": { "title": "Test API", "version": "1.0" },
                "servers": [{ "url": "https://cad.onshape.com/api/v1" }],
                "paths": {
                    "/users/sessioninfo": {
                        "get": {
                            "operationId": "sessionInfo",
                            "summary": "Get current user session info",
                            "tags": ["User"],
                            "parameters": [],
                            "responses": { "200": {} }
                        }
                    }
                },
                "components": { "schemas": {} }
            }"#,
    )
}

fn screenshot_spec() -> OpenApiSpec {
    spec_from(
        r#"{
                "openapi": "3.0.1",
                "info": { "title": "Test API", "version": "1.0" },
                "servers": [{ "url": "https://cad.onshape.com/api/v1" }],
                "paths": {
                    "/partstudios/d/{did}/{wvm}/{wvmid}/e/{eid}/shadedviews": {
                        "get": {
                            "operationId": "getPartStudioShadedViews",
                            "summary": "Get shaded views",
                            "tags": ["PartStudio"],
                            "parameters": [
                                {"name":"did","in":"path","required":true,"schema":{"type":"string"}},
                                {"name":"wvm","in":"path","required":true,"schema":{"type":"string"}},
                                {"name":"wvmid","in":"path","required":true,"schema":{"type":"string"}},
                                {"name":"eid","in":"path","required":true,"schema":{"type":"string"}},
                                {"name":"viewMatrix","in":"query","schema":{"type":"string"}},
                                {"name":"outputHeight","in":"query","schema":{"type":"integer"}},
                                {"name":"outputWidth","in":"query","schema":{"type":"integer"}},
                                {"name":"pixelSize","in":"query","schema":{"type":"number"}},
                                {"name":"edges","in":"query","schema":{"type":"string"}},
                                {"name":"useAntiAliasing","in":"query","schema":{"type":"boolean"}},
                                {"name":"showAllParts","in":"query","schema":{"type":"boolean"}},
                                {"name":"includeSurfaces","in":"query","schema":{"type":"boolean"}},
                                {"name":"includeWires","in":"query","schema":{"type":"boolean"}}
                            ],
                            "responses": { "200": {} }
                        }
                    }
                },
                "components": { "schemas": {} }
            }"#,
    )
}

fn now() -> UtcTime {
    UtcTime::from_unix(1_750_000_000, 0)
}

fn default_validation() -> ValidationState {
    ValidationState::default()
}

fn not_configured() -> ResolvedAuth {
    ResolvedAuth::NotConfigured {
        configured_method: AuthMethod::Auto,
        detail: "No credentials configured".into(),
    }
}

fn basic_ready() -> ResolvedAuth {
    ResolvedAuth::Basic
}

/// Guidance documents used as fixtures by the resource tools.
fn resources() -> Vec<ResourceEntry> {
    vec![
        ResourceEntry {
            uri: "insights:shaded-views".to_string(),
            title: "Shaded Views".to_string(),
            description: "How to render Part Studio images".to_string(),
            content: "# Part Studio Shaded Views\n\nSet pixelSize to 0.".to_string(),
        },
        ResourceEntry {
            uri: "insights:sketch".to_string(),
            title: "Sketches".to_string(),
            description: "Sketch tips".to_string(),
            content: "# Sketches".to_string(),
        },
    ]
}

/// FeatureScript error messages used as fixtures by the error lookup tool.
fn messages() -> Vec<(String, String)> {
    vec![
        ("FILLET_FAILED".to_string(), "Failed to fillet.".to_string()),
        ("SWEEP_PATH_FAILED".to_string(), "Sweep path failed.".to_string()),
    ]
}

fn call(
    name: &str,
    input: ToolInput,
    auth: &ResolvedAuth,
    validation: &ValidationState,
    spec: Option<&OpenApiSpec>,
) -> ToolEffect {
    call_tool(name, input, auth, validation, spec, &resources(), &messages(), now())
}

fn status_input(validate: Option<bool>) -> ToolInput {
    ToolInput::AuthStatus(AuthStatusInput { validate })
}

fn api_call_input(endpoint: &str) -> ApiCallInput {
    ApiCallInput {
        endpoint: endpoint.to_string(),
        path_params: vec![],
        query_params: vec![],
        header_params: vec![],
        body: None,
        file_refs: vec![],
    }
}

fn login_input(mode: Option<&str>) -> AuthLoginInput {
    AuthLoginInput {
        mode: mode.map(str::to_string),
        proxy_url: None,
        client_id: None,
        client_secret: None,
    }
}

fn assert_done_ok(effect: ToolEffect) -> ToolOutput {
    match effect {
        ToolEffect::Done(Ok(r)) => r,
        other => panic!("expected Done(Ok), got {other:?}"),
    }
}

fn assert_done_err(effect: ToolEffect) -> ProtocolError {
    match effect {
        ToolEffect::Done(Err(e)) => e,
        other => panic!("expected Done(Err), got {other:?}"),
    }
}

fn texts(out: &ToolOutput) -> String {
    out.content
        .iter()
        .filter_map(|c| match c {
            ContentItem::Text(t) => Some(t.clone()),
            _ => None,
        })
        .collect()
}

fn assert_tool_error(effect: ToolEffect) -> String {
    let out = assert_done_ok(effect);
    assert!(out.is_error, "expected is_error=true, got {out:?}");
    texts(&out)
}

fn assert_api_request(effect: ToolEffect) -> (ApiRequest, Continuation) {
    match effect {
        ToolEffect::ApiRequest {
            request,
            continuation,
        } => (request, continuation),
        other => panic!("expected ApiRequest, got {other:?}"),
    }
}

fn assert_write_files(effect: ToolEffect) -> (Vec<FileWrite>, Continuation) {
    match effect {
        ToolEffect::WriteFiles {
            files,
            continuation,
        } => (files, continuation),
        other => panic!("expected WriteFiles, got {other:?}"),
    }
}

fn assert_read_files(effect: ToolEffect) -> (Vec<FileRead>, Continuation) {
    match effect {
        ToolEffect::ReadFiles {
            reads,
            continuation,
        } => (reads, continuation),
        other => panic!("expected ReadFiles, got {other:?}"),
    }
}

fn assert_oauth_login_flow(effect: ToolEffect) -> LoginMode {
    match effect {
        ToolEffect::OAuthLoginFlow { mode } => mode,
        other => panic!("expected OAuthLoginFlow, got {other:?}"),
    }
}

fn auth_status_of(out: &ToolOutput) -> (AuthStatus, AuthMethod, Option<String>) {
    assert!(!out.is_error);
    assert_eq!(out.content.len(), 1);
    match &out.content[0] {
        ContentItem::AuthStatus(a) => (a.status, a.auth_method, a.message.clone()),
        other => panic!("expected an auth status, got {other:?}"),
    }
}

fn api_response<'a>(
    status: u16,
    body: &'a [u8],
    json: &'a Result<Json, String>,
) -> IoResult<'a> {
    IoResult::ApiResponse {
        status,
        headers: &[],
        body,
        json,
    }
}

// --- auth status ---

#[test]
fn call_tool_auth_status_returns_not_configured() {
    let out = assert_done_ok(call(
        "onshape_auth_status",
        status_input(None),
        &not_configured(),
        &default_validation(),
        None,
    ));
    assert_eq!(auth_status_of(&out).0, AuthStatus::NotConfigured);
}

#[test]
fn call_tool_auth_status_returns_not_validated_with_creds() {
    let out = assert_done_ok(call(
        "onshape_auth_status",
        status_input(None),
        &basic_ready(),
        &default_validation(),
        None,
    ));
    assert_eq!(auth_status_of(&out).0, AuthStatus::NotValidated);
}

#[test]
fn call_tool_auth_status_returns_partial_with_missing_key() {
    let auth = ResolvedAuth::NotConfigured {
        configured_method: AuthMethod::Basic,
        detail: "Incomplete credentials: secret_key is not configured".into(),
    };
    let out = assert_done_ok(call(
        "onshape_auth_status",
        status_input(None),
        &auth,
        &default_validation(),
        None,
    ));
    let (status, _, message) = auth_status_of(&out);
    assert_eq!(status, AuthStatus::NotConfigured);
    assert!(message.is_some_and(|m| m.contains("secret_key")));
}

#[test]
fn call_tool_auth_status_returns_partial_with_missing_access_key() {
    let auth = ResolvedAuth::NotConfigured {
        configured_method: AuthMethod::Basic,
        detail: "Incomplete credentials: access_key is not configured".into(),
    };
    let out = assert_done_ok(call(
        "onshape_auth_status",
        status_input(None),
        &auth,
        &default_validation(),
        None,
    ));
    let (status, _, message) = auth_status_of(&out);
    assert_eq!(status, AuthStatus::NotConfigured);
    assert!(message.is_some_and(|m| m.contains("access_key")));
}

#[test]
fn call_tool_unknown_returns_not_found() {
    let err = assert_done_err(call(
        "unknown_tool",
        ToolInput::Empty,
        &not_configured(),
        &default_validation(),
        None,
    ));
    assert_eq!(err.code, METHOD_NOT_FOUND);
    assert!(err.message.contains("unknown_tool"));
}

#[test]
fn error_code_values() {
    assert_eq!(METHOD_NOT_FOUND, -32601);
    assert_eq!(INVALID_PARAMS, -32602);
    assert_eq!(INTERNAL_ERROR, -32603);
}

#[test]
fn call_tool_invalid_arguments_are_reported_to_the_caller() {
    let msg = assert_tool_error(call(
        "onshape_api_explain",
        ToolInput::Invalid("invalid arguments: missing field `endpoint`".to_string()),
        &not_configured(),
        &default_validation(),
        Some(&test_spec()),
    ));
    assert_eq!(msg, "invalid arguments: missing field `endpoint`");
}

#[test]
fn call_tool_auth_status_oauth_not_configured_no_creds() {
    let auth = ResolvedAuth::NotConfigured {
        configured_method: AuthMethod::OAuth,
        detail: "No credentials configured".into(),
    };
    let out = assert_done_ok(call(
        "onshape_auth_status",
        status_input(None),
        &auth,
        &default_validation(),
        None,
    ));
    let (status, method, _) = auth_status_of(&out);
    assert_eq!(status, AuthStatus::NotConfigured);
    assert_eq!(method, AuthMethod::OAuth);
}

#[test]
fn call_tool_auth_status_oauth_pending() {
    let out = assert_done_ok(call(
        "onshape_auth_status",
        status_input(None),
        &ResolvedAuth::OAuthPending,
        &default_validation(),
        None,
    ));
    let (status, method, message) = auth_status_of(&out);
    assert_eq!(status, AuthStatus::NotConfigured);
    assert_eq!(method, AuthMethod::OAuth);
    assert!(message.is_some_and(|m| m.contains("no access token")));
}

#[test]
fn call_tool_auth_status_oauth_ready() {
    let out = assert_done_ok(call(
        "onshape_auth_status",
        status_input(None),
        &ResolvedAuth::OAuthReady { expires_at: None },
        &default_validation(),
        None,
    ));
    let (status, method, _) = auth_status_of(&out);
    assert_eq!(status, AuthStatus::NotValidated);
    assert_eq!(method, AuthMethod::OAuth);
}

#[test]
fn call_tool_auth_status_oauth_partial_missing_secret() {
    let auth = ResolvedAuth::NotConfigured {
        configured_method: AuthMethod::OAuth,
        detail: "Incomplete credentials: client_secret is not configured".into(),
    };
    let out = assert_done_ok(call(
        "onshape_auth_status",
        status_input(None),
        &auth,
        &default_validation(),
        None,
    ));
    let (status, _, message) = auth_status_of(&out);
    assert_eq!(status, AuthStatus::NotConfigured);
    assert!(message.is_some_and(|m| m.contains("client_secret")));
}

#[test]
fn call_tool_auth_status_oauth_partial_missing_id() {
    let auth = ResolvedAuth::NotConfigured {
        configured_method: AuthMethod::OAuth,
        detail: "Incomplete credentials: client_id is not configured".into(),
    };
    let out = assert_done_ok(call(
        "onshape_auth_status",
        status_input(None),
        &auth,
        &default_validation(),
        None,
    ));
    let (status, _, message) = auth_status_of(&out);
    assert_eq!(status, AuthStatus::NotConfigured);
    assert!(message.is_some_and(|m| m.contains("client_id")));
}

// --- api search / explain ---

fn search_input(query: &str) -> ToolInput {
    ToolInput::ApiSearch(ApiSearchInput {
        query: query.to_string(),
        method: None,
        tag: None,
    })
}

#[test]
fn api_search_returns_results() {
    let spec = test_spec();
    let out = assert_done_ok(call(
        "onshape_api_search",
        search_input("document"),
        &not_configured(),
        &default_validation(),
        Some(&spec),
    ));
    assert!(!out.is_error);
    match &out.content[0] {
        ContentItem::Endpoints(results) => assert_eq!(results.len(), 3),
        other => panic!("expected endpoint summaries, got {other:?}"),
    }
}

#[test]
fn api_search_empty_query_returns_all() {
    let spec = test_spec();
    let out = assert_done_ok(call(
        "onshape_api_search",
        search_input(""),
        &not_configured(),
        &default_validation(),
        Some(&spec),
    ));
    match &out.content[0] {
        ContentItem::Endpoints(results) => assert_eq!(results.len(), 3),
        other => panic!("expected endpoint summaries, got {other:?}"),
    }
}

#[test]
fn api_search_without_spec_returns_error() {
    let err = assert_done_err(call(
        "onshape_api_search",
        search_input("test"),
        &not_configured(),
        &default_validation(),
        None,
    ));
    assert_eq!(err.code, INTERNAL_ERROR);
    assert_eq!(err.message, "OpenAPI spec not loaded");
}

#[test]
fn api_explain_returns_detail() {
    let spec = test_spec();
    let out = assert_done_ok(call(
        "onshape_api_explain",
        ToolInput::ApiExplain(ApiExplainInput {
            endpoint: "getDocuments".to_string(),
        }),
        &not_configured(),
        &default_validation(),
        Some(&spec),
    ));
    match &out.content[0] {
        ContentItem::Endpoint(detail) => {
            assert_eq!(detail.operation_id, "getDocuments");
            assert_eq!(detail.method.as_str(), "GET");
        }
        other => panic!("expected endpoint detail, got {other:?}"),
    }
}

#[test]
fn api_explain_nonexistent_returns_error() {
    let spec = test_spec();
    let out = assert_done_ok(call(
        "onshape_api_explain",
        ToolInput::ApiExplain(ApiExplainInput {
            endpoint: "nonexistent".to_string(),
        }),
        &not_configured(),
        &default_validation(),
        Some(&spec),
    ));
    assert!(out.is_error);
}

// --- api call ---

#[test]
fn api_call_returns_request_effect() {
    let spec = test_spec();
    let mut input = api_call_input("getDocument");
    input.path_params = vec![("did".to_string(), "abc123".to_string())];
    let (request, _) = assert_api_request(call(
        "onshape_api_call",
        ToolInput::ApiCall(input),
        &not_configured(),
        &default_validation(),
        Some(&spec),
    ));
    assert_eq!(request.path, "/documents/abc123");
}

#[test]
fn api_call_missing_required_param_returns_error() {
    let spec = test_spec();
    let msg = assert_tool_error(call(
        "onshape_api_call",
        ToolInput::ApiCall(api_call_input("getDocument")),
        &not_configured(),
        &default_validation(),
        Some(&spec),
    ));
    assert!(!msg.is_empty());
}

#[test]
fn api_call_without_spec_returns_error() {
    let err = assert_done_err(call(
        "onshape_api_call",
        ToolInput::ApiCall(api_call_input("getDocument")),
        &not_configured(),
        &default_validation(),
        None,
    ));
    assert_eq!(err.code, INTERNAL_ERROR);
}

#[test]
fn api_call_with_body_string_returns_request() {
    let spec = test_spec();
    let mut input = api_call_input("searchDocuments");
    input.body = Some(CallBody::Serialized(parsed(r#"{"rawQuery": "cabinets", "limit": 5}"#)));
    let (request, _) = assert_api_request(call(
        "onshape_api_call",
        ToolInput::ApiCall(input),
        &not_configured(),
        &default_validation(),
        Some(&spec),
    ));
    assert_eq!(request.path, "/documents/search");
    let body = request
        .body
        .as_ref()
        .and_then(RequestBody::as_json)
        .expect("should be JSON body");
    assert_eq!(get(body, "rawQuery"), Some(&Json::String("cabinets".to_string())));
    assert_eq!(get(body, "limit"), Some(&Json::Number(JsonNumber::PosInt(5))));
    assert_eq!(
        request.content_type.as_deref(),
        Some("application/json;charset=UTF-8; qs=0.09")
    );
}

#[test]
fn api_call_with_invalid_body_json_returns_error() {
    let spec = test_spec();
    let mut input = api_call_input("searchDocuments");
    input.body = Some(CallBody::Serialized(parsed("not valid json")));
    let msg = assert_tool_error(call(
        "onshape_api_call",
        ToolInput::ApiCall(input),
        &not_configured(),
        &default_validation(),
        Some(&spec),
    ));
    assert!(msg.contains("invalid body JSON"));
}

#[test]
fn api_call_with_null_body_json_returns_error() {
    let spec = test_spec();
    let mut input = api_call_input("searchDocuments");
    input.body = Some(CallBody::Serialized(parsed("null")));
    let msg = assert_tool_error(call(
        "onshape_api_call",
        ToolInput::ApiCall(input),
        &not_configured(),
        &default_validation(),
        Some(&spec),
    ));
    assert!(msg.contains("JSON null"));
}

#[test]
fn api_call_with_body_for_get_endpoint_passes_through() {
    let spec = test_spec();
    let mut input = api_call_input("getDocuments");
    input.body = Some(CallBody::Serialized(parsed(r#"{"unexpected": "data"}"#)));
    let (request, _) = assert_api_request(call(
        "onshape_api_call",
        ToolInput::ApiCall(input),
        &not_configured(),
        &default_validation(),
        Some(&spec),
    ));
    assert_eq!(request.method, HttpMethod::Get);
    assert_eq!(request.path, "/documents");
    assert!(request.body.is_some());
    assert!(request.content_type.is_none());
}

#[test]
fn api_call_without_file_refs_returns_api_request() {
    let spec = test_spec();
    let (_, continuation) = assert_api_request(call(
        "onshape_api_call",
        ToolInput::ApiCall(api_call_input("getDocuments")),
        &not_configured(),
        &default_validation(),
        Some(&spec),
    ));
    assert!(matches!(continuation, Continuation::FormatApiResponse));
}

#[test]
fn api_call_header_params_reach_request() {
    let spec = test_spec();
    let mut input = api_call_input("getDocuments");
    input.header_params = vec![("Accept".to_string(), "application/octet-stream".to_string())];
    let (request, continuation) = assert_api_request(call(
        "onshape_api_call",
        ToolInput::ApiCall(input),
        &not_configured(),
        &default_validation(),
        Some(&spec),
    ));
    assert!(matches!(continuation, Continuation::FormatApiResponse));
    let accept = request
        .headers
        .iter()
        .find(|(k, _)| k.eq_ignore_ascii_case("accept"))
        .map(|(_, v)| v.as_str());
    assert_eq!(accept, Some("application/octet-stream"));
}

#[test]
fn api_call_invalid_header_name_returns_error() {
    let spec = test_spec();
    let mut input = api_call_input("getDocuments");
    input.header_params = vec![("not a header".to_string(), "value".to_string())];
    let msg = assert_tool_error(call(
        "onshape_api_call",
        ToolInput::ApiCall(input),
        &not_configured(),
        &default_validation(),
        Some(&spec),
    ));
    assert!(msg.contains("invalid header name"), "got: {msg}");
}

#[test]
fn api_call_with_file_refs_returns_read_files() {
    let spec = test_spec();
    let mut input = api_call_input("searchDocuments");
    input.body = Some(CallBody::Serialized(parsed(r#"{"limit": 10}"#)));
    input.file_refs = vec![FileReference {
        path: "/tmp/query.txt".to_string(),
        field: "rawQuery".to_string(),
        encoding: FileEncoding::TextUtf8,
    }];
    let (reads, continuation) = assert_read_files(call(
        "onshape_api_call",
        ToolInput::ApiCall(input),
        &not_configured(),
        &default_validation(),
        Some(&spec),
    ));
    assert_eq!(reads.len(), 1);
    assert_eq!(
        std::path::PathBuf::from(&reads[0].path),
        std::path::PathBuf::from("/tmp/query.txt")
    );
    assert!(matches!(
        continuation,
        Continuation::InjectFilesIntoRequest { .. }
    ));
}

#[test]
fn api_call_file_ref_invalid_path_returns_error() {
    let spec = test_spec();
    let mut input = api_call_input("searchDocuments");
    input.file_refs = vec![FileReference {
        path: "../etc/passwd".to_string(),
        field: "rawQuery".to_string(),
        encoding: FileEncoding::TextUtf8,
    }];
    let msg = assert_tool_error(call(
        "onshape_api_call",
        ToolInput::ApiCall(input),
        &not_configured(),
        &default_validation(),
        Some(&spec),
    ));
    assert!(msg.contains(".."), "expected traversal error, got: {msg}");
}

#[test]
fn api_call_file_ref_empty_path_returns_error() {
    let spec = test_spec();
    let mut input = api_call_input("searchDocuments");
    input.file_refs = vec![FileReference {
        path: String::new(),
        field: "rawQuery".to_string(),
        encoding: FileEncoding::TextUtf8,
    }];
    let msg = assert_tool_error(call(
        "onshape_api_call",
        ToolInput::ApiCall(input),
        &not_configured(),
        &default_validation(),
        Some(&spec),
    ));
    assert!(msg.contains("file path"), "got: {msg}");
}

// --- process_api_response ---

use onshape_core::tools::responses::process_api_response;

#[test]
fn process_api_response_success_json() {
    let body = r#"{"id": "abc123", "name": "Test"}"#;
    let out = process_api_response(200, &[], body.as_bytes(), &parsed(body)).expect("should succeed");
    assert!(!out.is_error);
    assert!(matches!(out.content[0], ContentItem::Json(_)));
}

#[test]
fn process_api_response_success_plain_text() {
    let body = b"plain text response";
    let out = process_api_response(200, &[], body, &parsed("plain text response")).expect("should succeed");
    assert!(!out.is_error);
    assert_eq!(texts(&out), "plain text response");
}

#[test]
fn process_api_response_success_binary() {
    let headers = [(
        "content-type".to_string(),
        "application/octet-stream".to_string(),
    )];
    let out = process_api_response(200, &headers, &[0xff], &Err("not JSON".to_string()))
        .expect("should succeed");
    assert!(!out.is_error);
    let value = match &out.content[0] {
        ContentItem::Json(j) => j,
        other => panic!("expected JSON content, got {other:?}"),
    };
    assert_eq!(get(value, "status"), Some(&Json::Number(JsonNumber::PosInt(200))));
    assert_eq!(
        get(value, "contentType"),
        Some(&Json::String("application/octet-stream".to_string()))
    );
    assert_eq!(get(value, "encoding"), Some(&Json::String("base64".to_string())));
    assert_eq!(get(value, "byteLength"), Some(&Json::Number(JsonNumber::PosInt(1))));
    assert_eq!(get(value, "body"), Some(&Json::String("/w==".to_string())));
}

#[test]
fn process_api_response_error() {
    let out = process_api_response(404, &[], b"Not found", &parsed("Not found")).expect("should succeed");
    assert!(out.is_error);
    assert_eq!(texts(&out), "API error (HTTP 404): Not found");
}

#[test]
fn process_api_response_binary_error_is_labelled() {
    let out = process_api_response(500, &[], &[0xff, 0xfe], &Err("bad".to_string()))
        .expect("should succeed");
    assert!(out.is_error);
    match &out.content[0] {
        ContentItem::Json(j) => assert_eq!(
            get(j, "error"),
            Some(&Json::String("API error (HTTP 500)".to_string()))
        ),
        other => panic!("expected JSON content, got {other:?}"),
    }
}

// --- auth status with validation ---

#[test]
fn auth_status_validate_false_returns_immediate() {
    let out = assert_done_ok(call(
        "onshape_auth_status",
        status_input(Some(false)),
        &basic_ready(),
        &default_validation(),
        None,
    ));
    assert!(!out.is_error);
}

#[test]
fn auth_status_validate_absent_returns_immediate() {
    let out = assert_done_ok(call(
        "onshape_auth_status",
        status_input(None),
        &basic_ready(),
        &default_validation(),
        None,
    ));
    assert!(!out.is_error);
}

#[test]
fn auth_status_validate_true_without_spec_returns_error() {
    let err = assert_done_err(call(
        "onshape_auth_status",
        status_input(Some(true)),
        &basic_ready(),
        &default_validation(),
        None,
    ));
    assert_eq!(err.code, INTERNAL_ERROR);
}

#[test]
fn auth_status_validate_true_returns_api_request() {
    let spec = test_spec_with_session_info();
    let (request, continuation) = assert_api_request(call(
        "onshape_auth_status",
        status_input(Some(true)),
        &basic_ready(),
        &default_validation(),
        Some(&spec),
    ));
    assert_eq!(request.path, "/users/sessioninfo");
    assert!(matches!(
        continuation,
        Continuation::ProcessAuthValidation { .. }
    ));
}

fn validation_continuation() -> Continuation {
    let spec = test_spec_with_session_info();
    let (_, continuation) = assert_api_request(call(
        "onshape_auth_status",
        status_input(Some(true)),
        &basic_ready(),
        &default_validation(),
        Some(&spec),
    ));
    continuation
}

#[test]
fn auth_status_callback_200_returns_valid_with_side_effect() {
    let body = br#"{"id": "user123"}"#;
    let json = parsed(r#"{"id": "user123"}"#);
    let (effect, side_effects) = resume(validation_continuation(), api_response(200, body, &json), now());
    let out = assert_done_ok(effect);
    assert_eq!(auth_status_of(&out).0, AuthStatus::Valid);
    assert_eq!(side_effects.len(), 1);
    match &side_effects[0] {
        SideEffect::UpdateValidation(state) => {
            assert_eq!(state.status, ValidationStatus::Valid);
            assert!(state.last_check.is_some());
        }
    }
}

#[test]
fn auth_status_callback_401_returns_invalid_with_side_effect() {
    let json = parsed("Unauthorized");
    let (effect, side_effects) =
        resume(validation_continuation(), api_response(401, b"Unauthorized", &json), now());
    let out = assert_done_ok(effect);
    assert_eq!(auth_status_of(&out).0, AuthStatus::Invalid);
    assert_eq!(side_effects.len(), 1);
    match &side_effects[0] {
        SideEffect::UpdateValidation(state) => {
            assert_eq!(state.status, ValidationStatus::Invalid);
        }
    }
}

#[test]
fn auth_status_callback_500_returns_no_side_effects() {
    let json = parsed("Internal Server Error");
    let (effect, side_effects) = resume(
        validation_continuation(),
        api_response(500, b"Internal Server Error", &json),
        now(),
    );
    let _ = assert_done_ok(effect);
    assert!(side_effects.is_empty());
}

#[test]
fn auth_status_validate_false_includes_cached_validation() {
    let validation = ValidationState {
        status: ValidationStatus::Valid,
        last_check: Some(now()),
        message: Some("previously validated".into()),
    };
    let out = assert_done_ok(call(
        "onshape_auth_status",
        status_input(None),
        &basic_ready(),
        &validation,
        None,
    ));
    assert_eq!(auth_status_of(&out).0, AuthStatus::Valid);
}

// --- resources and error lookup ---

#[test]
fn call_tool_list_resources_returns_all_entries() {
    let out = assert_done_ok(call(
        "onshape_list_resources",
        ToolInput::Empty,
        &not_configured(),
        &default_validation(),
        None,
    ));
    assert!(!out.is_error);
    let text = texts(&out);
    assert!(text.contains("insights:shaded-views"));
    assert!(text.contains("insights:sketch"));
    assert!(text.contains("Shaded Views"));
    assert!(text.starts_with("Available resources (2):\n"));
}

#[test]
fn call_tool_read_resource_returns_content() {
    let out = assert_done_ok(call(
        "onshape_read_resource",
        ToolInput::ReadResource(ReadResourceInput {
            uri: "insights:shaded-views".to_string(),
        }),
        &not_configured(),
        &default_validation(),
        None,
    ));
    assert!(!out.is_error);
    let text = texts(&out);
    assert!(text.contains("Part Studio Shaded Views"));
    assert!(text.contains("pixelSize"));
}

#[test]
fn call_tool_read_resource_unknown_uri_returns_error() {
    let out = assert_done_ok(call(
        "onshape_read_resource",
        ToolInput::ReadResource(ReadResourceInput {
            uri: "nonexistent:nothing".to_string(),
        }),
        &not_configured(),
        &default_validation(),
        None,
    ));
    assert!(out.is_error);
    let text = texts(&out);
    assert!(text.contains("not found"), "{text}");
    assert!(text.contains("insights:shaded-views"), "{text}");
}

fn lookup(values: &[&str]) -> ToolOutput {
    assert_done_ok(call(
        "onshape_error_lookup",
        ToolInput::ErrorLookup(ErrorLookupInput {
            values: values.iter().map(|v| v.to_string()).collect(),
        }),
        &not_configured(),
        &default_validation(),
        None,
    ))
}

#[test]
fn call_tool_error_lookup_resolves_known_enum() {
    let out = lookup(&["FILLET_FAILED"]);
    assert!(!out.is_error);
    let text = texts(&out);
    assert!(text.contains("FILLET_FAILED"), "{text}");
    assert!(!text.contains("(unknown"), "{text}");
    assert_eq!(text, "FILLET_FAILED: Failed to fillet.\n");
}

#[test]
fn call_tool_error_lookup_unknown_enum_says_not_found() {
    let out = lookup(&["TOTALLY_MADE_UP_ENUM"]);
    assert!(!out.is_error);
    assert!(texts(&out).contains("unknown"));
}

#[test]
fn call_tool_error_lookup_empty_values_returns_error() {
    let out = lookup(&[]);
    assert!(out.is_error);
}

#[test]
fn call_tool_error_lookup_multiple_values() {
    let out = lookup(&["FILLET_FAILED", "SWEEP_PATH_FAILED", "NONEXISTENT"]);
    assert!(!out.is_error);
    let text = texts(&out);
    assert!(text.contains("FILLET_FAILED"));
    assert!(text.contains("SWEEP_PATH_FAILED"));
    assert!(text.contains("NONEXISTENT"));
    assert!(text.contains("unknown"));
}

// --- login ---

#[test]
fn auth_login_default_mode_returns_proxy() {
    let mode = assert_oauth_login_flow(call(
        "onshape_auth_login",
        ToolInput::AuthLogin(login_input(None)),
        &not_configured(),
        &default_validation(),
        None,
    ));
    assert_eq!(
        mode,
        LoginMode::Proxy {
            proxy_url: DEFAULT_PROXY_URL.to_string()
        }
    );
}

#[test]
fn auth_login_explicit_proxy_mode() {
    let mut input = login_input(Some("proxy"));
    input.proxy_url = Some("https://my-proxy.example.com".to_string());
    let mode = assert_oauth_login_flow(call(
        "onshape_auth_login",
        ToolInput::AuthLogin(input),
        &not_configured(),
        &default_validation(),
        None,
    ));
    match mode {
        LoginMode::Proxy { proxy_url } => assert_eq!(proxy_url, "https://my-proxy.example.com"),
        LoginMode::Direct { .. } => panic!("expected Proxy, got Direct"),
    }
}

#[test]
fn auth_login_direct_mode() {
    let mut input = login_input(Some("direct"));
    input.client_id = Some("my-client-id".to_string());
    input.client_secret = Some("my-client-secret".to_string());
    let mode = assert_oauth_login_flow(call(
        "onshape_auth_login",
        ToolInput::AuthLogin(input),
        &not_configured(),
        &default_validation(),
        None,
    ));
    match mode {
        LoginMode::Direct {
            client_id,
            client_secret,
        } => {
            assert_eq!(client_id, "my-client-id");
            assert_eq!(client_secret, "my-client-secret");
        }
        LoginMode::Proxy { .. } => panic!("expected Direct, got Proxy"),
    }
}

#[test]
fn auth_login_direct_mode_missing_client_id() {
    let mut input = login_input(Some("direct"));
    input.client_secret = Some("secret".to_string());
    let msg = assert_tool_error(call(
        "onshape_auth_login",
        ToolInput::AuthLogin(input),
        &not_configured(),
        &default_validation(),
        None,
    ));
    assert!(msg.contains("client_id"));
}

#[test]
fn auth_login_direct_mode_missing_client_secret() {
    let mut input = login_input(Some("direct"));
    input.client_id = Some("cid".to_string());
    let msg = assert_tool_error(call(
        "onshape_auth_login",
        ToolInput::AuthLogin(input),
        &not_configured(),
        &default_validation(),
        None,
    ));
    assert!(msg.contains("client_secret"));
}

#[test]
fn auth_login_invalid_mode() {
    let msg = assert_tool_error(call(
        "onshape_auth_login",
        ToolInput::AuthLogin(login_input(Some("invalid"))),
        &not_configured(),
        &default_validation(),
        None,
    ));
    assert!(msg.contains("invalid"));
}

// --- screenshots ---

fn screenshot_request() -> ScreenshotRequest {
    ScreenshotRequest {
        did: "doc1".to_string(),
        wvm: "w".to_string(),
        wvmid: "ws1".to_string(),
        eid: "elem1".to_string(),
        view_matrix: "front".to_string(),
        view_label: "front".to_string(),
        output_path: "/tmp/test-screenshot.png".to_string(),
        output_height: None,
        output_width: None,
        edges: None,
        use_anti_aliasing: None,
        show_all_parts: None,
        include_surfaces: None,
        include_wires: None,
    }
}

fn screenshot(req: ScreenshotRequest) -> ToolEffect {
    let spec = screenshot_spec();
    call(
        "onshape_screenshot",
        ToolInput::Screenshot(req),
        &not_configured(),
        &default_validation(),
        Some(&spec),
    )
}

#[test]
fn screenshot_invalid_edges_returns_error() {
    let mut req = screenshot_request();
    req.edges = Some("invisible".to_string());
    assert!(assert_tool_error(screenshot(req)).contains("invisible"));
}

#[test]
fn screenshot_invalid_wvm_returns_error() {
    let mut req = screenshot_request();
    req.wvm = "x".to_string();
    assert!(assert_tool_error(screenshot(req)).contains("\"x\""));
}

#[test]
fn screenshot_output_height_zero_returns_error() {
    let mut req = screenshot_request();
    req.output_height = Some(0);
    let msg = assert_tool_error(screenshot(req));
    assert!(msg.contains("output_height"));
    assert!(msg.contains('0'));
}

#[test]
fn screenshot_output_width_too_large_returns_error() {
    let mut req = screenshot_request();
    req.output_width = Some(4097);
    let msg = assert_tool_error(screenshot(req));
    assert!(msg.contains("output_width"));
    assert!(msg.contains("4097"));
}

#[test]
fn screenshot_output_path_empty_returns_error() {
    let mut req = screenshot_request();
    req.output_path = String::new();
    let msg = assert_tool_error(screenshot(req));
    assert!(msg.contains("file path") && msg.contains("file name"), "{msg}");
}

#[test]
fn screenshot_output_path_traversal_returns_error() {
    let mut req = screenshot_request();
    req.output_path = "../secret.png".to_string();
    assert!(assert_tool_error(screenshot(req)).contains(".."));
}

#[test]
fn screenshot_builds_api_request() {
    let (request, continuation) = assert_api_request(screenshot(screenshot_request()));
    assert!(request.path.contains("/shadedviews"));
    assert!(matches!(
        continuation,
        Continuation::ProcessScreenshotResponse { .. }
    ));
    let find = |name: &str| {
        request
            .query_params
            .iter()
            .find(|(k, _)| k == name)
            .map(|(_, v)| v.clone())
    };
    assert_eq!(find("pixelSize").as_deref(), Some("0"));
    assert_eq!(find("viewMatrix").as_deref(), Some("front"));
}

#[test]
fn screenshot_callback_api_error_returns_done() {
    let (_, continuation) = assert_api_request(screenshot(screenshot_request()));
    let json = parsed("Internal Server Error");
    let (effect, side_effects) = resume(
        continuation,
        api_response(500, b"Internal Server Error", &json),
        now(),
    );
    assert!(side_effects.is_empty());
    assert!(assert_done_ok(effect).is_error);
}

#[test]
fn screenshot_callback_success_returns_write_files() {

    let engine = base64::engine::general_purpose::STANDARD;
    let (_, continuation) = assert_api_request(screenshot(screenshot_request()));
    let fake_png = b"fake png data";
    let body = format!(r#"{{"images": ["{}"]}}"#, engine.encode(fake_png));
    let json = parsed(&body);
    let (effect, side_effects) = resume(continuation, api_response(200, body.as_bytes(), &json), now());
    assert!(side_effects.is_empty());
    let (files, _) = assert_write_files(effect);
    assert_eq!(files.len(), 1);
    assert_eq!(files[0].data, fake_png);
    assert_eq!(
        std::path::PathBuf::from(&files[0].path),
        std::path::PathBuf::from("/tmp/test-screenshot.png")
    );
}

#[test]
fn screenshot_format_result_success_includes_view_matrix() {
    let result = FileWriteResult::Success {
        path: "/tmp/screenshot.png".to_string(),
    };
    let out = format_screenshot_result(&result, "front", "front");
    assert!(!out.is_error);
    assert_eq!(out.content.len(), 2);
    match &out.content[0] {
        ContentItem::Json(j) => {
            assert_eq!(get(j, "view_matrix"), Some(&Json::String("front".to_string())));
            assert_eq!(get(j, "status"), Some(&Json::String("ok".to_string())));
        }
        other => panic!("expected JSON content, got {other:?}"),
    }
    let text = texts(&out);
    assert!(text.contains("viewMatrix=front"));
    assert!(text.contains("/tmp/screenshot.png"));
}

#[test]
fn screenshot_format_result_failure() {
    let result = FileWriteResult::Error {
        path: "/tmp/screenshot.png".to_string(),
        message: "Permission denied".to_string(),
    };
    let out = format_screenshot_result(&result, "top", "top");
    assert!(out.is_error);
    match &out.content[0] {
        ContentItem::Json(j) => {
            assert_eq!(get(j, "status"), Some(&Json::String("error".to_string())));
            assert_eq!(get(j, "error"), Some(&Json::String("Permission denied".to_string())));
        }
        other => panic!("expected JSON content, got {other:?}"),
    }
    let text = texts(&out);
    assert!(text.contains("FAILED"));
    assert!(text.contains("Permission denied"));
}

#[test]
fn screenshot_optional_params_passed_to_request() {
    let mut req = screenshot_request();
    req.output_height = Some(1000);
    req.output_width = Some(800);
    req.edges = Some("hide".to_string());
    req.use_anti_aliasing = Some(true);
    req.show_all_parts = Some(true);
    let (request, _) = assert_api_request(screenshot(req));
    let find = |name: &str| {
        request
            .query_params
            .iter()
            .find(|(k, _)| k == name)
            .map(|(_, v)| v.clone())
    };
    assert_eq!(find("outputHeight"), Some("1000".to_string()));
    assert_eq!(find("outputWidth"), Some("800".to_string()));
    assert_eq!(find("edges"), Some("hide".to_string()));
    assert_eq!(find("useAntiAliasing"), Some("true".to_string()));
    assert_eq!(find("showAllParts"), Some("true".to_string()));
}

#[test]
fn screenshot_custom_output_path() {

    let engine = base64::engine::general_purpose::STANDARD;
    let mut req = screenshot_request();
    req.output_path = "/home/user/my-part.png".to_string();
    let (_, continuation) = assert_api_request(screenshot(req));
    let body = format!(r#"{{"images": ["{}"]}}"#, engine.encode(b"data"));
    let json = parsed(&body);
    let (effect, _) = resume(continuation, api_response(200, body.as_bytes(), &json), now());
    let (files, _) = assert_write_files(effect);
    assert_eq!(
        std::path::PathBuf::from(&files[0].path),
        std::path::PathBuf::from("/home/user/my-part.png")
    );
}

// --- file injection ---

fn json_request_for_injection(body: Json) -> ApiRequest {
    ApiRequest {
        method: HttpMethod::Post,
        path: "/test".to_string(),
        query_params: vec![],
        headers: vec![],
        body: Some(RequestBody::Json(body)),
        content_type: Some("application/json".to_string()),
    }
}

fn multipart_request_for_injection(text_fields: Vec<(String, String)>) -> ApiRequest {
    ApiRequest {
        method: HttpMethod::Post,
        path: "/upload".to_string(),
        query_params: vec![],
        headers: vec![],
        body: Some(RequestBody::Multipart(MultipartBody {
            text_fields,
            binary_fields: vec![],
        })),
        content_type: Some("multipart/form-data".to_string()),
    }
}

fn file_ref(path: &str, field: &str, encoding: FileEncoding) -> FileReference {
    FileReference {
        path: path.to_string(),
        field: field.to_string(),
        encoding,
    }
}

fn read_ok(path: &str, data: &[u8]) -> FileReadResult {
    FileReadResult::Success {
        path: path.to_string(),
        data: data.to_vec(),
    }
}

fn inject(request: ApiRequest, file_refs: Vec<FileReference>, results: &[FileReadResult]) -> ToolEffect {
    let continuation = Continuation::InjectFilesIntoRequest { request, file_refs };
    let (effect, side_effects) = resume(continuation, IoResult::FileReadResults(results), now());
    assert!(side_effects.is_empty());
    effect
}

fn json_body(request: &ApiRequest) -> &Json {
    request
        .body
        .as_ref()
        .and_then(RequestBody::as_json)
        .expect("should be JSON")
}

#[test]
fn resume_inject_text_utf8_into_json_body() {
    let effect = inject(
        json_request_for_injection(parse(r#"{"existing": "value"}"#)),
        vec![file_ref("/tmp/script.fs", "content", FileEncoding::TextUtf8)],
        &[read_ok("/tmp/script.fs", b"function hello() {}")],
    );
    let (req, cont) = assert_api_request(effect);
    assert!(matches!(cont, Continuation::FormatApiResponse));
    let json = json_body(&req);
    assert_eq!(get(json, "existing"), Some(&Json::String("value".to_string())));
    assert_eq!(
        get(json, "content"),
        Some(&Json::String("function hello() {}".to_string()))
    );
}

#[test]
fn resume_inject_base64_into_json_body() {

    let raw_data = vec![0xDE, 0xAD, 0xBE, 0xEF];
    let effect = inject(
        json_request_for_injection(parse("{}")),
        vec![file_ref("/tmp/data.bin", "payload", FileEncoding::Base64)],
        &[read_ok("/tmp/data.bin", &raw_data)],
    );
    let (req, _) = assert_api_request(effect);
    let encoded = match get(json_body(&req), "payload") {
        Some(Json::String(s)) => s.clone(),
        other => panic!("expected string, got {other:?}"),
    };
    let decoded = base64::engine::general_purpose::STANDARD
        .decode(encoded)
        .expect("should decode base64");
    assert_eq!(decoded, raw_data);
}

#[test]
fn resume_inject_raw_bytes_into_json_body_returns_error() {
    let effect = inject(
        json_request_for_injection(parse("{}")),
        vec![file_ref("/tmp/data.bin", "payload", FileEncoding::RawBytes)],
        &[read_ok("/tmp/data.bin", &[0xFF])],
    );
    let msg = assert_tool_error(effect);
    assert!(msg.contains("raw_bytes") && msg.contains("JSON"), "{msg}");
}

#[test]
fn resume_inject_invalid_utf8_returns_error() {
    let effect = inject(
        json_request_for_injection(parse("{}")),
        vec![file_ref("/tmp/bad.txt", "content", FileEncoding::TextUtf8)],
        &[read_ok("/tmp/bad.txt", &[0xFF, 0xFE])],
    );
    assert!(assert_tool_error(effect).contains("UTF-8"));
}

#[test]
fn resume_inject_raw_bytes_into_multipart_body() {
    let file_data = b"binary-file-content".to_vec();
    let effect = inject(
        multipart_request_for_injection(vec![("formatName".to_string(), "PARASOLID".to_string())]),
        vec![file_ref("/tmp/part.x_t", "file", FileEncoding::RawBytes)],
        &[read_ok("/tmp/part.x_t", &file_data)],
    );
    let (req, _) = assert_api_request(effect);
    match req.body.expect("should have body") {
        RequestBody::Multipart(m) => {
            assert_eq!(m.binary_fields.len(), 1);
            assert_eq!(m.binary_fields[0].field_name, "file");
            assert_eq!(m.binary_fields[0].data, file_data);
            assert!(m
                .text_fields
                .iter()
                .any(|(k, v)| k == "formatName" && v == "PARASOLID"));
        }
        RequestBody::Json(j) => panic!("expected Multipart, got Json({j:?})"),
    }
}

#[test]
fn resume_inject_text_utf8_into_multipart_body() {
    let effect = inject(
        multipart_request_for_injection(vec![]),
        vec![file_ref("/tmp/script.fs", "contents", FileEncoding::TextUtf8)],
        &[read_ok("/tmp/script.fs", b"FeatureScript 2244;")],
    );
    let (req, _) = assert_api_request(effect);
    match req.body.expect("should have body") {
        RequestBody::Multipart(m) => assert!(m
            .text_fields
            .iter()
            .any(|(k, v)| k == "contents" && v == "FeatureScript 2244;")),
        RequestBody::Json(j) => panic!("expected Multipart, got Json({j:?})"),
    }
}

#[test]
fn resume_inject_base64_into_multipart_body() {

    let raw_data = vec![0x01, 0x02, 0x03];
    let effect = inject(
        multipart_request_for_injection(vec![]),
        vec![file_ref("/tmp/data.bin", "encoded_data", FileEncoding::Base64)],
        &[read_ok("/tmp/data.bin", &raw_data)],
    );
    let (req, _) = assert_api_request(effect);
    let expected = base64::engine::general_purpose::STANDARD.encode(&raw_data);
    match req.body.expect("should have body") {
        RequestBody::Multipart(m) => assert!(m
            .text_fields
            .iter()
            .any(|(k, v)| k == "encoded_data" && v == &expected)),
        RequestBody::Json(j) => panic!("expected Multipart, got Json({j:?})"),
    }
}

#[test]
fn resume_inject_file_read_error_returns_tool_error() {
    let effect = inject(
        json_request_for_injection(parse("{}")),
        vec![file_ref("/tmp/missing.txt", "content", FileEncoding::TextUtf8)],
        &[FileReadResult::Error {
            path: "/tmp/missing.txt".to_string(),
            message: "No such file or directory".to_string(),
        }],
    );
    let msg = assert_tool_error(effect);
    assert!(msg.contains("missing.txt") && msg.contains("No such file"), "{msg}");
}

#[test]
fn resume_inject_no_body_returns_error() {
    let request = ApiRequest {
        method: HttpMethod::Get,
        path: "/test".to_string(),
        query_params: vec![],
        headers: vec![],
        body: None,
        content_type: None,
    };
    let effect = inject(
        request,
        vec![file_ref("/tmp/data.txt", "content", FileEncoding::TextUtf8)],
        &[read_ok("/tmp/data.txt", b"hello")],
    );
    assert!(assert_tool_error(effect).contains("no request body"));
}

#[test]
fn resume_inject_multiple_files_into_json_body() {

    let effect = inject(
        json_request_for_injection(parse(r#"{"base": true}"#)),
        vec![
            file_ref("/tmp/a.txt", "field_a", FileEncoding::TextUtf8),
            file_ref("/tmp/b.bin", "field_b", FileEncoding::Base64),
        ],
        &[read_ok("/tmp/a.txt", b"alpha"), read_ok("/tmp/b.bin", &[0xCA, 0xFE])],
    );
    let (req, _) = assert_api_request(effect);
    let json = json_body(&req);
    assert_eq!(get(json, "base"), Some(&Json::Bool(true)));
    assert_eq!(get(json, "field_a"), Some(&Json::String("alpha".to_string())));
    let b = match get(json, "field_b") {
        Some(Json::String(s)) => s.clone(),
        other => panic!("expected string, got {other:?}"),
    };
    assert_eq!(
        base64::engine::general_purpose::STANDARD.decode(b).expect("should decode"),
        vec![0xCA, 0xFE]
    );
}

#[test]
fn resume_inject_replaces_existing_json_field() {
    let effect = inject(
        json_request_for_injection(parse(r#"{"content": "old", "other": 1}"#)),
        vec![file_ref("/tmp/a.txt", "content", FileEncoding::TextUtf8)],
        &[read_ok("/tmp/a.txt", b"new")],
    );
    let (req, _) = assert_api_request(effect);
    let json = json_body(&req);
    assert_eq!(get(json, "content"), Some(&Json::String("new".to_string())));
    assert_eq!(get(json, "other"), Some(&Json::Number(JsonNumber::PosInt(1))));
}

fn document_store_spec() -> OpenApiSpec {
    spec_from(
        r#"{
            "openapi": "3.0.1",
            "info": { "title": "Document Store", "version": "1.0" },
            "servers": [{ "url": "https://documents.example.com" }],
            "paths": {
                "/documents": {
                    "post": {
                        "operationId": "createDocument",
                        "requestBody": {
                            "required": true,
                            "content": {
                                "application/json": {
                                    "schema": {
                                        "type": "object",
                                        "properties": { "title": { "type": "string" } }
                                    }
                                }
                            }
                        },
                        "responses": { "201": { "description": "Created" } }
                    }
                }
            }
        }"#,
    )
}

#[test]
fn call_does_not_impose_onshape_policy_on_matching_operation_ids() {
    // This API shares Onshape's operation ID and path, but uses a title field.
    let spec = document_store_spec();
    let mut input = api_call_input("createDocument");
    input.body = Some(CallBody::Value(parse(r#"{ "title": "Example" }"#)));

    let (request, continuation) = assert_api_request(onshape_core::tools::api::call(
        input,
        &spec,
        |_: &str, _: Option<&Json>, _: &[FileReference]| Ok(()),
    ));

    assert!(matches!(continuation, Continuation::FormatApiResponse));
    assert_eq!(request.method, HttpMethod::Post);
    assert_eq!(request.path, "/documents");
    assert_eq!(
        request.body.as_ref().and_then(RequestBody::as_json),
        Some(&parse(r#"{ "title": "Example" }"#))
    );
}

#[test]
fn host_validation_receives_decoded_body_before_file_validation() {
    let spec = document_store_spec();
    let mut input = api_call_input("createDocument");
    input.body = Some(CallBody::Serialized(parsed(r#"{"title":"Example"}"#)));
    input.file_refs = vec![FileReference {
        path: "../content.txt".to_string(),
        field: "content".to_string(),
        encoding: FileEncoding::TextUtf8,
    }];

    let effect = onshape_core::tools::api::call(
        input,
        &spec,
        |endpoint: &str, body: Option<&Json>, file_refs: &[FileReference]| {
            assert_eq!(endpoint, "createDocument");
            assert_eq!(body, Some(&parse(r#"{ "title": "Example" }"#)));
            assert_eq!(file_refs.len(), 1);
            assert_eq!(file_refs[0].path, "../content.txt");
            assert_eq!(file_refs[0].field, "content");
            assert!(matches!(file_refs[0].encoding, FileEncoding::TextUtf8));
            Err("host rejected document".to_string())
        },
    );

    let out = assert_done_ok(effect);
    assert!(out.is_error);
    assert_eq!(out.content.len(), 1);
    assert_eq!(texts(&out), "host rejected document");
}

#[test]
fn create_document_request_discriminator_is_exact() {
    let mut request = ApiRequest {
        method: HttpMethod::Post,
        path: "/documents".to_string(),
        query_params: vec![],
        headers: vec![],
        body: Some(RequestBody::Json(Json::Object(vec![]))),
        content_type: Some("application/json".to_string()),
    };
    assert!(onshape_core::tools::onshape::is_create_document_request(&request));

    request.path = "/documents/search".to_string();
    assert!(!onshape_core::tools::onshape::is_create_document_request(&request));
    request.path = "/documents".to_string();
    request.method = HttpMethod::Get;
    assert!(!onshape_core::tools::onshape::is_create_document_request(&request));
    request.method = HttpMethod::Post;
    request.body = None;
    assert!(!onshape_core::tools::onshape::is_create_document_request(&request));
}

#[test]
fn schema_tool_reports_unavailable() {
    let spec = test_spec();
    let message = assert_tool_error(call(
        "onshape_api_schema",
        ToolInput::Empty,
        &basic_ready(),
        &default_validation(),
        Some(&spec),
    ));
    assert!(message.starts_with("onshape_api_schema is unavailable"));

    let err = assert_done_err(call(
        "onshape_api_schema",
        ToolInput::Empty,
        &basic_ready(),
        &default_validation(),
        None,
    ));
    assert_eq!(err.code, INTERNAL_ERROR);
    assert_eq!(err.message, "OpenAPI spec not loaded");
}
