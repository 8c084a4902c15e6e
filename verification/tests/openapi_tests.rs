use onshape_core::json::{get, Json, JsonNumber};
use onshape_core::openapi::{
    truncate_description, HttpMethod, OpenApiError, OpenApiSpec, ParameterLocation,
    SearchFilters,
};

fn to_json(v: &serde_json::Value) -> Json {
    match v {
        serde_json::Value::Null => Json::Null,
        serde_json::Value::Bool(b) => Json::Bool(*b),
        serde_json::Value::Number(n) => {
            if let Some(u) = n.as_u64() {
                Json::Number(JsonNumber::PosInt(u))
            } else if let Some(i) = n.as_i64() {
                Json::Number(JsonNumber::NegInt(i))
            } else {
                Json::Number(JsonNumber::Float(n.to_string()))
            }
        }
        serde_json::Value::String(s) => Json::String(s.clone()),
        serde_json::Value::Array(items) => Json::Array(items.iter().map(to_json).collect()),
        serde_json::Value::Object(map) => Json::Object(
            map.iter()
                .map(|(k, v)| (k.clone(), to_json(v)))
                .collect(),
        ),
    }
}

fn parse(text: &str) -> Json {
    to_json(&serde_json::from_str::<serde_json::Value>(text).expect("test JSON should parse"))
}

fn parsed(text: &str) -> Result<Json, String> {
    serde_json::from_str::<serde_json::Value>(text)
        .map(|v| to_json(&v))
        .map_err(|e| e.to_string())
}

fn test_spec_json() -> &'static str {
    r##"{
            "openapi": "3.0.1",
            "info": { "title": "Test API", "version": "1.0" },
            "servers": [{ "url": "https://example.com/api/v1" }],
            "paths": {
                "/documents": {
                    "get": {
                        "operationId": "getDocuments",
                        "summary": "List user documents",
                        "description": "Get a list of documents.",
                        "tags": ["Document"],
                        "parameters": [
                            {
                                "name": "q",
                                "in": "query",
                                "required": false,
                                "schema": { "type": "string" },
                                "description": "Search query"
                            },
                            {
                                "name": "limit",
                                "in": "query",
                                "required": false,
                                "schema": { "type": "integer", "default": 20 },
                                "description": "Max results"
                            }
                        ],
                        "responses": {
                            "200": {
                                "content": {
                                    "application/json": {
                                        "schema": { "$ref": "#/components/schemas/DocumentList" }
                                    }
                                }
                            }
                        }
                    },
                    "post": {
                        "operationId": "createDocument",
                        "summary": "Create a document",
                        "tags": ["Document"],
                        "requestBody": {
                            "content": {
                                "application/json": {
                                    "schema": { "$ref": "#/components/schemas/CreateDocParams" }
                                }
                            }
                        },
                        "responses": {
                            "200": {
                                "content": {
                                    "application/json": {
                                        "schema": { "$ref": "#/components/schemas/DocumentInfo" }
                                    }
                                }
                            }
                        }
                    }
                },
                "/documents/{did}": {
                    "get": {
                        "operationId": "getDocument",
                        "summary": "Get document by ID",
                        "tags": ["Document"],
                        "parameters": [
                            {
                                "name": "did",
                                "in": "path",
                                "required": true,
                                "schema": { "type": "string" },
                                "description": "Document ID"
                            }
                        ],
                        "responses": {
                            "200": {
                                "content": {
                                    "application/json": {
                                        "schema": { "$ref": "#/components/schemas/DocumentInfo" }
                                    }
                                }
                            }
                        }
                    },
                    "delete": {
                        "operationId": "deleteDocument",
                        "summary": "Delete a document",
                        "tags": ["Document"],
                        "parameters": [
                            {
                                "name": "did",
                                "in": "path",
                                "required": true,
                                "schema": { "type": "string" },
                                "description": "Document ID"
                            }
                        ],
                        "responses": { "200": {} }
                    }
                },
                "/parts": {
                    "get": {
                        "operationId": "listParts",
                        "summary": "List parts in a studio",
                        "tags": ["PartStudio"],
                        "parameters": [],
                        "responses": { "200": {} }
                    }
                }
            },
            "components": {
                "schemas": {
                    "DocumentList": {
                        "type": "object",
                        "properties": {
                            "items": { "type": "array" }
                        }
                    },
                    "DocumentInfo": {
                        "type": "object",
                        "properties": {
                            "id": { "type": "string" },
                            "name": { "type": "string" }
                        }
                    },
                    "CreateDocParams": {
                        "type": "object",
                        "properties": {
                            "name": { "type": "string" }
                        },
                        "required": ["name"]
                    }
                }
            }
        }"##
}

fn spec() -> OpenApiSpec {
    OpenApiSpec::from_value(&parse(test_spec_json())).expect("should parse")
}

fn pairs(items: &[(&str, &str)]) -> Vec<(String, String)> {
    items
        .iter()
        .map(|(k, v)| (k.to_string(), v.to_string()))
        .collect()
}

#[test]
fn parse_spec() {
    let spec = spec();
    assert_eq!(spec.endpoint_count(), 5);
    assert_eq!(spec.server_url(), "https://example.com/api/v1");
}

#[test]
fn search_by_keyword() {
    let results = spec().search("document", &SearchFilters::default());
    assert_eq!(results.len(), 4);
}

#[test]
fn search_empty_query_returns_all() {
    let results = spec().search("", &SearchFilters::default());
    assert_eq!(results.len(), 5);
}

#[test]
fn search_filter_by_method() {
    let results = spec().search(
        "",
        &SearchFilters {
            method: Some("DELETE".to_string()),
            tag: None,
        },
    );
    assert_eq!(results.len(), 1);
    assert_eq!(results[0].operation_id, "deleteDocument");
}

#[test]
fn search_filter_by_tag() {
    let results = spec().search(
        "",
        &SearchFilters {
            method: None,
            tag: Some("PartStudio".to_string()),
        },
    );
    assert_eq!(results.len(), 1);
    assert_eq!(results[0].operation_id, "listParts");
}

#[test]
fn search_combined_query_and_filter() {
    let results = spec().search(
        "document",
        &SearchFilters {
            method: Some("GET".to_string()),
            tag: None,
        },
    );
    assert_eq!(results.len(), 2);
    assert!(results.iter().all(|r| r.method == HttpMethod::Get));
}

#[test]
fn search_summary_uses_summary_text_and_tags() {
    let results = spec().search("delete a", &SearchFilters::default());
    assert_eq!(results.len(), 1);
    assert_eq!(results[0].operation_id, "deleteDocument");
    assert_eq!(results[0].path, "/documents/{did}");
    assert_eq!(results[0].description, "Delete a document");
    assert_eq!(results[0].tags, vec!["Document".to_string()]);
}

#[test]
fn explain_existing_endpoint() {
    let detail = spec().explain("getDocuments").expect("should find");
    assert_eq!(detail.operation_id, "getDocuments");
    assert_eq!(detail.method, HttpMethod::Get);
    assert_eq!(detail.path, "/documents");
    assert_eq!(detail.parameters.len(), 2);
    assert!(!detail.has_request_body);
    assert!(detail.response_schema.is_some());
    assert_eq!(detail.description, "Get a list of documents.");
}

#[test]
fn explain_endpoint_with_request_body() {
    let detail = spec().explain("createDocument").expect("should find");
    assert!(detail.has_request_body);
    assert!(detail.request_body_schema.is_some());
    assert!(detail
        .request_body_content_type
        .as_deref()
        .is_some_and(|ct| ct.contains("application/json")));
}

#[test]
fn explain_nonexistent_endpoint() {
    let err = spec().explain("nonExistentEndpoint").unwrap_err();
    assert!(matches!(err, OpenApiError::EndpointNotFound { .. }));
    assert_eq!(err.message(), "endpoint not found: nonExistentEndpoint");
}

#[test]
fn build_request_with_path_params() {
    let request = spec()
        .build_request("getDocument", &pairs(&[("did", "abc123")]), &vec![], None)
        .expect("should build");
    assert_eq!(request.method, HttpMethod::Get);
    assert_eq!(request.path, "/documents/abc123");
    assert!(request.query_params.is_empty());
    assert!(request.body.is_none());
}

#[test]
fn build_request_missing_required_path_param() {
    let err = spec()
        .build_request("getDocument", &vec![], &vec![], None)
        .unwrap_err();
    assert!(matches!(err, OpenApiError::InvalidParams { .. }));
}

#[test]
fn build_request_unknown_endpoint() {
    let err = spec()
        .build_request("noSuchOperation", &vec![], &vec![], None)
        .unwrap_err();
    assert!(matches!(err, OpenApiError::EndpointNotFound { .. }));
}

#[test]
fn build_request_with_query_params() {
    let request = spec()
        .build_request(
            "getDocuments",
            &vec![],
            &pairs(&[("q", "robot"), ("limit", "10")]),
            None,
        )
        .expect("should build");
    assert_eq!(request.method, HttpMethod::Get);
    assert_eq!(request.path, "/documents");
    assert_eq!(request.query_params.len(), 2);
}

#[test]
fn build_request_with_body() {
    let body = parse(r#"{"name": "My Document"}"#);
    let request = spec()
        .build_request("createDocument", &vec![], &vec![], Some(body))
        .expect("should build");
    assert_eq!(request.method, HttpMethod::Post);
    assert!(request.body.is_some());
    assert!(request.content_type.is_some());
}

#[test]
fn missing_paths_returns_error() {
    let err = OpenApiSpec::from_value(&parse(r#"{"openapi": "3.0.1"}"#)).unwrap_err();
    assert!(matches!(err, OpenApiError::InvalidSpec { .. }));
}

#[test]
fn ref_resolution_works() {
    let detail = spec().explain("getDocuments").expect("should find");
    let schema = detail.response_schema.expect("should have response schema");
    assert!(get(&schema, "properties").is_some());
}

#[test]
fn parameter_details_include_defaults() {
    let detail = spec().explain("getDocuments").expect("should find");
    let limit_param = detail
        .parameters
        .iter()
        .find(|p| p.name == "limit")
        .expect("should have limit param");
    assert_eq!(limit_param.default, Some(Json::Number(JsonNumber::PosInt(20))));
    assert_eq!(limit_param.location, ParameterLocation::Query);
    assert_eq!(limit_param.param_type, "integer");
    assert!(!limit_param.required);
}

#[test]
fn search_is_case_insensitive() {
    let spec = spec();
    let results_lower = spec.search("document", &SearchFilters::default());
    let results_upper = spec.search("DOCUMENT", &SearchFilters::default());
    assert_eq!(results_lower.len(), results_upper.len());
}

#[test]
fn truncate_description_cuts_long_text() {
    assert_eq!(truncate_description("short", 120), "short");
    assert_eq!(truncate_description("abcdefghij", 8), "abcde...");
    assert_eq!(truncate_description("abcdefgh", 8), "abcdefgh");
}

#[test]
fn http_method_parses_any_case() {
    assert_eq!(HttpMethod::from_str("pAtCh"), Some(HttpMethod::Patch));
    assert_eq!(HttpMethod::from_str("head"), None);
    assert_eq!(HttpMethod::Delete.as_str(), "DELETE");
}

#[test]
fn invalid_json_returns_error() {
    let err = OpenApiSpec::from_parsed(parsed("not json")).unwrap_err();
    assert!(matches!(err, OpenApiError::ParseError(_)));
}

#[test]
fn from_parsed_reads_a_parsed_document() {
    let spec = OpenApiSpec::from_parsed(parsed(test_spec_json())).expect("should parse");
    assert_eq!(spec.endpoint_count(), 5);
}

#[test]
fn search_ready_checks_description_cut_points() {
    assert!(spec().search_ready());
    let long = "é".repeat(70);
    let doc = format!(
        r#"{{"paths": {{"/x": {{"get": {{"operationId": "x", "description": "{long}"}}}}}}}}"#
    );
    let odd = OpenApiSpec::from_value(&parse(&doc)).expect("should parse");
    assert!(!odd.search_ready());
    let doc = format!(
        r#"{{"paths": {{"/x": {{"get": {{"operationId": "x", "description": "a{long}"}}}}}}}}"#
    );
    let even = OpenApiSpec::from_value(&parse(&doc)).expect("should parse");
    assert!(even.search_ready());
    let hits = even.search("", &SearchFilters::default());
    assert_eq!(hits.len(), 1);
    assert!(hits[0].description.ends_with("..."));
    assert_eq!(hits[0].description.len(), 120);
}
