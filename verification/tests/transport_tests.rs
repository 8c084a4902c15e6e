use onshape_core::auth::Credentials;
use onshape_core::json::Json;
use onshape_core::oauth::StdDuration;
use onshape_core::request::{ApiRequest, HttpMethod, MultipartBody, RequestBody};
use onshape_core::transport::{
    authorization_value, effective_timeout, normalize_base_url, request_headers, request_url,
    ClientAuthConfig, ClientError, TransportFailure, DEFAULT_TIMEOUT_SECS,
};

fn secs(s: u64) -> StdDuration {
    StdDuration {
        secs: s,
        subsec_nanos: 0,
    }
}

fn basic() -> ClientAuthConfig {
    ClientAuthConfig::Basic {
        credentials: Credentials {
            access_key: "access".to_string(),
            secret_key: "secret".to_string(),
        },
    }
}

fn request(body: Option<RequestBody>, content_type: Option<&str>) -> ApiRequest {
    ApiRequest {
        method: HttpMethod::Post,
        path: "/documents".to_string(),
        query_params: vec![],
        headers: vec![],
        body,
        content_type: content_type.map(str::to_string),
    }
}

fn failure(flags: [bool; 5]) -> TransportFailure {
    TransportFailure {
        is_timeout: flags[0],
        is_connect: flags[1],
        is_builder: flags[2],
        is_body: flags[3],
        is_decode: flags[4],
        message: "boom".to_string(),
    }
}

#[test]
fn client_strips_trailing_slash_from_base_url() {
    assert_eq!(
        normalize_base_url("https://cad.onshape.com/api/v14/"),
        "https://cad.onshape.com/api/v14"
    );
    assert_eq!(
        normalize_base_url("https://cad.onshape.com/api/v14///"),
        "https://cad.onshape.com/api/v14"
    );
    assert_eq!(normalize_base_url("https://x"), "https://x");
    assert_eq!(normalize_base_url("///"), "");
}

#[test]
fn client_uses_default_timeout_when_none() {
    assert_eq!(effective_timeout(None), secs(DEFAULT_TIMEOUT_SECS));
    assert_eq!(DEFAULT_TIMEOUT_SECS, 30);
}

#[test]
fn client_uses_custom_timeout() {
    assert_eq!(effective_timeout(Some(secs(10))), secs(10));
}

#[test]
fn request_url_joins_base_and_path() {
    assert_eq!(
        request_url("https://cad.onshape.com/api/v14", "/documents/abc"),
        "https://cad.onshape.com/api/v14/documents/abc"
    );
}

#[test]
fn authorization_value_uses_configured_scheme() {
    assert_eq!(authorization_value(&basic()), "Basic YWNjZXNzOnNlY3JldA==");
    let bearer = ClientAuthConfig::Bearer {
        access_token: "test-oauth-token".to_string(),
    };
    assert_eq!(authorization_value(&bearer), "Bearer test-oauth-token");
}

#[test]
fn request_headers_for_json_body_keep_declared_content_type() {
    let req = request(
        Some(RequestBody::Json(Json::Object(vec![]))),
        Some("application/json;charset=UTF-8; qs=0.09"),
    );
    assert_eq!(
        request_headers(&basic(), &req),
        vec![
            ("Authorization".to_string(), "Basic YWNjZXNzOnNlY3JldA==".to_string()),
            ("Accept".to_string(), "application/json".to_string()),
            (
                "Content-Type".to_string(),
                "application/json;charset=UTF-8; qs=0.09".to_string()
            ),
        ]
    );
}

#[test]
fn request_headers_default_json_content_type() {
    let req = request(Some(RequestBody::Json(Json::Null)), None);
    let headers = request_headers(&basic(), &req);
    assert_eq!(
        headers[2],
        ("Content-Type".to_string(), "application/json".to_string())
    );
}

#[test]
fn request_headers_without_json_body_have_no_content_type() {
    let none = request(None, Some("application/json"));
    assert_eq!(request_headers(&basic(), &none).len(), 2);
    let multipart = request(
        Some(RequestBody::Multipart(MultipartBody {
            text_fields: vec![],
            binary_fields: vec![],
        })),
        Some("multipart/form-data"),
    );
    assert_eq!(request_headers(&basic(), &multipart).len(), 2);
}

#[test]
fn transport_failures_are_classified_in_order() {
    let t = secs(30);
    assert_eq!(
        ClientError::classify(&failure([true, true, true, true, true]), t),
        ClientError::Timeout { timeout: t }
    );
    assert_eq!(
        ClientError::classify(&failure([false, true, true, false, false]), t),
        ClientError::Connection {
            message: "boom".to_string()
        }
    );
    assert_eq!(
        ClientError::classify(&failure([false, false, true, true, false]), t),
        ClientError::RequestBuild {
            message: "boom".to_string()
        }
    );
    assert_eq!(
        ClientError::classify(&failure([false, false, false, false, true]), t),
        ClientError::ResponseBody {
            message: "boom".to_string()
        }
    );
    assert_eq!(
        ClientError::classify(&failure([false, false, false, false, false]), t),
        ClientError::Transport {
            message: "boom".to_string()
        }
    );
}

#[test]
fn client_auth_config_clone_keeps_credentials() {
    let auth = basic();
    let copy = auth.clone();
    assert_eq!(copy, auth);
    assert_eq!(authorization_value(&copy), authorization_value(&auth));
}
