use onshape_core::json::Json;
use onshape_core::request::{
    find_header, parse_method_case_insensitive, ApiResponse, HttpMethod, MultipartBody,
    RequestBody, ResponseBody, UnknownHttpMethod,
};

#[test]
fn http_method_from_str_lowercase() {
    assert_eq!(parse_method_case_insensitive("get"), Ok(HttpMethod::Get));
    assert_eq!(parse_method_case_insensitive("post"), Ok(HttpMethod::Post));
    assert_eq!(parse_method_case_insensitive("put"), Ok(HttpMethod::Put));
    assert_eq!(parse_method_case_insensitive("delete"), Ok(HttpMethod::Delete));
    assert_eq!(parse_method_case_insensitive("patch"), Ok(HttpMethod::Patch));
}

#[test]
fn http_method_from_str_uppercase() {
    assert_eq!(parse_method_case_insensitive("GET"), Ok(HttpMethod::Get));
    assert_eq!(parse_method_case_insensitive("POST"), Ok(HttpMethod::Post));
}

#[test]
fn http_method_from_str_mixed_case() {
    assert_eq!(parse_method_case_insensitive("Get"), Ok(HttpMethod::Get));
    assert_eq!(parse_method_case_insensitive("PoSt"), Ok(HttpMethod::Post));
}

#[test]
fn http_method_from_str_unknown() {
    assert!(parse_method_case_insensitive("").is_err());
}

#[test]
fn http_method_rejects_non_token_names() {
    assert_eq!(
        parse_method_case_insensitive("get it"),
        Err(UnknownHttpMethod("get it".to_string()))
    );
    assert_eq!(
        parse_method_case_insensitive("pöst"),
        Err(UnknownHttpMethod("pöst".to_string()))
    );
}

#[test]
fn http_method_accepts_other_standard_and_extension_names() {
    assert_eq!(parse_method_case_insensitive("head"), Ok(HttpMethod::Head));
    assert_eq!(parse_method_case_insensitive("Options"), Ok(HttpMethod::Options));
    assert_eq!(parse_method_case_insensitive("query"), Ok(HttpMethod::Query));
    assert_eq!(
        parse_method_case_insensitive("fetch"),
        Ok(HttpMethod::Extension("FETCH".to_string()))
    );
    assert_eq!(HttpMethod::Extension("FETCH".to_string()).as_str(), "FETCH");
}

#[test]
fn http_method_display() {
    assert_eq!(HttpMethod::Get.as_str(), "GET");
    assert_eq!(HttpMethod::Post.as_str(), "POST");
    assert_eq!(HttpMethod::Put.as_str(), "PUT");
    assert_eq!(HttpMethod::Delete.as_str(), "DELETE");
    assert_eq!(HttpMethod::Patch.as_str(), "PATCH");
}

#[test]
fn request_body_as_json() {
    let json_body = RequestBody::Json(Json::Object(vec![(
        "key".to_string(),
        Json::String("value".to_string()),
    )]));
    assert!(json_body.as_json().is_some());

    let multipart_body = RequestBody::Multipart(MultipartBody {
        text_fields: vec![],
        binary_fields: vec![],
    });
    assert!(multipart_body.as_json().is_none());
}

#[test]
fn response_body_text_decodes_strict_utf8() {
    let body = ResponseBody::new(b"plain text".to_vec());
    assert_eq!(body.as_bytes(), b"plain text");
    assert_eq!(body.text().expect("should decode"), "plain text");
}

#[test]
fn response_body_text_rejects_invalid_utf8() {
    let body = ResponseBody::new(vec![0xff]);
    assert!(body.text().is_err());
    assert_eq!(body.text_lossy(), "\u{fffd}");
}

#[test]
fn response_body_text_lossy_keeps_valid_text() {
    let body = ResponseBody::new("héllo".as_bytes().to_vec());
    assert_eq!(body.text_lossy(), "héllo");
}

#[test]
fn api_response_header_lookup_is_case_insensitive() {
    let response = ApiResponse {
        status: 200,
        headers: vec![("content-type".to_string(), "application/json".to_string())],
        body: ResponseBody::new(b"{}".to_vec()),
    };

    assert_eq!(response.header("content-type"), Some("application/json"));
    assert_eq!(response.header("CONTENT-TYPE"), Some("application/json"));
    assert_eq!(response.content_type(), Some("application/json"));
    assert_eq!(response.header("x-missing"), None);
}

#[test]
fn find_header_takes_first_match() {
    let headers = vec![
        ("X-A".to_string(), "1".to_string()),
        ("x-a".to_string(), "2".to_string()),
    ];
    assert_eq!(find_header(&headers, "x-A").map(|s| s.as_str()), Some("1"));
}
