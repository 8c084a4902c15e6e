use onshape_core::oauth::{
    build_authorize_url, normalize_token_type, validate_callback, validate_callback_pairs,
    CallbackValidationError, OAuthLoginConfig, OAuthSession, OAuthTokenData, PostExecuteAction,
    PreExecuteAction, StdDuration, TokenResponse, ONSHAPE_AUTH_URL_STR, ONSHAPE_TOKEN_URL_STR,
};
use onshape_core::time::{TimeSpan, UtcTime};

fn at(s: &str) -> UtcTime {
    let d = chrono::DateTime::parse_from_rfc3339(s).expect("parse");
    UtcTime::from_unix(d.timestamp(), d.timestamp_subsec_nanos())
}

fn plus(t: UtcTime, secs: i64) -> UtcTime {
    UtcTime {
        nanos: t.nanos + (secs as i128) * 1_000_000_000,
    }
}

fn tokens(access: &str, refresh: &str, expires_at: Option<UtcTime>) -> OAuthTokenData {
    OAuthTokenData {
        access_token: access.to_string(),
        refresh_token: refresh.to_string(),
        expires_at,
        token_type: "bearer".to_string(),
        scopes: None,
    }
}

fn make_session(expires_at: Option<UtcTime>) -> OAuthSession {
    OAuthSession::new(tokens("at", "rt", expires_at), TimeSpan::seconds(60))
}

fn response(access: &str, refresh: Option<&str>, expires_in: Option<u64>) -> TokenResponse {
    TokenResponse {
        access_token: access.to_string(),
        refresh_token: refresh.map(str::to_string),
        expires_in: expires_in.map(|secs| StdDuration {
            secs,
            subsec_nanos: 0,
        }),
        token_type: "bearer".to_string(),
        scopes: None,
    }
}

#[test]
fn is_expired_returns_true_when_past() {
    let t = tokens("at", "rt", Some(at("2024-01-01T00:00:00Z")));
    assert!(t.is_expired(at("2025-01-01T00:00:00Z")));
}

#[test]
fn is_expired_returns_true_when_exactly_at_expiry() {
    let expires = at("2025-01-01T00:00:00Z");
    let t = tokens("at", "rt", Some(expires));
    assert!(t.is_expired(expires));
}

#[test]
fn is_expired_returns_false_when_future() {
    let t = tokens("at", "rt", Some(at("2030-01-01T00:00:00Z")));
    assert!(!t.is_expired(at("2025-01-01T00:00:00Z")));
}

#[test]
fn is_expired_returns_false_when_no_expiry() {
    let t = tokens("at", "rt", None);
    assert!(!t.is_expired(at("2025-01-01T00:00:00Z")));
}

#[test]
fn token_type_bearer_case_insensitive() {
    assert_eq!(normalize_token_type("Bearer").expect("accepted"), "bearer");
}

#[test]
fn token_type_bearer_all_caps() {
    assert_eq!(normalize_token_type("BEARER").expect("accepted"), "bearer");
}

#[test]
fn token_type_invalid_rejects() {
    let msg = normalize_token_type("mac").expect_err("should reject non-bearer token type");
    assert!(
        msg.contains("invalid token_type"),
        "error should mention invalid token_type: {msg}"
    );
    assert_eq!(msg, "invalid token_type \"mac\", expected \"bearer\"");
}

#[test]
fn onshape_auth_url_is_valid() {
    assert!(url::Url::parse(ONSHAPE_AUTH_URL_STR).is_ok());
}

#[test]
fn onshape_token_url_is_valid() {
    assert!(url::Url::parse(ONSHAPE_TOKEN_URL_STR).is_ok());
}

#[test]
fn from_response_with_expiry() {
    let now = at("2025-06-01T12:00:00Z");
    let r = response("test-access-token", Some("test-refresh-token"), Some(3600));
    let token_data = OAuthTokenData::from_response(&r, now);
    assert_eq!(token_data.access_token, "test-access-token");
    assert_eq!(token_data.refresh_token, "test-refresh-token");
    let expires_at = token_data.expires_at.expect("should have expiry");
    assert_eq!(expires_at, plus(now, 3600), "expires_at should be exactly now + 3600s");
}

#[test]
fn from_response_without_expiry() {
    let now = at("2025-06-01T12:00:00Z");
    let r = response("test-access-token", None, None);
    let token_data = OAuthTokenData::from_response(&r, now);
    assert_eq!(token_data.access_token, "test-access-token");
    assert!(token_data.expires_at.is_none());
    assert!(token_data.refresh_token.is_empty());
    assert!(token_data.scopes.is_none());
}

#[test]
fn from_response_preserves_scopes() {
    let now = at("2025-06-01T12:00:00Z");
    let mut r = response("test-at", Some("test-rt"), None);
    r.scopes = Some(vec!["OAuth2Read".to_string(), "OAuth2Write".to_string()]);
    let token_data = OAuthTokenData::from_response(&r, now);
    let scopes = token_data.scopes.expect("should have scopes");
    assert_eq!(scopes, vec!["OAuth2Read", "OAuth2Write"]);
}

#[test]
fn from_response_keeps_subsecond_lifetime() {
    let now = at("2025-06-01T12:00:00Z");
    let mut r = response("at", None, None);
    r.expires_in = Some(StdDuration {
        secs: 1,
        subsec_nanos: 500_000_000,
    });
    let token_data = OAuthTokenData::from_response(&r, now);
    assert_eq!(
        token_data.expires_at,
        Some(UtcTime {
            nanos: now.nanos + 1_500_000_000
        })
    );
}

#[test]
fn is_expiring_soon_false_when_well_before_margin() {
    let t = tokens("at", "rt", Some(at("2025-01-01T00:02:00Z")));
    assert!(!t.is_expiring_soon(at("2025-01-01T00:00:00Z"), TimeSpan::seconds(60)));
}

#[test]
fn is_expiring_soon_true_when_within_margin() {
    let t = tokens("at", "rt", Some(at("2025-01-01T00:00:55Z")));
    assert!(t.is_expiring_soon(at("2025-01-01T00:00:00Z"), TimeSpan::seconds(60)));
}

#[test]
fn is_expiring_soon_true_when_already_expired() {
    let t = tokens("at", "rt", Some(at("2024-12-31T23:59:00Z")));
    assert!(t.is_expiring_soon(at("2025-01-01T00:00:00Z"), TimeSpan::seconds(60)));
}

#[test]
fn is_expiring_soon_false_when_no_expiry() {
    let t = tokens("at", "rt", None);
    assert!(!t.is_expiring_soon(at("2025-01-01T00:00:00Z"), TimeSpan::seconds(60)));
}

#[test]
fn is_expiring_soon_true_at_exact_margin_boundary() {
    let t = tokens("at", "rt", Some(at("2025-01-01T00:01:00Z")));
    assert!(t.is_expiring_soon(at("2025-01-01T00:00:00Z"), TimeSpan::seconds(60)));
}

#[test]
fn pre_execute_proceed_when_well_before_expiry() {
    let session = make_session(Some(at("2025-01-01T00:02:00Z")));
    assert_eq!(
        session.pre_execute_action(at("2025-01-01T00:00:00Z")),
        PreExecuteAction::Proceed
    );
}

#[test]
fn pre_execute_refresh_when_within_margin() {
    let session = make_session(Some(at("2025-01-01T00:00:55Z")));
    assert_eq!(
        session.pre_execute_action(at("2025-01-01T00:00:00Z")),
        PreExecuteAction::RefreshNeeded
    );
}

#[test]
fn pre_execute_refresh_when_already_expired() {
    let session = make_session(Some(at("2024-12-31T23:00:00Z")));
    assert_eq!(
        session.pre_execute_action(at("2025-01-01T00:00:00Z")),
        PreExecuteAction::RefreshNeeded
    );
}

#[test]
fn pre_execute_proceed_when_no_expiry() {
    let session = make_session(None);
    assert_eq!(
        session.pre_execute_action(at("2025-01-01T00:00:00Z")),
        PreExecuteAction::Proceed
    );
}

#[test]
fn post_execute_done_on_200() {
    let session = make_session(None);
    assert_eq!(session.post_execute_action(200, false), PostExecuteAction::Done);
}

#[test]
fn post_execute_refresh_and_retry_on_401_not_refreshed() {
    let session = make_session(None);
    assert_eq!(
        session.post_execute_action(401, false),
        PostExecuteAction::RefreshAndRetry
    );
}

#[test]
fn post_execute_done_on_401_already_refreshed() {
    let session = make_session(None);
    assert_eq!(session.post_execute_action(401, true), PostExecuteAction::Done);
}

#[test]
fn post_execute_done_on_403() {
    let session = make_session(None);
    assert_eq!(session.post_execute_action(403, false), PostExecuteAction::Done);
}

#[test]
fn apply_external_tokens_adopts_fresher_tokens() {
    let now = at("2025-01-01T00:00:00Z");
    let mut session = OAuthSession::new(
        tokens("old-at", "old-rt", Some(plus(now, 100))),
        TimeSpan::seconds(60),
    );
    let external = tokens("new-at", "new-rt", Some(plus(now, 3600)));
    assert!(session.apply_external_tokens(external, now));
    assert_eq!(session.access_token(), "new-at");
    assert_eq!(session.refresh_token(), "new-rt");
}

#[test]
fn apply_external_tokens_rejects_same_or_earlier_expiry() {
    let now = at("2025-01-01T00:00:00Z");
    let mut session = OAuthSession::new(
        tokens("current-at", "current-rt", Some(plus(now, 3600))),
        TimeSpan::seconds(60),
    );
    let external = tokens("external-at", "external-rt", Some(plus(now, 3600)));
    assert!(!session.apply_external_tokens(external, now));
    assert_eq!(session.access_token(), "current-at");
}

#[test]
fn apply_external_tokens_rejects_expired_external_tokens() {
    let now = at("2025-01-01T00:00:00Z");
    let mut session = OAuthSession::new(
        tokens("current-at", "current-rt", Some(plus(now, -100))),
        TimeSpan::seconds(60),
    );
    let external = tokens("external-at", "external-rt", Some(plus(now, -50)));
    assert!(!session.apply_external_tokens(external, now));
    assert_eq!(session.access_token(), "current-at");
}

#[test]
fn apply_external_tokens_rejects_when_both_none_expiry() {
    let now = at("2025-01-01T00:00:00Z");
    let mut session = OAuthSession::new(tokens("current-at", "current-rt", None), TimeSpan::seconds(60));
    let external = tokens("external-at", "external-rt", None);
    assert!(!session.apply_external_tokens(external, now));
    assert_eq!(session.access_token(), "current-at");
}

#[test]
fn apply_external_tokens_rejects_when_external_has_none_expiry() {
    let now = at("2025-01-01T00:00:00Z");
    let mut session = OAuthSession::new(
        tokens("current-at", "current-rt", Some(plus(now, 100))),
        TimeSpan::seconds(60),
    );
    let external = tokens("external-at", "external-rt", None);
    assert!(!session.apply_external_tokens(external, now));
    assert_eq!(session.access_token(), "current-at");
}

#[test]
fn apply_refresh_updates_tokens_with_expiry() {
    let mut session = make_session(None);
    let now = at("2025-06-01T12:00:00Z");
    session.apply_refresh(&response("new-access-token", Some("new-refresh-token"), Some(3600)), now);
    assert_eq!(session.access_token(), "new-access-token");
    assert_eq!(session.refresh_token(), "new-refresh-token");
    let expires_at = session.tokens.expires_at.expect("should have expiry");
    assert_eq!(expires_at, plus(now, 3600), "expires_at should be exactly now + 3600s");
}

#[test]
fn apply_refresh_updates_tokens_without_expiry() {
    let now = at("2025-06-01T12:00:00Z");
    let mut session = make_session(Some(now));
    session.apply_refresh(&response("new-at", None, None), now);
    assert_eq!(session.access_token(), "new-at");
    assert!(session.tokens.expires_at.is_none());
}

#[test]
fn apply_refresh_keeps_refresh_token_when_response_has_none() {
    let now = at("2025-06-01T12:00:00Z");
    let mut session = make_session(None);
    session.apply_refresh(&response("new-at", None, Some(60)), now);
    assert_eq!(session.refresh_token(), "rt");
    assert_eq!(session.refresh_margin, TimeSpan::seconds(60));
}

#[test]
fn from_raw_creates_token_data() {
    let t = OAuthTokenData::from_raw(
        "access-token".into(),
        "refresh-token".into(),
        None,
        "bearer".into(),
        Some(vec!["OAuth2Read".into(), "OAuth2Write".into()]),
    );
    assert_eq!(t.access_token, "access-token");
    assert_eq!(t.refresh_token, "refresh-token");
    assert!(t.expires_at.is_none());
    assert_eq!(t.token_type, "bearer");
    assert_eq!(
        t.scopes,
        Some(vec!["OAuth2Read".to_string(), "OAuth2Write".to_string()])
    );
}

fn test_login_config() -> OAuthLoginConfig {
    OAuthLoginConfig {
        client_id: "test-client-id".into(),
        redirect_uri: "http://127.0.0.1:18338/callback".into(),
        scopes: vec!["OAuth2Read".into(), "OAuth2Write".into()],
    }
}

fn query_map(url: &url::Url) -> std::collections::HashMap<String, String> {
    url.query_pairs()
        .map(|(k, v)| (k.into_owned(), v.into_owned()))
        .collect()
}

#[test]
fn build_authorize_url_contains_required_params() {
    let config = test_login_config();
    let url_str = build_authorize_url(&config, "test-state-token", "a-pkce-verifier-of-enough-length-0123456789")
        .expect("redirect URI is valid");
    let url = url::Url::parse(&url_str).expect("should be a valid URL");

    assert_eq!(url.scheme(), "https");
    assert_eq!(url.host_str(), Some("oauth.onshape.com"));
    assert_eq!(url.path(), "/oauth/authorize");

    let params = query_map(&url);
    assert_eq!(params.get("client_id").map(String::as_str), Some("test-client-id"));
    assert_eq!(
        params.get("redirect_uri").map(String::as_str),
        Some("http://127.0.0.1:18338/callback")
    );
    assert_eq!(params.get("response_type").map(String::as_str), Some("code"));
    assert_eq!(params.get("state").map(String::as_str), Some("test-state-token"));
    assert!(params.contains_key("code_challenge"));
    assert_eq!(
        params.get("code_challenge_method").map(String::as_str),
        Some("S256")
    );
    let scope = params.get("scope").expect("should have scope parameter");
    assert!(scope.contains("OAuth2Read"));
    assert!(scope.contains("OAuth2Write"));
}

#[test]
fn build_authorize_url_with_no_scopes() {
    let config = OAuthLoginConfig {
        client_id: "cid".into(),
        redirect_uri: "http://127.0.0.1:18338/callback".into(),
        scopes: vec![],
    };
    let url_str = build_authorize_url(&config, "state", "a-pkce-verifier-of-enough-length-0123456789")
        .expect("redirect URI is valid");
    let url = url::Url::parse(&url_str).expect("should be a valid URL");
    assert!(!query_map(&url).contains_key("scope"));
}

#[test]
fn build_authorize_url_rejects_invalid_redirect_uri() {
    let config = OAuthLoginConfig {
        client_id: "cid".into(),
        redirect_uri: "not a url".into(),
        scopes: vec![],
    };
    assert!(build_authorize_url(&config, "state", "a-pkce-verifier-of-enough-length-0123456789").is_none());
}

#[test]
fn validate_callback_extracts_code() {
    let callback = "http://127.0.0.1:18338/callback?code=auth-code-123&state=my-state";
    let code = validate_callback(callback, "my-state").expect("should validate");
    assert_eq!(code, "auth-code-123");
}

#[test]
fn validate_callback_detects_state_mismatch() {
    let callback = "http://127.0.0.1:18338/callback?code=abc&state=wrong-state";
    let err = validate_callback(callback, "expected-state").expect_err("should fail");
    assert_eq!(
        err,
        CallbackValidationError::StateMismatch {
            expected: "expected-state".to_string(),
            actual: "wrong-state".to_string(),
        }
    );
}

#[test]
fn validate_callback_detects_oauth_error() {
    let callback = "http://127.0.0.1:18338/callback?error=access_denied&error_description=User+denied+access&state=my-state";
    let err = validate_callback(callback, "my-state").expect_err("should fail");
    match err {
        CallbackValidationError::OAuthError { error, description } => {
            assert_eq!(error, "access_denied");
            assert_eq!(description.as_deref(), Some("User denied access"));
        }
        other => panic!("expected OAuthError, got: {other:?}"),
    }
}

#[test]
fn validate_callback_detects_missing_state() {
    let callback = "http://127.0.0.1:18338/callback?code=abc";
    let err = validate_callback(callback, "my-state").expect_err("should fail");
    assert!(
        matches!(err, CallbackValidationError::MissingState),
        "expected MissingState, got: {err:?}"
    );
}

#[test]
fn validate_callback_detects_missing_code() {
    let callback = "http://127.0.0.1:18338/callback?state=my-state";
    let err = validate_callback(callback, "my-state").expect_err("should fail");
    assert!(
        matches!(err, CallbackValidationError::MissingCode),
        "expected MissingCode, got: {err:?}"
    );
}

#[test]
fn validate_callback_detects_invalid_url() {
    let err = validate_callback("not a url at all ://", "my-state").expect_err("should fail");
    assert!(
        matches!(err, CallbackValidationError::InvalidUrl(_)),
        "expected InvalidUrl, got: {err:?}"
    );
}

#[test]
fn validate_callback_pairs_uses_last_value_of_repeated_name() {
    let pairs = vec![
        ("state".to_string(), "x".to_string()),
        ("code".to_string(), "first".to_string()),
        ("state".to_string(), "s".to_string()),
        ("code".to_string(), "second".to_string()),
    ];
    assert_eq!(validate_callback_pairs(&pairs, "s"), Ok("second".to_string()));
}
