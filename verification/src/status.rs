//! The authentication status reported to clients: what the credential
//! configuration says, overlaid with the outcome of the last validation
//! against the API.
use vstd::prelude::*;
use crate::auth::AuthMethod;
use crate::config::ResolvedAuth;
use crate::time::UtcTime;
use crate::text::concat;

verus! {

/// Authentication status of the API connection.
#[derive(Clone, Copy, Debug, PartialEq, Eq, Structural)]
pub enum AuthStatus {
    /// Credentials are valid and working.
    Valid,
    /// Credentials are invalid.
    Invalid,
    /// Credentials have expired.
    Expired,
    /// No credentials are configured.
    NotConfigured,
    /// Credentials are configured but not validated against the API.
    NotValidated,
}

/// Whether credentials were confirmed working by an API call.
#[derive(Clone, Copy, Debug, PartialEq, Eq, Structural)]
pub enum ValidationStatus {
    /// Confirmed working.
    Valid,
    /// Confirmed invalid (the API answered 401).
    Invalid,
    /// Not validated yet.
    NotValidated,
}

/// Runtime credential validation state.
#[derive(Debug, PartialEq)]
pub struct ValidationState {
    /// Whether credentials have been validated.
    pub status: ValidationStatus,
    /// When the last validation check occurred.
    pub last_check: Option<UtcTime>,
    /// Detail about the validation result.
    pub message: Option<String>,
}

impl Default for ValidationState {
    fn default() -> (r: Self)
        ensures
            r.status == ValidationStatus::NotValidated,
            r.last_check is None,
            r.message is None,
    {
        ValidationState { status: ValidationStatus::NotValidated, last_check: None, message: None }
    }
}

impl ValidationState {
    /// A copy of the state.
    pub fn duplicate(&self) -> (r: ValidationState)
        ensures
            r == *self,
    {
        let message = match &self.message {
            Some(m) => Some(m.clone()),
            None => None,
        };
        ValidationState { status: self.status, last_check: self.last_check, message }
    }
}

/// The authentication status reported to clients.
#[derive(Debug, PartialEq)]
pub struct AuthStatusResult {
    /// Current authentication status.
    pub status: AuthStatus,
    /// Configured authentication method.
    pub auth_method: AuthMethod,
    /// Time of the last authentication check, if any.
    pub last_check: Option<UtcTime>,
    /// Explanation of the status.
    pub message: Option<String>,
}

/// Message for credentials that were never validated.
pub open spec fn msg_basic_unvalidated() -> Seq<char> {
    "Credentials configured but not yet validated against Onshape API"@
}

/// Message for an expired OAuth access token.
pub open spec fn msg_oauth_expired() -> Seq<char> {
    "OAuth access token has expired. Token refresh will be attempted on next API call."@
}

/// Message for an OAuth access token that was never validated.
pub open spec fn msg_oauth_unvalidated() -> Seq<char> {
    "OAuth access token present but not yet validated against Onshape API"@
}

/// Message for OAuth client credentials without a token.
pub open spec fn msg_oauth_pending() -> Seq<char> {
    "OAuth client credentials configured but no access token present. Complete the OAuth authorization flow to obtain tokens."@
}

/// Default message of a successful validation.
pub open spec fn msg_validated() -> Seq<char> {
    "Credentials validated successfully"@
}

/// Default message of a failed validation.
pub open spec fn msg_invalid() -> Seq<char> {
    "Credentials are invalid"@
}

/// Whether an OAuth token with expiry `expires_at` has expired at `now`.
pub open spec fn token_expired(expires_at: Option<UtcTime>, now: UtcTime) -> bool {
    expires_at matches Some(e) && e.nanos <= now.nanos
}

/// The status that the credential configuration alone gives.
pub open spec fn configured_status(resolved: ResolvedAuth, now: UtcTime) -> AuthStatus {
    match resolved {
        ResolvedAuth::NotConfigured { .. } => AuthStatus::NotConfigured,
        ResolvedAuth::Basic => AuthStatus::NotValidated,
        ResolvedAuth::OAuthReady { expires_at } => if token_expired(expires_at, now) {
            AuthStatus::Expired
        } else {
            AuthStatus::NotValidated
        },
        ResolvedAuth::OAuthPending => AuthStatus::NotConfigured,
    }
}

/// The authentication method that the credential configuration names.
pub open spec fn configured_method(resolved: ResolvedAuth) -> AuthMethod {
    match resolved {
        ResolvedAuth::NotConfigured { configured_method, .. } => configured_method,
        ResolvedAuth::Basic => AuthMethod::Basic,
        ResolvedAuth::OAuthReady { .. } => AuthMethod::OAuth,
        ResolvedAuth::OAuthPending => AuthMethod::OAuth,
    }
}

/// The message that the credential configuration alone gives.
pub open spec fn configured_message(resolved: ResolvedAuth, now: UtcTime) -> Seq<char> {
    match resolved {
        ResolvedAuth::NotConfigured { detail, .. } => detail@,
        ResolvedAuth::Basic => msg_basic_unvalidated(),
        ResolvedAuth::OAuthReady { expires_at } => if token_expired(expires_at, now) {
            msg_oauth_expired()
        } else {
            msg_oauth_unvalidated()
        },
        ResolvedAuth::OAuthPending => msg_oauth_pending(),
    }
}

/// Whether a validation outcome replaces the configured status: only a
/// decided outcome (valid or invalid), and only over a status where
/// credentials are present (not validated, or expired).
pub open spec fn validation_overrides(base: AuthStatus, v: Option<&ValidationState>) -> bool {
    match v {
        Some(state) => (base == AuthStatus::NotValidated || base == AuthStatus::Expired)
            && state.status != ValidationStatus::NotValidated,
        None => false,
    }
}

/// The status a decided validation outcome reports.
pub open spec fn validated_status(s: ValidationStatus) -> AuthStatus {
    if s == ValidationStatus::Valid {
        AuthStatus::Valid
    } else {
        AuthStatus::Invalid
    }
}

/// The message a decided validation outcome reports: its own, else the
/// default for the outcome.
pub open spec fn validated_message(state: ValidationState) -> Seq<char> {
    match state.message {
        Some(m) => m@,
        None => if state.status == ValidationStatus::Valid {
            msg_validated()
        } else {
            msg_invalid()
        },
    }
}

/// What `AuthStatusResult::new` reports for `resolved`, `validation` and `now`.
pub open spec fn status_result_spec(
    resolved: ResolvedAuth,
    validation: Option<&ValidationState>,
    now: UtcTime,
    r: AuthStatusResult,
) -> bool {
    let base = configured_status(resolved, now);
    &&& r.auth_method == configured_method(resolved)
    &&& if validation_overrides(base, validation) {
        let state = *validation->0;
        &&& r.status == validated_status(state.status)
        &&& r.last_check == state.last_check
        &&& r.message matches Some(m) && m@ == validated_message(state)
    } else {
        &&& r.status == base
        &&& r.last_check is None
        &&& r.message matches Some(m) && m@ == configured_message(resolved, now)
    }
}

impl AuthStatusResult {
    /// The status for the credential configuration `resolved`, overlaid with
    /// the validation outcome `validation` where credentials are present.
    /// A missing configuration or a pending OAuth flow takes precedence over
    /// any validation outcome; an expired token may be overridden, since the
    /// validating request refreshes it first.
    pub fn new(resolved: &ResolvedAuth, validation: Option<&ValidationState>, now: UtcTime) -> (r:
        AuthStatusResult)
        ensures
            status_result_spec(*resolved, validation, now, r),
    {
        let mut result = match resolved {
            ResolvedAuth::NotConfigured { configured_method, detail } => AuthStatusResult {
                status: AuthStatus::NotConfigured,
                auth_method: *configured_method,
                last_check: None,
                message: Some(detail.clone()),
            },
            ResolvedAuth::Basic => AuthStatusResult {
                status: AuthStatus::NotValidated,
                auth_method: AuthMethod::Basic,
                last_check: None,
                message: Some(
                    "Credentials configured but not yet validated against Onshape API".to_owned(),
                ),
            },
            ResolvedAuth::OAuthReady { expires_at } => {
                let expired = match expires_at {
                    Some(e) => e.nanos <= now.nanos,
                    None => false,
                };
                if expired {
                    AuthStatusResult {
                        status: AuthStatus::Expired,
                        auth_method: AuthMethod::OAuth,
                        last_check: None,
                        message: Some(
                            "OAuth access token has expired. Token refresh will be attempted on next API call.".to_owned(),
                        ),
                    }
                } else {
                    AuthStatusResult {
                        status: AuthStatus::NotValidated,
                        auth_method: AuthMethod::OAuth,
                        last_check: None,
                        message: Some(
                            "OAuth access token present but not yet validated against Onshape API".to_owned(),
                        ),
                    }
                }
            },
            ResolvedAuth::OAuthPending => AuthStatusResult {
                status: AuthStatus::NotConfigured,
                auth_method: AuthMethod::OAuth,
                last_check: None,
                message: Some(
                    "OAuth client credentials configured but no access token present. Complete the OAuth authorization flow to obtain tokens.".to_owned(),
                ),
            },
        };
        if let Some(v) = validation {
            let can_override = match result.status {
                AuthStatus::NotValidated => true,
                AuthStatus::Expired => true,
                _ => false,
            };
            if can_override {
                match v.status {
                    ValidationStatus::Valid => {
                        result.status = AuthStatus::Valid;
                        result.last_check = v.last_check;
                        result.message = Some(
                            match &v.message {
                                Some(m) => m.clone(),
                                None => "Credentials validated successfully".to_owned(),
                            },
                        );
                    },
                    ValidationStatus::Invalid => {
                        result.status = AuthStatus::Invalid;
                        result.last_check = v.last_check;
                        result.message = Some(
                            match &v.message {
                                Some(m) => m.clone(),
                                None => "Credentials are invalid".to_owned(),
                            },
                        );
                    },
                    ValidationStatus::NotValidated => {},
                }
            }
        }
        result
    }

    /// The status for the credential configuration alone.
    pub fn from_resolved(resolved: &ResolvedAuth, now: UtcTime) -> (r: AuthStatusResult)
        ensures
            status_result_spec(*resolved, None, now, r),
    {
        AuthStatusResult::new(resolved, None, now)
    }
}

/// The closing line of a successful model regeneration.
pub const CATCH_PHRASE: &'static str = "Model regeneration complete. No rebuild errors. All features resolved.";

/// The server's introduction, shared by the initialize response and the
/// getting-started tool.
pub open spec fn instructions_text() -> Seq<char> {
    "Onshape MCP server for CAD integration. This server provides insight resources with practical Onshape API guidance. Before calling endpoints for the first time, list and read relevant resources to avoid common pitfalls. "@
        + CATCH_PHRASE@
}

/// The server's introduction text.
pub fn instructions() -> (r: String)
    ensures
        r@ == instructions_text(),
{
    let v = concat(
        "Onshape MCP server for CAD integration. This server provides insight resources with practical Onshape API guidance. Before calling endpoints for the first time, list and read relevant resources to avoid common pitfalls. ",
        CATCH_PHRASE,
    );
    crate::text::string_from(v.as_slice())
}

/// A validation outcome never changes the method, and a missing
/// configuration or a pending OAuth flow is reported as not configured
/// whatever the validation says.
pub proof fn lemma_structural_status_wins(
    resolved: ResolvedAuth,
    validation: Option<&ValidationState>,
    now: UtcTime,
    r: AuthStatusResult,
)
    requires
        status_result_spec(resolved, validation, now, r),
        resolved is NotConfigured || resolved is OAuthPending,
    ensures
        r.status == AuthStatus::NotConfigured,
        r.auth_method == configured_method(resolved),
{
}

/// A validation outcome that was not decided leaves the configured status
/// as it is.
pub proof fn lemma_undecided_validation_neutral(
    resolved: ResolvedAuth,
    state: &ValidationState,
    now: UtcTime,
    r: AuthStatusResult,
    s: AuthStatusResult,
)
    requires
        state.status == ValidationStatus::NotValidated,
        status_result_spec(resolved, Some(state), now, r),
        status_result_spec(resolved, None, now, s),
    ensures
        r.status == s.status,
        r.auth_method == s.auth_method,
        r.last_check == s.last_check,
{
}


/// When credentials are present (an API key pair, or an OAuth token even if
/// it looked expired), a decided validation outcome is what the status
/// reports: valid credentials read as valid, rejected ones as invalid.
pub proof fn lemma_decided_validation_wins(
    resolved: ResolvedAuth,
    state: &ValidationState,
    now: UtcTime,
    r: AuthStatusResult,
)
    requires
        resolved is Basic || resolved is OAuthReady,
        state.status != ValidationStatus::NotValidated,
        status_result_spec(resolved, Some(state), now, r),
    ensures
        state.status == ValidationStatus::Valid ==> r.status == AuthStatus::Valid,
        state.status == ValidationStatus::Invalid ==> r.status == AuthStatus::Invalid,
        r.last_check == state.last_check,
{
}

} // verus!
