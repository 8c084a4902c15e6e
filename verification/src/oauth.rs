//! OAuth 2.0 token bookkeeping, the refresh state machine and callback
//! validation for the authorization-code flow.
use vstd::prelude::*;
use vstd::utf8::*;
use crate::time::{UtcTime, TimeSpan, instant_in_range, MAX_SPAN_NANOS, add_span, at_or_before};
use crate::endpoints::pairs_view;
use crate::text::{chars_of, chars_eq, eq_ignore_case, eq_ignore_case_chars, push_str, string_from};

verus! {

/// Onshape OAuth 2.0 authorization endpoint.
pub const ONSHAPE_AUTH_URL_STR: &'static str = "https://oauth.onshape.com/oauth/authorize";

/// Onshape OAuth 2.0 token endpoint.
pub const ONSHAPE_TOKEN_URL_STR: &'static str = "https://oauth.onshape.com/oauth/token";

// ---------------------------------------------------------------------------
// Token data
// ---------------------------------------------------------------------------

/// OAuth 2.0 token material.
#[derive(Debug, PartialEq)]
pub struct OAuthTokenData {
    /// The access token.
    pub access_token: String,
    /// The refresh token (empty when the server issued none).
    pub refresh_token: String,
    /// When the access token expires, if known.
    pub expires_at: Option<UtcTime>,
    /// The token type, `bearer` for persisted tokens.
    pub token_type: String,
    /// Granted scopes, when the server reported them.
    pub scopes: Option<Vec<String>>,
}

/// A non-negative duration as the token endpoint reports it (`expires_in`).
#[derive(Clone, Copy, Debug, PartialEq, Eq, Structural)]
pub struct StdDuration {
    /// Whole seconds.
    pub secs: u64,
    /// Additional nanoseconds, below one second.
    pub subsec_nanos: u32,
}

/// Total nanoseconds of a duration.
pub open spec fn duration_nanos(d: StdDuration) -> int {
    d.secs as int * 1_000_000_000 + d.subsec_nanos as int
}

/// A token endpoint response.
#[derive(Debug, PartialEq)]
pub struct TokenResponse {
    /// The access token.
    pub access_token: String,
    /// The refresh token, when the server sent one.
    pub refresh_token: Option<String>,
    /// Lifetime of the access token, when the server sent one.
    pub expires_in: Option<StdDuration>,
    /// The token type name.
    pub token_type: String,
    /// Granted scopes, when the server sent them.
    pub scopes: Option<Vec<String>>,
}

/// When a token with lifetime `expires_in` obtained at `now` expires: known
/// when the lifetime is known and at most `i64::MAX` milliseconds long.
pub open spec fn expiry_after(expires_in: Option<StdDuration>, now: UtcTime) -> Option<int> {
    match expires_in {
        Some(d) => if d.subsec_nanos < 1_000_000_000 && duration_nanos(d) <= MAX_SPAN_NANOS {
            Some(now.nanos + duration_nanos(d))
        } else {
            None
        },
        None => None,
    }
}

/// Whether the expiry computed from `expires_in` is representable.
pub open spec fn expiry_representable(expires_in: Option<StdDuration>, now: UtcTime) -> bool {
    expiry_after(expires_in, now) matches Some(e) ==> instant_in_range(e)
}

/// The models of a list of strings.
pub open spec fn strings_view(v: Seq<String>) -> Seq<Seq<char>> {
    v.map_values(|s: String| s@)
}

/// The models of an optional list of strings.
pub open spec fn opt_strings_view(v: Option<Vec<String>>) -> Option<Seq<Seq<char>>> {
    match v {
        Some(x) => Some(strings_view(x@)),
        None => None,
    }
}

/// The instant of an optional time, by its nanoseconds.
pub open spec fn opt_nanos(t: Option<UtcTime>) -> Option<int> {
    match t {
        Some(x) => Some(x.nanos as int),
        None => None,
    }
}

/// Copies a list of strings.
pub fn clone_strings(v: &Vec<String>) -> (r: Vec<String>)
    ensures
        r@ == v@,
        strings_view(r@) == strings_view(v@),
{
    let mut r: Vec<String> = Vec::new();
    let mut i: usize = 0;
    while i < v.len()
        invariant
            0 <= i <= v@.len(),
            r@ =~= v@.subrange(0, i as int),
        decreases v@.len() - i,
    {
        let c = v[i].clone();
        r.push(c);
        i = i + 1;
    }
    assert(v@.subrange(0, v@.len() as int) =~= v@);
    r
}

/// Copies an optional list of strings.
pub fn clone_opt_strings(v: &Option<Vec<String>>) -> (r: Option<Vec<String>>)
    ensures
        opt_strings_view(r) == opt_strings_view(*v),
{
    match v {
        Some(x) => Some(clone_strings(x)),
        None => None,
    }
}

/// The default token type.
pub fn default_token_type() -> (r: String)
    ensures
        r@ == "bearer"@,
{
    "bearer".to_owned()
}

/// Message rejecting a persisted token type.
pub open spec fn bad_token_type_message(s: Seq<char>) -> Seq<char> {
    "invalid token_type \""@ + s + "\", expected \"bearer\""@
}

/// Checks a persisted token type: `bearer` in any ASCII case is accepted and
/// normalized to `bearer`; anything else is rejected.
pub fn normalize_token_type(s: &str) -> (r: Result<String, String>)
    ensures
        eq_ignore_case(s@, "bearer"@) ==> (r matches Ok(t) && t@ == "bearer"@),
        !eq_ignore_case(s@, "bearer"@) ==> (r matches Err(m) && m@ == bad_token_type_message(s@)),
{
    let c = chars_of(s);
    let b = chars_of("bearer");
    if eq_ignore_case_chars(c.as_slice(), b.as_slice()) {
        Ok("bearer".to_owned())
    } else {
        let mut m = chars_of("invalid token_type \"");
        push_str(&mut m, s);
        push_str(&mut m, "\", expected \"bearer\"");
        Err(string_from(m.as_slice()))
    }
}

/// Whether a token with expiry `expires_at` has expired at `now`: the
/// expiry is known and at or before `now`.
pub open spec fn expired_at(expires_at: Option<UtcTime>, now: UtcTime) -> bool {
    expires_at matches Some(e) && e.nanos <= now.nanos
}

/// Whether a token with expiry `expires_at` expires within `margin` of
/// `now` (or already has): the expiry is known and at or before
/// `now + margin`.
pub open spec fn expiring_within(expires_at: Option<UtcTime>, now: UtcTime, margin: TimeSpan) -> bool {
    expires_at matches Some(e) && e.nanos <= now.nanos + margin.nanos
}

impl OAuthTokenData {
    /// Whether the access token has expired at `now`: its expiry is known
    /// and at or before `now`.
    pub fn is_expired(&self, now: UtcTime) -> (r: bool)
        ensures
            r == expired_at(self.expires_at, now),
    {
        match self.expires_at {
            Some(e) => at_or_before(e, now),
            None => false,
        }
    }

    /// Whether the access token expires within `margin` of `now` (or has
    /// expired); an unknown expiry counts as valid.
    pub fn is_expiring_soon(&self, now: UtcTime, margin: TimeSpan) -> (r: bool)
        requires
            now.wf(),
            margin.wf(),
            self.expires_at is Some ==> instant_in_range(now.nanos + margin.nanos),
        ensures
            r == expiring_within(self.expires_at, now, margin),
    {
        match self.expires_at {
            Some(e) => at_or_before(e, add_span(now, margin)),
            None => false,
        }
    }

    /// Token data from a token endpoint response received at `now`: the
    /// relative lifetime becomes an absolute expiry, a missing refresh token
    /// becomes empty.
    pub fn from_response(response: &TokenResponse, now: UtcTime) -> (r: OAuthTokenData)
        requires
            now.wf(),
            expiry_representable(response.expires_in, now),
        ensures
            r.access_token@ == response.access_token@,
            r.refresh_token@ == match response.refresh_token {
                Some(t) => t@,
                None => Seq::<char>::empty(),
            },
            opt_nanos(r.expires_at) == expiry_after(response.expires_in, now),
            r.token_type@ == response.token_type@,
            opt_strings_view(r.scopes) == opt_strings_view(response.scopes),
    {
        let expires_at = match response.expires_in {
            Some(d) => {
                if d.subsec_nanos < 1_000_000_000 && (d.secs < 9223372036854775u64 || (d.secs
                    == 9223372036854775u64 && d.subsec_nanos <= 807_000_000)) {
                    let span = TimeSpan {
                        nanos: (d.secs as i128) * 1_000_000_000i128 + (d.subsec_nanos as i128),
                    };
                    Some(add_span(now, span))
                } else {
                    None
                }
            },
            None => None,
        };
        let refresh_token = match &response.refresh_token {
            Some(t) => t.clone(),
            None => String::new(),
        };
        OAuthTokenData {
            access_token: response.access_token.clone(),
            refresh_token,
            expires_at,
            token_type: response.token_type.clone(),
            scopes: clone_opt_strings(&response.scopes),
        }
    }

    /// Token data from raw field values.
    pub fn from_raw(
        access_token: String,
        refresh_token: String,
        expires_at: Option<UtcTime>,
        token_type: String,
        scopes: Option<Vec<String>>,
    ) -> (r: OAuthTokenData)
        ensures
            r.access_token == access_token,
            r.refresh_token == refresh_token,
            r.expires_at == expires_at,
            r.token_type == token_type,
            r.scopes == scopes,
    {
        OAuthTokenData { access_token, refresh_token, expires_at, token_type, scopes }
    }
}

// ---------------------------------------------------------------------------
// Refresh state machine
// ---------------------------------------------------------------------------

/// Action to take before executing an API request.
#[derive(Debug, Clone, Copy, PartialEq, Eq, Structural)]
pub enum PreExecuteAction {
    /// The token is valid; use it.
    Proceed,
    /// The token is expiring or expired; refresh first.
    RefreshNeeded,
}

/// Action to take after receiving an API response.
#[derive(Debug, Clone, Copy, PartialEq, Eq, Structural)]
pub enum PostExecuteAction {
    /// The response is final.
    Done,
    /// Unauthorized before any refresh: refresh and retry once.
    RefreshAndRetry,
}

/// Whether a response with `status` calls for a refresh and a retry.
pub open spec fn needs_retry(status: u16, already_refreshed: bool) -> bool {
    status == 401 && !already_refreshed
}

/// Whether external tokens that expire at `external` replace tokens that
/// expire at `current` at time `now`: both expiries are known and the
/// external one is later than the current one and than `now`.
pub open spec fn adopts_external(
    current: Option<UtcTime>,
    external: Option<UtcTime>,
    now: UtcTime,
) -> bool {
    match (external, current) {
        (Some(e), Some(c)) => e.nanos > c.nanos && e.nanos > now.nanos,
        _ => false,
    }
}

/// The token lifecycle: current tokens and how long before expiry a
/// proactive refresh is due.
#[derive(Debug, PartialEq)]
pub struct OAuthSession {
    /// Current token data.
    pub tokens: OAuthTokenData,
    /// How long before expiry a proactive refresh is due.
    pub refresh_margin: TimeSpan,
}

impl OAuthSession {
    /// A session over `tokens` that refreshes `refresh_margin` before expiry.
    pub fn new(tokens: OAuthTokenData, refresh_margin: TimeSpan) -> (r: OAuthSession)
        ensures
            r.tokens == tokens,
            r.refresh_margin == refresh_margin,
    {
        OAuthSession { tokens, refresh_margin }
    }

    /// Whether to refresh before a request made at `now`: when the token
    /// expires within the margin.
    pub fn pre_execute_action(&self, now: UtcTime) -> (r: PreExecuteAction)
        requires
            now.wf(),
            self.refresh_margin.wf(),
            self.tokens.expires_at is Some ==> instant_in_range(now.nanos + self.refresh_margin.nanos),
        ensures
            (r == PreExecuteAction::RefreshNeeded) == expiring_within(
                self.tokens.expires_at,
                now,
                self.refresh_margin,
            ),
    {
        if self.tokens.is_expiring_soon(now, self.refresh_margin) {
            PreExecuteAction::RefreshNeeded
        } else {
            PreExecuteAction::Proceed
        }
    }

    /// What to do with a response: retry once after a refresh on 401.
    pub fn post_execute_action(&self, status: u16, already_refreshed: bool) -> (r: PostExecuteAction)
        ensures
            (r == PostExecuteAction::RefreshAndRetry) == needs_retry(status, already_refreshed),
    {
        if status == 401 && !already_refreshed {
            PostExecuteAction::RefreshAndRetry
        } else {
            PostExecuteAction::Done
        }
    }

    /// Applies a successful refresh response received at `now`; the refresh
    /// token is kept when the response carries none.
    pub fn apply_refresh(&mut self, response: &TokenResponse, now: UtcTime)
        requires
            now.wf(),
            expiry_representable(response.expires_in, now),
        ensures
            final(self).tokens.access_token@ == response.access_token@,
            final(self).tokens.refresh_token@ == match response.refresh_token {
                Some(t) => t@,
                None => old(self).tokens.refresh_token@,
            },
            opt_nanos(final(self).tokens.expires_at) == expiry_after(response.expires_in, now),
            final(self).tokens.token_type@ == response.token_type@,
            opt_strings_view(final(self).tokens.scopes) == opt_strings_view(response.scopes),
            final(self).refresh_margin == old(self).refresh_margin,
    {
        let mut new_tokens = OAuthTokenData::from_response(response, now);
        if response.refresh_token.is_none() {
            new_tokens.refresh_token = self.tokens.refresh_token.clone();
        }
        self.tokens = new_tokens;
    }

    /// Adopts tokens refreshed elsewhere when they are fresher: both
    /// expiries known, the external one later than the current one and than
    /// `now`. Returns whether they were adopted.
    pub fn apply_external_tokens(&mut self, external_tokens: OAuthTokenData, now: UtcTime) -> (r:
        bool)
        ensures
            r == adopts_external(old(self).tokens.expires_at, external_tokens.expires_at, now),
            r ==> final(self).tokens == external_tokens,
            !r ==> final(self).tokens == old(self).tokens,
            final(self).refresh_margin == old(self).refresh_margin,
    {
        let (external_expires, current_expires) = match (
            external_tokens.expires_at,
            self.tokens.expires_at,
        ) {
            (Some(e), Some(c)) => (e, c),
            _ => return false,
        };
        if external_expires.nanos > current_expires.nanos && external_expires.nanos > now.nanos {
            self.tokens = external_tokens;
            true
        } else {
            false
        }
    }

    /// The current access token.
    pub fn access_token(&self) -> (r: &String)
        ensures
            r == &self.tokens.access_token,
    {
        &self.tokens.access_token
    }

    /// The current refresh token.
    pub fn refresh_token(&self) -> (r: &String)
        ensures
            r == &self.tokens.refresh_token,
    {
        &self.tokens.refresh_token
    }
}

/// Adopting external tokens never moves the known expiry backwards, and
/// adopted tokens are never already expired at the time of adoption.
pub proof fn lemma_external_adoption_monotone(
    current: Option<UtcTime>,
    external: Option<UtcTime>,
    now: UtcTime,
)
    ensures
        adopts_external(current, external, now) ==> (current matches Some(c) && (external matches Some(
            e,
        ) && c.nanos < e.nanos && now.nanos < e.nanos)),
        !adopts_external(current, None, now),
        !adopts_external(None, external, now),
{
}

/// After a refresh the state machine never asks for another one: a request
/// cycle retries at most once.
pub proof fn lemma_single_retry(status: u16)
    ensures
        !needs_retry(status, true),
        needs_retry(status, false) <==> status == 401,
{
}

/// An expired token is always due for a refresh: with a non-negative
/// margin, a token that has expired at `now` also expires within the
/// margin, so a request made at `now` refreshes first.
pub proof fn lemma_expired_is_expiring_soon(expires_at: Option<UtcTime>, now: UtcTime, margin: TimeSpan)
    requires
        margin.nanos >= 0,
    ensures
        expired_at(expires_at, now) ==> expiring_within(expires_at, now, margin),
{
}

/// A token is due for a refresh exactly up to its expiry less the margin:
/// at `now + margin == expiry` it is due, and a token due under one margin
/// is due under every larger margin.
pub proof fn lemma_expiring_soon_boundary_and_monotone(
    expiry: UtcTime,
    now: UtcTime,
    margin: TimeSpan,
    larger: TimeSpan,
)
    requires
        margin.nanos <= larger.nanos,
    ensures
        now.nanos + margin.nanos == expiry.nanos ==> expiring_within(Some(expiry), now, margin),
        expiring_within(Some(expiry), now, margin) ==> expiring_within(Some(expiry), now, larger),
        now.nanos + margin.nanos < expiry.nanos ==> !expiring_within(Some(expiry), now, margin),
{
}

/// A token without a known expiry is never treated as expired nor as due
/// for a refresh.
pub proof fn lemma_unknown_expiry_is_valid(now: UtcTime, margin: TimeSpan)
    ensures
        !expired_at(None, now),
        !expiring_within(None, now, margin),
{
}

// ---------------------------------------------------------------------------
// Authorization-code flow
// ---------------------------------------------------------------------------

/// Configuration of an OAuth login flow.
#[derive(Debug, PartialEq)]
pub struct OAuthLoginConfig {
    /// The OAuth 2.0 client ID.
    pub client_id: String,
    /// The redirect URI that receives the authorization code.
    pub redirect_uri: String,
    /// Scopes to request.
    pub scopes: Vec<String>,
}

/// Errors of callback validation.
#[derive(Debug, PartialEq)]
pub enum CallbackValidationError {
    /// The callback URL could not be parsed (message).
    InvalidUrl(String),
    /// The provider returned an error.
    OAuthError {
        /// The error code.
        error: String,
        /// The error description, if any.
        description: Option<String>,
    },
    /// The CSRF state does not match.
    StateMismatch {
        /// The expected state.
        expected: String,
        /// The state in the callback.
        actual: String,
    },
    /// The callback has no `state` parameter.
    MissingState,
    /// The callback has no `code` parameter.
    MissingCode,
}

/// The value of the last pair named `key`, as a map built from the pairs
/// in order holds it.
pub open spec fn last_value(pairs: Seq<(Seq<char>, Seq<char>)>, key: Seq<char>) -> Option<Seq<char>>
    decreases pairs.len(),
{
    if pairs.len() == 0 {
        None
    } else if pairs.last().0 == key {
        Some(pairs.last().1)
    } else {
        last_value(pairs.drop_last(), key)
    }
}

/// The outcome of validating callback query pairs against the expected
/// state: the provider's error first, then the state, then the code.
pub open spec fn callback_outcome(
    pairs: Seq<(Seq<char>, Seq<char>)>,
    expected: Seq<char>,
    r: Result<String, CallbackValidationError>,
) -> bool {
    match last_value(pairs, "error"@) {
        Some(err) => r matches Err(CallbackValidationError::OAuthError { error, description })
            && error@ == err && match last_value(pairs, "error_description"@) {
            Some(d) => description matches Some(x) && x@ == d,
            None => description is None,
        },
        None => match last_value(pairs, "state"@) {
            None => r matches Err(CallbackValidationError::MissingState),
            Some(state) => if state != expected {
                r matches Err(CallbackValidationError::StateMismatch { expected: e, actual: a })
                    && e@ == expected && a@ == state
            } else {
                match last_value(pairs, "code"@) {
                    None => r matches Err(CallbackValidationError::MissingCode),
                    Some(code) => r matches Ok(c) && c@ == code,
                }
            },
        },
    }
}

/// Finds the value of the last pair named `key`.
fn find_last<'a>(pairs: &'a Vec<(String, String)>, key: &str) -> (r: Option<&'a String>)
    ensures
        match r {
            Some(v) => last_value(pairs_view(pairs@), key@) == Some(v@),
            None => last_value(pairs_view(pairs@), key@) is None,
        },
{
    let k = chars_of(key);
    let mut i: usize = pairs.len();
    assert(pairs@.subrange(0, pairs@.len() as int) =~= pairs@);
    while i > 0
        invariant
            0 <= i <= pairs@.len(),
            k@ == key@,
            last_value(pairs_view(pairs@), key@) == last_value(
                pairs_view(pairs@.subrange(0, i as int)),
                key@,
            ),
        decreases i,
    {
        let ghost pre = pairs_view(pairs@.subrange(0, i as int));
        assert(pre.drop_last() =~= pairs_view(pairs@.subrange(0, i - 1)));
        let name = chars_of(pairs[i - 1].0.as_str());
        if chars_eq(name.as_slice(), k.as_slice()) {
            return Some(&pairs[i - 1].1);
        }
        i = i - 1;
    }
    None
}

/// Validates the query pairs of an OAuth callback: a provider error is
/// reported first; then the `state` must equal `expected_state`; then the
/// authorization code is returned. When a name occurs more than once, its
/// last value counts.
pub fn validate_callback_pairs(pairs: &Vec<(String, String)>, expected_state: &str) -> (r: Result<
    String,
    CallbackValidationError,
>)
    ensures
        callback_outcome(pairs_view(pairs@), expected_state@, r),
{
    proof {
        assert(pairs@.subrange(0, pairs@.len() as int) =~= pairs@);
    }
    if let Some(error) = find_last(pairs, "error") {
        let description = match find_last(pairs, "error_description") {
            Some(d) => Some(d.clone()),
            None => None,
        };
        return Err(CallbackValidationError::OAuthError { error: error.clone(), description });
    }
    let state = match find_last(pairs, "state") {
        Some(s) => s,
        None => return Err(CallbackValidationError::MissingState),
    };
    let s = chars_of(state.as_str());
    let e = chars_of(expected_state);
    if !chars_eq(s.as_slice(), e.as_slice()) {
        return Err(
            CallbackValidationError::StateMismatch {
                expected: expected_state.to_owned(),
                actual: state.clone(),
            },
        );
    }
    match find_last(pairs, "code") {
        Some(code) => Ok(code.clone()),
        None => Err(CallbackValidationError::MissingCode),
    }
}

/// What `url::Url::parse` followed by `Url::query_pairs` gives for a URL:
/// the percent- and form-decoded query pairs in order, or the parse error's
/// message.
pub uninterp spec fn url_query_pairs(url: Seq<char>) -> Result<Seq<(Seq<char>, Seq<char>)>, Seq<char>>;

/// Parses `url` (`url::Url::parse`) and collects its decoded query pairs
/// (`Url::query_pairs`), or returns the parse error's text. Claimed: the
/// result is the named value for `url`.
#[verifier::external_body]
fn parse_url_query(url: &str) -> (r: Result<Vec<(String, String)>, String>)
    ensures
        match r {
            Ok(v) => url_query_pairs(url@) == Ok::<Seq<(Seq<char>, Seq<char>)>, Seq<char>>(pairs_view(v@)),
            Err(m) => url_query_pairs(url@) == Err::<Seq<(Seq<char>, Seq<char>)>, Seq<char>>(m@),
        },
{
    match url::Url::parse(url) {
        Ok(parsed) => Ok(parsed.query_pairs().map(|(k, v)| (k.into_owned(), v.into_owned())).collect()),
        Err(e) => Err(e.to_string()),
    }
}

/// Validates an OAuth callback URL against the expected CSRF state and
/// returns the authorization code.
pub fn validate_callback(callback_url: &str, expected_state: &str) -> (r: Result<
    String,
    CallbackValidationError,
>)
    ensures
        match url_query_pairs(callback_url@) {
            Err(m) => r matches Err(CallbackValidationError::InvalidUrl(x)) && x@ == m,
            Ok(pairs) => callback_outcome(pairs, expected_state@, r),
        },
{
    match parse_url_query(callback_url) {
        Err(m) => Err(CallbackValidationError::InvalidUrl(m)),
        Ok(pairs) => validate_callback_pairs(&pairs, expected_state),
    }
}


/// The authorization URL that the `oauth2` crate builds for a client with
/// authorization endpoint `auth_url`, client ID `client_id` and redirect URI
/// `redirect_uri`, for CSRF state `state`, the S256 challenge of the PKCE
/// verifier `pkce_verifier`, and `scopes` in order; `None` when one of the
/// two URLs does not parse.
pub uninterp spec fn authorize_url_text(
    auth_url: Seq<char>,
    client_id: Seq<char>,
    redirect_uri: Seq<char>,
    state: Seq<char>,
    pkce_verifier: Seq<char>,
    scopes: Seq<Seq<char>>,
) -> Option<Seq<char>>;

/// The model of an optional string.
pub open spec fn opt_string_view(v: Option<String>) -> Option<Seq<char>> {
    match v {
        Some(s) => Some(s@),
        None => None,
    }
}

/// Builds the authorization URL with `oauth2`: `BasicClient::new`,
/// `set_auth_uri`, `set_redirect_uri`, `authorize_url` with the given state,
/// `set_pkce_challenge` with `PkceCodeChallenge::from_code_verifier_sha256`,
/// `add_scopes`, `url`. `AuthUrl::new` or `RedirectUrl::new` failing gives
/// `None`. The challenge computation panics unless the verifier is 43 to 128
/// bytes long, so that is required. Claimed: the result is the named value
/// for the arguments.
#[verifier::external_body]
fn oauth2_authorize_url(
    auth_url: &str,
    client_id: &str,
    redirect_uri: &str,
    state: &str,
    pkce_verifier: &str,
    scopes: &Vec<String>,
) -> (r: Option<String>)
    requires
        43 <= encode_utf8(pkce_verifier@).len() <= 128,
    ensures
        opt_string_view(r) == authorize_url_text(
            auth_url@,
            client_id@,
            redirect_uri@,
            state@,
            pkce_verifier@,
            strings_view(scopes@),
        ),
{
    let auth = oauth2::AuthUrl::new(auth_url.to_owned()).ok()?;
    let redirect = oauth2::RedirectUrl::new(redirect_uri.to_owned()).ok()?;
    let client = oauth2::basic::BasicClient::new(oauth2::ClientId::new(client_id.to_owned()))
        .set_auth_uri(auth).set_redirect_uri(redirect);
    let verifier = oauth2::PkceCodeVerifier::new(pkce_verifier.to_owned());
    let (url, _) = client.authorize_url(|| oauth2::CsrfToken::new(state.to_owned()))
        .set_pkce_challenge(oauth2::PkceCodeChallenge::from_code_verifier_sha256(&verifier))
        .add_scopes(scopes.iter().map(|s| oauth2::Scope::new(s.clone()))).url();
    Some(url.to_string())
}

/// The Onshape authorization URL for a login: the client ID, the redirect
/// URI, the CSRF state, the S256 challenge of `pkce_verifier` and the
/// requested scopes (space-separated, left out when there are none), as
/// query parameters of the Onshape authorization endpoint. `None` when the
/// redirect URI is not a valid URL. The verifier is 43 to 128 bytes long, as
/// RFC 7636 demands.
pub fn build_authorize_url(config: &OAuthLoginConfig, csrf_state: &str, pkce_verifier: &str) -> (r:
    Option<String>)
    requires
        43 <= encode_utf8(pkce_verifier@).len() <= 128,
    ensures
        opt_string_view(r) == authorize_url_text(
            ONSHAPE_AUTH_URL_STR@,
            config.client_id@,
            config.redirect_uri@,
            csrf_state@,
            pkce_verifier@,
            strings_view(config.scopes@),
        ),
{
    oauth2_authorize_url(
        ONSHAPE_AUTH_URL_STR,
        config.client_id.as_str(),
        config.redirect_uri.as_str(),
        csrf_state,
        pkce_verifier,
        &config.scopes,
    )
}


/// A callback is accepted only when the provider reported no error and the
/// last `state` parameter equals the expected state; the code returned is
/// the last `code` parameter.
pub proof fn lemma_callback_success_checks_state(
    pairs: Seq<(Seq<char>, Seq<char>)>,
    expected: Seq<char>,
    r: Result<String, CallbackValidationError>,
)
    requires
        callback_outcome(pairs, expected, r),
        r is Ok,
    ensures
        last_value(pairs, "error"@) is None,
        last_value(pairs, "state"@) == Some(expected),
        last_value(pairs, "code"@) == Some(r->Ok_0@),
{
}

/// Normalizing a token type twice gives what normalizing it once gives:
/// an accepted type becomes `bearer`, which is accepted again as itself.
pub proof fn lemma_token_type_normal_form(s: Seq<char>)
    ensures
        eq_ignore_case(s, "bearer"@) ==> eq_ignore_case("bearer"@, "bearer"@),
{
}

} // verus!
