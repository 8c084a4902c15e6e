//! What the HTTP transport decides around a request: the base URL it joins
//! paths to, the headers it sends, the body's content type, and how a
//! transport failure is classified. Sending the request is the caller's.
use vstd::prelude::*;
use crate::auth::{
    basic_authorization_header_value, basic_header_spec, bearer_authorization_header_value,
    bearer_header_spec, Credentials,
};
use crate::oauth::StdDuration;
use crate::request::{ApiRequest, RequestBody};
use crate::text::{chars_of, concat, string_from};

verus! {

/// Default request timeout, in seconds.
pub const DEFAULT_TIMEOUT_SECS: u64 = 30;

/// The request timeout: the configured one, else the default.
pub fn effective_timeout(configured: Option<StdDuration>) -> (r: StdDuration)
    ensures
        r == match configured {
            Some(d) => d,
            None => StdDuration { secs: DEFAULT_TIMEOUT_SECS, subsec_nanos: 0 },
        },
{
    match configured {
        Some(d) => d,
        None => StdDuration { secs: DEFAULT_TIMEOUT_SECS, subsec_nanos: 0 },
    }
}

// ---------------------------------------------------------------------------
// Errors
// ---------------------------------------------------------------------------

/// Transport-level failures. HTTP error statuses are not failures here:
/// they come back as responses.
#[derive(Debug, PartialEq)]
pub enum ClientError {
    /// The connection could not be established.
    Connection {
        /// What went wrong.
        message: String,
    },
    /// The request timed out.
    Timeout {
        /// The timeout that elapsed.
        timeout: StdDuration,
    },
    /// The request could not be built (an invalid URL, for instance).
    RequestBuild {
        /// What went wrong.
        message: String,
    },
    /// The response body could not be read.
    ResponseBody {
        /// What went wrong.
        message: String,
    },
    /// Any other transport failure.
    Transport {
        /// What went wrong.
        message: String,
    },
}

/// What the HTTP library reports of a failed request: which kind of failure
/// it was, and its description.
#[derive(Debug, PartialEq)]
pub struct TransportFailure {
    /// The request timed out.
    pub is_timeout: bool,
    /// The connection failed.
    pub is_connect: bool,
    /// The request could not be built.
    pub is_builder: bool,
    /// The body could not be sent or read.
    pub is_body: bool,
    /// The response could not be decoded.
    pub is_decode: bool,
    /// The failure's description.
    pub message: String,
}

/// How a failure is classified: a timeout first, then a connection failure,
/// a build failure, a body or decoding failure, and anything else.
pub open spec fn classified(f: TransportFailure, timeout: StdDuration, e: ClientError) -> bool {
    if f.is_timeout {
        e == ClientError::Timeout { timeout }
    } else if f.is_connect {
        e matches ClientError::Connection { message } && message@ == f.message@
    } else if f.is_builder {
        e matches ClientError::RequestBuild { message } && message@ == f.message@
    } else if f.is_body || f.is_decode {
        e matches ClientError::ResponseBody { message } && message@ == f.message@
    } else {
        e matches ClientError::Transport { message } && message@ == f.message@
    }
}

impl ClientError {
    /// Classifies a failed request; `timeout` is the client's timeout.
    pub fn classify(failure: &TransportFailure, timeout: StdDuration) -> (r: ClientError)
        ensures
            classified(*failure, timeout, r),
    {
        if failure.is_timeout {
            ClientError::Timeout { timeout }
        } else if failure.is_connect {
            ClientError::Connection { message: failure.message.clone() }
        } else if failure.is_builder {
            ClientError::RequestBuild { message: failure.message.clone() }
        } else if failure.is_body || failure.is_decode {
            ClientError::ResponseBody { message: failure.message.clone() }
        } else {
            ClientError::Transport { message: failure.message.clone() }
        }
    }
}

// ---------------------------------------------------------------------------
// Requests
// ---------------------------------------------------------------------------

/// `s` without its trailing `/` characters (`trim_end_matches('/')`).
pub open spec fn without_trailing_slashes(s: Seq<char>) -> Seq<char>
    decreases s.len(),
{
    if s.len() > 0 && s.last() == '/' {
        without_trailing_slashes(s.drop_last())
    } else {
        s
    }
}

/// The base URL that request paths are appended to: the configured one
/// without trailing slashes.
pub fn normalize_base_url(base_url: &str) -> (r: String)
    ensures
        r@ == without_trailing_slashes(base_url@),
{
    let c = chars_of(base_url);
    let mut n: usize = c.len();
    assert(c@.subrange(0, c@.len() as int) =~= c@);
    while n > 0 && c[n - 1] == '/'
        invariant
            0 <= n <= c@.len(),
            without_trailing_slashes(c@) == without_trailing_slashes(c@.subrange(0, n as int)),
        decreases n,
    {
        assert(c@.subrange(0, n as int).drop_last() =~= c@.subrange(0, n - 1));
        n = n - 1;
    }
    let kept = vstd::slice::slice_subrange(c.as_slice(), 0, n);
    string_from(kept)
}

/// The URL of a request: the base URL followed by the request path.
pub fn request_url(base_url: &str, path: &str) -> (r: String)
    ensures
        r@ == base_url@ + path@,
{
    let v = concat(base_url, path);
    string_from(v.as_slice())
}

/// How the client authenticates.
#[derive(Clone, Debug, PartialEq)]
pub enum ClientAuthConfig {
    /// HTTP Basic authentication with an API key pair.
    Basic {
        /// The key pair.
        credentials: Credentials,
    },
    /// OAuth 2.0 bearer authentication.
    Bearer {
        /// The access token.
        access_token: String,
    },
}

/// The `Authorization` header value for an authentication configuration.
pub open spec fn authorization_spec(auth: ClientAuthConfig) -> Seq<char> {
    match auth {
        ClientAuthConfig::Basic { credentials } => basic_header_spec(
            credentials.access_key@,
            credentials.secret_key@,
        ),
        ClientAuthConfig::Bearer { access_token } => bearer_header_spec(access_token@),
    }
}

/// The content type sent with a JSON body: the request's own, else
/// `application/json`.
pub open spec fn json_content_type_spec(request: ApiRequest) -> Seq<char> {
    match request.content_type {
        Some(ct) => ct@,
        None => "application/json"@,
    }
}

/// The headers a request is sent with, in order: `Authorization`, `Accept:
/// application/json`, and for a JSON body its `Content-Type`. A multipart
/// body gets its content type, with the boundary, from the transport.
pub open spec fn headers_spec(auth: ClientAuthConfig, request: ApiRequest) -> Seq<(Seq<char>, Seq<char>)> {
    seq![("Authorization"@, authorization_spec(auth)), ("Accept"@, "application/json"@)] + if request.body
        matches Some(RequestBody::Json(_)) {
        seq![("Content-Type"@, json_content_type_spec(request))]
    } else {
        Seq::<(Seq<char>, Seq<char>)>::empty()
    }
}

/// The `Authorization` header value for the configured authentication.
pub fn authorization_value(auth: &ClientAuthConfig) -> (r: String)
    ensures
        r@ == authorization_spec(*auth),
{
    match auth {
        ClientAuthConfig::Basic { credentials } => basic_authorization_header_value(credentials),
        ClientAuthConfig::Bearer { access_token } => bearer_authorization_header_value(
            access_token.as_str(),
        ),
    }
}

/// The headers to send with `request`.
pub fn request_headers(auth: &ClientAuthConfig, request: &ApiRequest) -> (r: Vec<(String, String)>)
    ensures
        crate::endpoints::pairs_view(r@) == headers_spec(*auth, *request),
{
    let mut r: Vec<(String, String)> = Vec::new();
    r.push(("Authorization".to_owned(), authorization_value(auth)));
    r.push(("Accept".to_owned(), "application/json".to_owned()));
    let json_body = match &request.body {
        Some(RequestBody::Json(_)) => true,
        _ => false,
    };
    if json_body {
        let ct = match &request.content_type {
            Some(c) => c.clone(),
            None => "application/json".to_owned(),
        };
        r.push(("Content-Type".to_owned(), ct));
    }
    assert(crate::endpoints::pairs_view(r@) =~= headers_spec(*auth, *request));
    r
}

} // verus!
