//! Authorization header values for the Onshape API.
//!
//! Basic authentication sends `Basic ` followed by the standard Base64
//! encoding of `access_key:secret_key`; OAuth 2.0 sends `Bearer <token>`.
use vstd::prelude::*;
use vstd::utf8::*;
use crate::encoding::{base64_encode, base64_standard_encode, lemma_base64_injective, utf8_encode};
use crate::text::{chars_of, push_str, string_from, concat};

verus! {

/// Supported authentication methods.
#[derive(Clone, Copy, Debug, PartialEq, Eq, Structural)]
pub enum AuthMethod {
    /// Try available credentials in priority order: OAuth tokens, then an API
    /// key pair, then pending OAuth, else not configured.
    Auto,
    /// HTTP Basic authentication with an API key pair.
    Basic,
    /// OAuth 2.0 bearer tokens.
    OAuth,
}

/// An API key pair.
#[derive(Clone, Debug, PartialEq)]
pub struct Credentials {
    /// The API access key.
    pub access_key: String,
    /// The API secret key.
    pub secret_key: String,
}

/// The text that Basic authentication encodes: `access:secret`.
pub open spec fn basic_user_pass(access: Seq<char>, secret: Seq<char>) -> Seq<char> {
    access + ":"@ + secret
}

/// The `Authorization` header value for Basic authentication.
pub open spec fn basic_header_spec(access: Seq<char>, secret: Seq<char>) -> Seq<char> {
    "Basic "@ + base64_encode(encode_utf8(basic_user_pass(access, secret)))
}

/// The `Authorization` header value for a bearer token.
pub open spec fn bearer_header_spec(token: Seq<char>) -> Seq<char> {
    "Bearer "@ + token
}

/// Builds the `Authorization` header value for Basic authentication:
/// `Basic ` and the Base64 encoding of the UTF-8 bytes of `access:secret`.
/// The value holds the credentials; callers keep it out of logs.
pub fn basic_authorization_header_value(credentials: &Credentials) -> (r: String)
    ensures
        r@ == basic_header_spec(credentials.access_key@, credentials.secret_key@),
{
    let mut pair = concat(credentials.access_key.as_str(), ":");
    push_str(&mut pair, credentials.secret_key.as_str());
    let pair_text = string_from(pair.as_slice());
    let bytes = utf8_encode(pair_text.as_str());
    let encoded = base64_standard_encode(bytes.as_slice());
    let mut out = chars_of("Basic ");
    push_str(&mut out, encoded.as_str());
    string_from(out.as_slice())
}

/// Builds the `Authorization` header value for an OAuth 2.0 access token:
/// `Bearer <token>`.
pub fn bearer_authorization_header_value(access_token: &str) -> (r: String)
    ensures
        r@ == bearer_header_spec(access_token@),
{
    let out = concat("Bearer ", access_token);
    string_from(out.as_slice())
}

/// A Basic header gives its credentials back: bytes whose Base64 encoding
/// is the text after `Basic ` are exactly the UTF-8 bytes of
/// `access:secret`, and they decode as UTF-8 to that text. (The standard
/// decoder hands back only bytes that encode to the text it read.)
pub proof fn lemma_basic_header_roundtrip(access: Seq<char>, secret: Seq<char>, decoded: Seq<u8>)
    requires
        "Basic "@ + base64_encode(decoded) == basic_header_spec(access, secret),
    ensures
        decoded == encode_utf8(basic_user_pass(access, secret)),
        valid_utf8(decoded),
        decode_utf8(decoded) == basic_user_pass(access, secret),
{
    let text = basic_user_pass(access, secret);
    lemma_prefix_cancel("Basic "@, base64_encode(decoded), base64_encode(encode_utf8(text)));
    lemma_base64_injective(decoded, encode_utf8(text));
    encode_utf8_valid_utf8(text);
    encode_utf8_decode_utf8(text);
}

proof fn lemma_prefix_cancel(p: Seq<char>, x: Seq<char>, y: Seq<char>)
    requires
        p + x == p + y,
    ensures
        x == y,
{
    assert(x =~= (p + x).subrange(p.len() as int, (p + x).len() as int));
    assert(y =~= (p + y).subrange(p.len() as int, (p + y).len() as int));
}

} // verus!
