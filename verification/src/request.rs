//! API requests and responses as plain data.
//!
//! A request names the method, the resolved path, query parameters, headers,
//! an optional body and its content type; it carries neither the base URL nor
//! credentials, which the transport adds.
use vstd::prelude::*;
use vstd::utf8::*;
use std::str::Utf8Error;
use crate::json::Json;
use crate::encoding::{utf8_decode, utf8_decode_lossy, utf8_lossy};
use crate::text::{
    chars_of, eq_ignore_case, eq_ignore_case_chars, is_tchar, lower_seq, str_eq, string_from, upper_chars,
    upper_seq,
};

verus! {

// ---------------------------------------------------------------------------
// HTTP methods
// ---------------------------------------------------------------------------

/// HTTP method of an API request: one of the standard methods, or an
/// extension method held by its (upper-case) name.
#[derive(Clone, Debug, PartialEq, Eq, Hash)]
pub enum HttpMethod {
    Options,
    Get,
    Post,
    Put,
    Delete,
    Head,
    Trace,
    Connect,
    Patch,
    Query,
    /// A method that is not one of the standard ones.
    Extension(String),
}

/// The wire name of a method.
pub open spec fn method_name(m: HttpMethod) -> Seq<char> {
    match m {
        HttpMethod::Options => "OPTIONS"@,
        HttpMethod::Get => "GET"@,
        HttpMethod::Post => "POST"@,
        HttpMethod::Put => "PUT"@,
        HttpMethod::Delete => "DELETE"@,
        HttpMethod::Head => "HEAD"@,
        HttpMethod::Trace => "TRACE"@,
        HttpMethod::Connect => "CONNECT"@,
        HttpMethod::Patch => "PATCH"@,
        HttpMethod::Query => "QUERY"@,
        HttpMethod::Extension(t) => t@,
    }
}

/// The standard method whose name is exactly `u`, if any.
pub open spec fn standard_method(u: Seq<char>) -> Option<HttpMethod> {
    if u == "OPTIONS"@ {
        Some(HttpMethod::Options)
    } else if u == "GET"@ {
        Some(HttpMethod::Get)
    } else if u == "POST"@ {
        Some(HttpMethod::Post)
    } else if u == "PUT"@ {
        Some(HttpMethod::Put)
    } else if u == "DELETE"@ {
        Some(HttpMethod::Delete)
    } else if u == "HEAD"@ {
        Some(HttpMethod::Head)
    } else if u == "TRACE"@ {
        Some(HttpMethod::Trace)
    } else if u == "CONNECT"@ {
        Some(HttpMethod::Connect)
    } else if u == "PATCH"@ {
        Some(HttpMethod::Patch)
    } else if u == "QUERY"@ {
        Some(HttpMethod::Query)
    } else {
        None
    }
}

/// Whether `u` can name a method: a non-empty token.
pub open spec fn valid_method_name(u: Seq<char>) -> bool {
    &&& u.len() > 0
    &&& forall|i: int| 0 <= i < u.len() ==> is_tchar(#[trigger] u[i])
}

/// Whether `m` is the method named `u`: the standard method of that name,
/// or else an extension method holding `u`.
pub open spec fn names_method(u: Seq<char>, m: HttpMethod) -> bool {
    match standard_method(u) {
        Some(s) => m == s,
        None => m matches HttpMethod::Extension(t) && t@ == u,
    }
}

/// Whether a method is one this library can produce: an extension method
/// holds an upper-case token that names no standard method.
pub open spec fn well_formed_method(m: HttpMethod) -> bool {
    m matches HttpMethod::Extension(t) ==> {
        &&& valid_method_name(t@)
        &&& upper_seq(t@) == t@
        &&& standard_method(t@) is None
    }
}

impl HttpMethod {
    /// The wire name of the method.
    pub fn as_str(&self) -> (r: &str)
        ensures
            r@ == method_name(*self),
    {
        match self {
            HttpMethod::Options => "OPTIONS",
            HttpMethod::Get => "GET",
            HttpMethod::Post => "POST",
            HttpMethod::Put => "PUT",
            HttpMethod::Delete => "DELETE",
            HttpMethod::Head => "HEAD",
            HttpMethod::Trace => "TRACE",
            HttpMethod::Connect => "CONNECT",
            HttpMethod::Patch => "PATCH",
            HttpMethod::Query => "QUERY",
            HttpMethod::Extension(t) => t.as_str(),
        }
    }
}

/// The method named `u` (`u` a valid method name).
fn method_named(u: String) -> (m: HttpMethod)
    ensures
        names_method(u@, m),
{
    let s = u.as_str();
    if str_eq(s, "OPTIONS") {
        HttpMethod::Options
    } else if str_eq(s, "GET") {
        HttpMethod::Get
    } else if str_eq(s, "POST") {
        HttpMethod::Post
    } else if str_eq(s, "PUT") {
        HttpMethod::Put
    } else if str_eq(s, "DELETE") {
        HttpMethod::Delete
    } else if str_eq(s, "HEAD") {
        HttpMethod::Head
    } else if str_eq(s, "TRACE") {
        HttpMethod::Trace
    } else if str_eq(s, "CONNECT") {
        HttpMethod::Connect
    } else if str_eq(s, "PATCH") {
        HttpMethod::Patch
    } else if str_eq(s, "QUERY") {
        HttpMethod::Query
    } else {
        HttpMethod::Extension(u)
    }
}

/// Checks a method name with `http::Method::from_bytes`, giving back the
/// method's name (`Method::as_str`). Claimed, as the crate's source shows:
/// a name is accepted exactly when it is a non-empty token, and the name of
/// the method made from it is the name itself.
#[verifier::external_body]
fn http_method_name(u: &str) -> (r: Option<String>)
    ensures
        r is Some <==> valid_method_name(u@),
        r matches Some(n) ==> n@ == u@,
{
    match http::Method::from_bytes(u.as_bytes()) {
        Ok(m) => Some(m.as_str().to_owned()),
        Err(_) => None,
    }
}

/// Error for a method name that is not recognized.
#[derive(Clone, Debug, PartialEq, Eq)]
pub struct UnknownHttpMethod(pub String);

/// Parses a method name case-insensitively: the name is upper-cased and
/// must then be a token; it gives the standard method of that name, or an
/// extension method. Any other name is reported back as rejected.
pub fn parse_method_case_insensitive(s: &str) -> (r: Result<HttpMethod, UnknownHttpMethod>)
    ensures
        r is Ok <==> valid_method_name(upper_seq(s@)),
        r matches Ok(m) ==> names_method(upper_seq(s@), m),
        r matches Err(UnknownHttpMethod(name)) ==> name@ == s@,
{
    let upper = upper_chars(chars_of(s).as_slice());
    let u = string_from(upper.as_slice());
    match http_method_name(u.as_str()) {
        Some(n) => Ok(method_named(n)),
        None => Err(UnknownHttpMethod(s.to_owned())),
    }
}

// ---------------------------------------------------------------------------
// Requests
// ---------------------------------------------------------------------------

/// A single binary part of a multipart form.
#[derive(Debug, PartialEq)]
pub struct BinaryField {
    /// The form field name.
    pub field_name: String,
    /// The raw content.
    pub data: Vec<u8>,
    /// Optional MIME type of the part.
    pub content_type: Option<String>,
}

/// A multipart form body.
#[derive(Debug, PartialEq)]
pub struct MultipartBody {
    /// Text fields as `(name, value)` pairs.
    pub text_fields: Vec<(String, String)>,
    /// Binary fields.
    pub binary_fields: Vec<BinaryField>,
}

/// The body of an API request.
#[derive(Debug, PartialEq)]
pub enum RequestBody {
    /// A JSON body.
    Json(Json),
    /// A multipart form body.
    Multipart(MultipartBody),
}

impl RequestBody {
    /// The JSON value when this is a JSON body.
    pub fn as_json(&self) -> (r: Option<&Json>)
        ensures
            match *self {
                RequestBody::Json(v) => r == Some(&v),
                RequestBody::Multipart(_) => r is None,
            },
    {
        match self {
            RequestBody::Json(v) => Some(v),
            RequestBody::Multipart(_) => None,
        }
    }
}

/// An HTTP request to the Onshape API, without base URL or credentials.
#[derive(Debug, PartialEq)]
pub struct ApiRequest {
    /// HTTP method.
    pub method: HttpMethod,
    /// Resolved URL path, such as `/documents/abc123`.
    pub path: String,
    /// Query parameters in order.
    pub query_params: Vec<(String, String)>,
    /// Request headers as `(name, value)` pairs.
    pub headers: Vec<(String, String)>,
    /// Request body, if any.
    pub body: Option<RequestBody>,
    /// Content type of the body.
    pub content_type: Option<String>,
}

// ---------------------------------------------------------------------------
// Responses
// ---------------------------------------------------------------------------

/// A buffered response body.
#[derive(Debug, PartialEq)]
pub struct ResponseBody {
    /// Raw response bytes.
    pub bytes: Vec<u8>,
}

impl ResponseBody {
    /// Wraps raw bytes.
    pub fn new(bytes: Vec<u8>) -> (r: ResponseBody)
        ensures
            r.bytes@ == bytes@,
    {
        ResponseBody { bytes }
    }

    /// The raw bytes.
    pub fn as_bytes(&self) -> (r: &[u8])
        ensures
            r@ == self.bytes@,
    {
        self.bytes.as_slice()
    }

    /// The body as strict UTF-8 text; an error when it is not valid UTF-8.
    pub fn text(&self) -> (r: Result<&str, Utf8Error>)
        ensures
            r is Ok <==> valid_utf8(self.bytes@),
            r matches Ok(s) ==> s@ == decode_utf8(self.bytes@),
    {
        match utf8_decode(self.bytes.as_slice()) {
            Ok(s) => Ok(s),
            Err(e) => Err(e.0),
        }
    }

    /// The body as text, with invalid UTF-8 replaced by U+FFFD.
    pub fn text_lossy(&self) -> (r: String)
        ensures
            r@ == utf8_lossy(self.bytes@),
            valid_utf8(self.bytes@) ==> r@ == decode_utf8(self.bytes@),
    {
        utf8_decode_lossy(self.bytes.as_slice())
    }
}

/// The value of the first pair in `headers` whose name equals `name`
/// ignoring ASCII case.
pub open spec fn header_spec(headers: Seq<(String, String)>, name: Seq<char>) -> Option<Seq<char>>
    decreases headers.len(),
{
    if headers.len() == 0 {
        None
    } else if eq_ignore_case(headers[0].0@, name) {
        Some(headers[0].1@)
    } else {
        header_spec(headers.drop_first(), name)
    }
}

/// Looks up a header by name, ignoring ASCII case; the first match wins.
pub fn find_header<'a>(headers: &'a Vec<(String, String)>, name: &str) -> (r: Option<&'a String>)
    ensures
        match r {
            Some(v) => header_spec(headers@, name@) == Some(v@),
            None => header_spec(headers@, name@) is None,
        },
{
    let n = chars_of(name);
    let mut i: usize = 0;
    assert(headers@.subrange(0, headers@.len() as int) =~= headers@);
    while i < headers.len()
        invariant
            0 <= i <= headers@.len(),
            n@ == name@,
            header_spec(headers@, name@) == header_spec(headers@.subrange(i as int, headers@.len() as int), name@),
        decreases headers@.len() - i,
    {
        let ghost rest = headers@.subrange(i as int, headers@.len() as int);
        assert(rest.drop_first() =~= headers@.subrange(i + 1, headers@.len() as int));
        let h = chars_of(headers[i].0.as_str());
        if eq_ignore_case_chars(h.as_slice(), n.as_slice()) {
            return Some(&headers[i].1);
        }
        i = i + 1;
    }
    None
}

/// A raw HTTP response.
#[derive(Debug, PartialEq)]
pub struct ApiResponse {
    /// HTTP status code.
    pub status: u16,
    /// Response headers as `(name, value)` pairs.
    pub headers: Vec<(String, String)>,
    /// Response body.
    pub body: ResponseBody,
}

impl ApiResponse {
    /// The first header value named `name`, ignoring ASCII case.
    pub fn header(&self, name: &str) -> (r: Option<&str>)
        ensures
            match r {
                Some(v) => header_spec(self.headers@, name@) == Some(v@),
                None => header_spec(self.headers@, name@) is None,
            },
    {
        match find_header(&self.headers, name) {
            Some(v) => Some(v.as_str()),
            None => None,
        }
    }

    /// The `Content-Type` header, if present.
    pub fn content_type(&self) -> (r: Option<&str>)
        ensures
            match r {
                Some(v) => header_spec(self.headers@, "content-type"@) == Some(v@),
                None => header_spec(self.headers@, "content-type"@) is None,
            },
    {
        self.header("content-type")
    }
}


/// Parsing the wire name of a method gives the method back, whatever the
/// case it is written in.
pub proof fn lemma_method_name_roundtrip(m: HttpMethod)
    requires
        well_formed_method(m),
    ensures
        valid_method_name(method_name(m)),
        upper_seq(method_name(m)) == method_name(m),
        names_method(method_name(m), m),
        valid_method_name(lower_seq(method_name(m))),
        upper_seq(lower_seq(method_name(m))) == method_name(m),
{
    reveal_strlit("OPTIONS");
    reveal_strlit("GET");
    reveal_strlit("POST");
    reveal_strlit("PUT");
    reveal_strlit("DELETE");
    reveal_strlit("HEAD");
    reveal_strlit("TRACE");
    reveal_strlit("CONNECT");
    reveal_strlit("PATCH");
    reveal_strlit("QUERY");
    let u = method_name(m);
    let names = seq!["OPTIONS"@, "GET"@, "POST"@, "PUT"@, "DELETE"@, "HEAD"@, "TRACE"@, "CONNECT"@, "PATCH"@, "QUERY"@];
    assert forall|i: int, j: int| 0 <= i < j < 10 implies names[i] != names[j] by {
        if names[i].len() == names[j].len() {
            assert(names[i][0] != names[j][0]);
        }
    }
    assert(upper_seq(u) =~= u);
    assert(upper_seq(lower_seq(u)) =~= u);
}

/// A header lookup does not depend on the case of the name asked for: two
/// names that are equal ignoring ASCII case find the same value.
pub proof fn lemma_header_lookup_ignores_case(
    headers: Seq<(String, String)>,
    a: Seq<char>,
    b: Seq<char>,
)
    requires
        eq_ignore_case(a, b),
    ensures
        header_spec(headers, a) == header_spec(headers, b),
    decreases headers.len(),
{
    if headers.len() > 0 {
        lemma_header_lookup_ignores_case(headers.drop_first(), a, b);
    }
}

} // verus!
