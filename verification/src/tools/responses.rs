//! Turning raw API responses into tool results.
//!
//! A body that is valid UTF-8 and declared textual (or not declared at all)
//! is returned as text, or as JSON when it parses. Anything else is
//! summarized as a JSON object holding the Base64 encoding of the bytes.
use vstd::prelude::*;
use vstd::utf8::*;
use crate::encoding::{base64_encode, base64_standard_encode, utf8_decode};
use crate::json::{Json, JsonNumber, JsonNumberV, JsonV, deep_clone, fields_view, json_string, json_uint, lemma_object_view};
use crate::request::header_spec;
use crate::text::{
    ascii_lower, chars_eq, chars_of, decimal, ends_with_chars, eq_ignore_case, eq_ignore_case_chars,
    has_prefix, has_suffix, lower_chars, lower_seq, push_all, push_str, starts_with_chars,
    string_from, trim, trim_chars, u64_to_decimal,
};
use crate::tools::{ContentItem, ProtocolError, ToolOutput, single_text};

verus! {

/// Whether a status code is a success (2xx).
pub open spec fn is_success(status: u16) -> bool {
    200 <= status && status < 300
}

/// The text before the first `;` (all of it when there is none).
pub open spec fn before_semicolon(s: Seq<char>) -> Seq<char>
    decreases s.len(),
{
    if s.len() == 0 {
        s
    } else if s[0] == ';' {
        Seq::<char>::empty()
    } else {
        seq![s[0]] + before_semicolon(s.drop_first())
    }
}

/// The media type of a `Content-Type` value: the part before any
/// parameters, trimmed and in ASCII lower case.
pub open spec fn media_type(content_type: Seq<char>) -> Seq<char> {
    lower_seq(trim(before_semicolon(content_type)))
}

/// Whether a media type denotes text: `text/*`, JSON, XML, JavaScript or a
/// URL-encoded form.
pub open spec fn is_textual_media(m: Seq<char>) -> bool {
    ||| has_prefix(m, "text/"@)
    ||| m == "application/json"@
    ||| has_suffix(m, "+json"@)
    ||| m == "application/xml"@
    ||| has_suffix(m, "+xml"@)
    ||| m == "application/javascript"@
    ||| m == "application/x-www-form-urlencoded"@
}

/// The `Content-Type` of a response: its first header by that name,
/// ignoring ASCII case.
pub open spec fn content_type_of(headers: Seq<(String, String)>) -> Option<Seq<char>> {
    header_spec(headers, "content-type"@)
}

/// Whether a response body is returned as text: valid UTF-8 whose declared
/// type, if any, is textual.
pub open spec fn body_is_text(headers: Seq<(String, String)>, body: Seq<u8>) -> bool {
    &&& valid_utf8(body)
    &&& match content_type_of(headers) {
        Some(ct) => is_textual_media(media_type(ct)),
        None => true,
    }
}

/// `API error (HTTP <status>)`.
pub open spec fn http_error_label(status: u16) -> Seq<char> {
    "API error (HTTP "@ + decimal(status as nat) + ")"@
}

/// Whether `m` is a member named `key` holding the string `v`.
pub open spec fn str_member(m: (String, Json), key: Seq<char>, v: Seq<char>) -> bool {
    m.0@ == key && (m.1 matches Json::String(s) && s@ == v)
}

/// Whether `m` is a member named `key` holding the integer `n`.
pub open spec fn uint_member(m: (String, Json), key: Seq<char>, n: u64) -> bool {
    m.0@ == key && m.1 == Json::Number(JsonNumber::PosInt(n))
}

/// Whether `j` summarizes a binary body: the status, `base64` as the
/// encoding, the byte length, the encoded body, then the content type when
/// one was declared, then an error label when the status is not a success.
pub open spec fn binary_summary(
    j: Json,
    status: u16,
    headers: Seq<(String, String)>,
    body: Seq<u8>,
) -> bool {
    j matches Json::Object(f) && {
        let ct = content_type_of(headers);
        let n = 4 + (if ct is Some { 1int } else { 0int });
        &&& f@.len() == n + (if is_success(status) { 0int } else { 1int })
        &&& uint_member(f@[0], "status"@, status as u64)
        &&& str_member(f@[1], "encoding"@, "base64"@)
        &&& uint_member(f@[2], "byteLength"@, body.len() as u64)
        &&& str_member(f@[3], "body"@, base64_encode(body))
        &&& (ct matches Some(c) ==> str_member(f@[4], "contentType"@, c))
        &&& !is_success(status) ==> str_member(f@[n], "error"@, http_error_label(status))
    }
}

/// What `process_api_response` returns for a response, given the body
/// parsed as JSON (or the parser's message).
pub open spec fn api_response_outcome(
    status: u16,
    headers: Seq<(String, String)>,
    body: Seq<u8>,
    parsed: Result<Json, String>,
    r: Result<ToolOutput, ProtocolError>,
) -> bool {
    r matches Ok(out) && if body_is_text(headers, body) {
        let text = decode_utf8(body);
        if is_success(status) {
            &&& !out.is_error
            &&& out.content@.len() == 1
            &&& match parsed {
                Ok(v) => out.content@[0] matches ContentItem::Json(j) && j@ == v@,
                Err(_) => out.content@[0] matches ContentItem::Text(t) && t@ == text,
            }
        } else {
            single_text(out, true, http_error_label(status) + ": "@ + text)
        }
    } else {
        &&& out.is_error == !is_success(status)
        &&& out.content@.len() == 1
        &&& out.content@[0] matches ContentItem::Json(j) && binary_summary(j, status, headers, body)
    }
}

/// The model of a text or JSON content item; other items are not modelled.
pub enum ContentV {
    Text(Seq<char>),
    Json(JsonV),
    Other,
}

/// The model of a content item.
pub open spec fn content_view(c: ContentItem) -> ContentV {
    match c {
        ContentItem::Text(t) => ContentV::Text(t@),
        ContentItem::Json(j) => ContentV::Json(j@),
        _ => ContentV::Other,
    }
}

/// The model of a tool output: its error flag and its content items.
pub open spec fn output_view(out: ToolOutput) -> (bool, Seq<ContentV>) {
    (out.is_error, out.content@.map_values(|c: ContentItem| content_view(c)))
}

/// The summary of a binary body as a JSON model (see [`binary_summary`]).
pub open spec fn binary_summary_view(status: u16, headers: Seq<(String, String)>, body: Seq<u8>) -> JsonV {
    let base = seq![
        ("status"@, JsonV::Number(JsonNumberV::PosInt(status as u64))),
        ("encoding"@, JsonV::Str("base64"@)),
        ("byteLength"@, JsonV::Number(JsonNumberV::PosInt(body.len() as u64))),
        ("body"@, JsonV::Str(base64_encode(body))),
    ];
    let with_type = match content_type_of(headers) {
        Some(c) => base.push(("contentType"@, JsonV::Str(c))),
        None => base,
    };
    JsonV::Object(
        if is_success(status) {
            with_type
        } else {
            with_type.push(("error"@, JsonV::Str(http_error_label(status))))
        },
    )
}

/// The model of what `process_api_response` returns for a response.
pub open spec fn api_response_model(
    status: u16,
    headers: Seq<(String, String)>,
    body: Seq<u8>,
    parsed: Result<Json, String>,
) -> (bool, Seq<ContentV>) {
    if body_is_text(headers, body) {
        let text = decode_utf8(body);
        if is_success(status) {
            match parsed {
                Ok(v) => (false, seq![ContentV::Json(v@)]),
                Err(_) => (false, seq![ContentV::Text(text)]),
            }
        } else {
            (true, seq![ContentV::Text(http_error_label(status) + ": "@ + text)])
        }
    } else {
        (!is_success(status), seq![ContentV::Json(binary_summary_view(status, headers, body))])
    }
}

/// A binary summary's model is [`binary_summary_view`].
proof fn lemma_binary_summary_view(j: Json, status: u16, headers: Seq<(String, String)>, body: Seq<u8>)
    requires
        binary_summary(j, status, headers, body),
    ensures
        j@ == binary_summary_view(status, headers, body),
{
    let f = j->Object_0;
    lemma_object_view(f@);
    let fv = fields_view(f@);
    let expected = binary_summary_view(status, headers, body)->Object_0;
    assert forall|k: int| 0 <= k < fv.len() implies fv[k] == expected[k] by {
        assert(fv[k] == (f@[k].0@, f@[k].1@));
    }
    assert(fv =~= expected);
}

/// Whatever satisfies the outcome relation of `process_api_response` has
/// the model [`api_response_model`]: the relation fixes the result.
pub proof fn lemma_api_response_outcome_model(
    status: u16,
    headers: Seq<(String, String)>,
    body: Seq<u8>,
    parsed: Result<Json, String>,
    r: Result<ToolOutput, ProtocolError>,
)
    requires
        api_response_outcome(status, headers, body, parsed, r),
    ensures
        r matches Ok(out) && output_view(out) == api_response_model(status, headers, body, parsed),
{
    let out = r->Ok_0;
    if !body_is_text(headers, body) {
        let j = out.content@[0]->Json_0;
        lemma_binary_summary_view(j, status, headers, body);
    }
    assert(output_view(out).1 =~= api_response_model(status, headers, body, parsed).1);
}

/// A media type ending in `+json` is textual: a valid UTF-8 body declared
/// with such a type is returned as text or JSON, never summarized as
/// binary; on success with a body that parses, the result is that JSON.
pub proof fn lemma_json_suffix_is_text(
    status: u16,
    headers: Seq<(String, String)>,
    body: Seq<u8>,
    parsed: Result<Json, String>,
    ct: Seq<char>,
)
    requires
        content_type_of(headers) == Some(ct),
        valid_utf8(body),
        media_type(ct).len() >= 5,
        media_type(ct).subrange(media_type(ct).len() - 5, media_type(ct).len() as int) == "+json"@,
    ensures
        is_textual_media(media_type(ct)),
        body_is_text(headers, body),
        is_success(status) ==> (parsed matches Ok(v) ==> api_response_model(status, headers, body, parsed)
            == (false, seq![ContentV::Json(v@)])),
{
    reveal_strlit("+json");
    assert(has_suffix(media_type(ct), "+json"@));
}

proof fn lemma_before_semicolon_prefix(s: Seq<char>, i: int)
    requires
        0 <= i <= s.len(),
        forall|k: int| 0 <= k < i ==> s[k] != ';',
    ensures
        before_semicolon(s) == s.subrange(0, i) + before_semicolon(s.subrange(i, s.len() as int)),
    decreases i,
{
    if i > 0 {
        lemma_before_semicolon_prefix(s.drop_first(), i - 1);
        assert(s.drop_first().subrange(0, i - 1) =~= s.subrange(1, i));
        assert(s.drop_first().subrange(i - 1, s.len() - 1) =~= s.subrange(i, s.len() as int));
        assert(seq![s[0]] + s.subrange(1, i) =~= s.subrange(0, i));
        assert(seq![s[0]] + (s.subrange(1, i) + before_semicolon(s.subrange(i, s.len() as int)))
            =~= s.subrange(0, i) + before_semicolon(s.subrange(i, s.len() as int)));
    } else {
        assert(s.subrange(0, 0) + before_semicolon(s) =~= before_semicolon(s));
        assert(s.subrange(0, s.len() as int) =~= s);
    }
}

/// The media type of a `Content-Type` value.
pub fn media_type_of(content_type: &str) -> (r: Vec<char>)
    ensures
        r@ == media_type(content_type@),
{
    let s = chars_of(content_type);
    let mut head: Vec<char> = Vec::new();
    let mut i: usize = 0;
    while i < s.len() && s[i] != ';'
        invariant
            0 <= i <= s@.len(),
            head@ =~= s@.subrange(0, i as int),
            forall|k: int| 0 <= k < i ==> s@[k] != ';',
        decreases s@.len() - i,
    {
        head.push(s[i]);
        i = i + 1;
    }
    proof {
        lemma_before_semicolon_prefix(s@, i as int);
        let rest = s@.subrange(i as int, s@.len() as int);
        if i < s@.len() {
            assert(rest[0] == ';');
            assert(before_semicolon(rest) =~= Seq::<char>::empty());
        } else {
            assert(rest =~= Seq::<char>::empty());
        }
        assert(head@ + Seq::<char>::empty() =~= head@);
    }
    let t = trim_chars(head.as_slice());
    lower_chars(t.as_slice())
}

/// Whether a `Content-Type` value denotes text.
pub fn content_type_is_textual(content_type: &str) -> (r: bool)
    ensures
        r == is_textual_media(media_type(content_type@)),
{
    let m = media_type_of(content_type);
    let m = m.as_slice();
    starts_with_chars(m, chars_of("text/").as_slice()) || chars_eq(
        m,
        chars_of("application/json").as_slice(),
    ) || ends_with_chars(m, chars_of("+json").as_slice()) || chars_eq(
        m,
        chars_of("application/xml").as_slice(),
    ) || ends_with_chars(m, chars_of("+xml").as_slice()) || chars_eq(
        m,
        chars_of("application/javascript").as_slice(),
    ) || chars_eq(m, chars_of("application/x-www-form-urlencoded").as_slice())
}

/// The first `Content-Type` header of a response, ignoring ASCII case.
pub fn response_content_type(headers: &[(String, String)]) -> (r: Option<&String>)
    ensures
        match r {
            Some(v) => content_type_of(headers@) == Some(v@),
            None => content_type_of(headers@) is None,
        },
{
    let n = chars_of("content-type");
    let mut i: usize = 0;
    assert(headers@.subrange(0, headers@.len() as int) =~= headers@);
    while i < headers.len()
        invariant
            0 <= i <= headers@.len(),
            n@ == "content-type"@,
            content_type_of(headers@) == header_spec(
                headers@.subrange(i as int, headers@.len() as int),
                "content-type"@,
            ),
        decreases headers@.len() - i,
    {
        let ghost rest = headers@.subrange(i as int, headers@.len() as int);
        assert(rest.drop_first() =~= headers@.subrange(i + 1, headers@.len() as int));
        let h = chars_of(headers[i].0.as_str());
        if eq_ignore_case_chars(h.as_slice(), n.as_slice()) {
            return Some(&headers[i].1);
        }
        i = i + 1;
    }
    None
}

/// `API error (HTTP <status>)`.
fn http_error_text(status: u16) -> (r: Vec<char>)
    ensures
        r@ == http_error_label(status),
{
    let mut m = chars_of("API error (HTTP ");
    let d = u64_to_decimal(status as u64);
    push_all(&mut m, d.as_slice());
    push_str(&mut m, ")");
    m
}

/// The JSON summary of a binary (or non-textual) response body.
pub fn binary_api_response_content(status: u16, headers: &[(String, String)], body: &[u8]) -> (r:
    Json)
    ensures
        binary_summary(r, status, headers@, body@),
{
    let mut f: Vec<(String, Json)> = Vec::new();
    f.push(("status".to_owned(), json_uint(status as u64)));
    f.push(("encoding".to_owned(), json_string("base64")));
    f.push(("byteLength".to_owned(), json_uint(body.len() as u64)));
    let encoded = base64_standard_encode(body);
    f.push(("body".to_owned(), Json::String(encoded)));
    match response_content_type(headers) {
        Some(ct) => {
            f.push(("contentType".to_owned(), Json::String(ct.clone())));
        },
        None => {},
    }
    if !(200 <= status && status < 300) {
        let label = http_error_text(status);
        f.push(("error".to_owned(), Json::String(string_from(label.as_slice()))));
    }
    Json::Object(f)
}

/// Turns a raw API response into a tool result: 2xx responses succeed,
/// others are flagged as errors. A textual body is returned as JSON when
/// `parsed` holds its JSON value and as text otherwise; an error response
/// with a textual body reads `API error (HTTP <status>): <body>`. Other
/// bodies are summarized by `binary_api_response_content`.
pub fn process_api_response(
    status: u16,
    headers: &[(String, String)],
    body: &[u8],
    parsed: &Result<Json, String>,
) -> (r: Result<ToolOutput, ProtocolError>)
    ensures
        api_response_outcome(status, headers@, body@, *parsed, r),
{
    let success = 200 <= status && status < 300;
    let textual = match response_content_type(headers) {
        Some(ct) => content_type_is_textual(ct.as_str()),
        None => true,
    };
    let decoded = utf8_decode(body);
    match decoded {
        Ok(text) => {
            if textual {
                if success {
                    let item = match parsed {
                        Ok(v) => ContentItem::Json(deep_clone(v)),
                        Err(_) => ContentItem::Text(text.to_owned()),
                    };
                    return Ok(ToolOutput { is_error: false, content: vec![item] });
                } else {
                    let mut m = http_error_text(status);
                    push_str(&mut m, ": ");
                    push_str(&mut m, text);
                    let msg = string_from(m.as_slice());
                    return Ok(ToolOutput { is_error: true, content: vec![ContentItem::Text(msg)] });
                }
            }
        },
        Err(_) => {},
    }
    let summary = binary_api_response_content(status, headers, body);
    Ok(ToolOutput { is_error: !success, content: vec![ContentItem::Json(summary)] })
}

} // verus!
