//! Request builders and response helpers for individual Onshape endpoints.
//!
//! Identifiers are percent-encoded as single path segments: every UTF-8 byte
//! outside `A-Z a-z 0-9 - . _ ~` becomes `%XX` with upper-case hex digits.
use vstd::prelude::*;
use vstd::utf8::*;
use crate::json::{fields_view, lemma_object_view, member, Json, JsonNumber, JsonV};
use crate::request::{ApiRequest, HttpMethod, RequestBody};
use crate::encoding::utf8_encode;
use crate::text::{chars_of, push_all, push_str, string_from};

verus! {

/// Content type sent with JSON request bodies.
pub const JSON_CONTENT_TYPE: &'static str = "application/json;charset=UTF-8; qs=0.09";

/// Error returned by endpoint helper construction or parsing.
#[derive(Debug, PartialEq)]
pub enum Error {
    /// The request parameters could not be turned into JSON (message).
    SerializeBody(String),
    /// The request body is not a JSON object.
    InvalidBodyShape,
    /// The response body could not be parsed (message).
    ParseResponse(String),
}

// ---------------------------------------------------------------------------
// Percent-encoding of path segments
// ---------------------------------------------------------------------------

/// Bytes that a path segment keeps as they are.
pub open spec fn is_unreserved(b: u8) -> bool {
    (65 <= b && b <= 90) || (97 <= b && b <= 122) || (48 <= b && b <= 57) || b == 45 || b == 46
        || b == 95 || b == 126
}

/// Upper-case hexadecimal digit for `v < 16`.
pub open spec fn hex_digit(v: nat) -> char {
    if v < 10 {
        (('0' as nat) + v) as char
    } else {
        (('A' as nat) + (v - 10)) as char
    }
}

/// The encoding of a single byte.
pub open spec fn encode_byte(b: u8) -> Seq<char> {
    if is_unreserved(b) {
        seq![b as char]
    } else {
        seq!['%', hex_digit((b / 16) as nat), hex_digit((b % 16) as nat)]
    }
}

/// The percent-encoding of a byte sequence.
pub open spec fn percent_encode(b: Seq<u8>) -> Seq<char>
    decreases b.len(),
{
    if b.len() == 0 {
        seq![]
    } else {
        encode_byte(b[0]) + percent_encode(b.drop_first())
    }
}

/// The path segment for the text `s`: its UTF-8 bytes, percent-encoded.
pub open spec fn segment(s: Seq<char>) -> Seq<char> {
    percent_encode(encode_utf8(s))
}

/// Value of a hexadecimal digit (either case), if it is one.
pub open spec fn hex_value(c: char) -> Option<nat> {
    if '0' <= c && c <= '9' {
        Some(((c as nat) - ('0' as nat)) as nat)
    } else if 'A' <= c && c <= 'F' {
        Some(((c as nat) - ('A' as nat) + 10) as nat)
    } else if 'a' <= c && c <= 'f' {
        Some(((c as nat) - ('a' as nat) + 10) as nat)
    } else {
        None
    }
}

/// Percent-decoding: `%XX` gives the byte `XX`, an ASCII character gives
/// itself; anything else (a stray `%`, a non-ASCII character) fails.
pub open spec fn percent_decode(c: Seq<char>) -> Option<Seq<u8>>
    decreases c.len(),
{
    if c.len() == 0 {
        Some(seq![])
    } else if c[0] == '%' {
        if c.len() >= 3 && hex_value(c[1]) is Some && hex_value(c[2]) is Some {
            match percent_decode(c.subrange(3, c.len() as int)) {
                Some(rest) => Some(
                    seq![(hex_value(c[1])->0 * 16 + hex_value(c[2])->0) as u8] + rest,
                ),
                None => None,
            }
        } else {
            None
        }
    } else if (c[0] as u32) < 128 {
        match percent_decode(c.drop_first()) {
            Some(rest) => Some(seq![c[0] as u32 as u8] + rest),
            None => None,
        }
    } else {
        None
    }
}

proof fn lemma_percent_encode_concat(a: Seq<u8>, b: Seq<u8>)
    ensures
        percent_encode(a + b) == percent_encode(a) + percent_encode(b),
    decreases a.len(),
{
    if a.len() == 0 {
        assert(a + b =~= b);
        assert(percent_encode(a) =~= seq![]);
        assert(seq![] + percent_encode(b) =~= percent_encode(b));
    } else {
        assert((a + b).drop_first() =~= a.drop_first() + b);
        lemma_percent_encode_concat(a.drop_first(), b);
        assert(percent_encode(a + b) == encode_byte(a[0]) + percent_encode(a.drop_first() + b));
        assert(encode_byte(a[0]) + (percent_encode(a.drop_first()) + percent_encode(b))
            =~= (encode_byte(a[0]) + percent_encode(a.drop_first())) + percent_encode(b));
    }
}

proof fn lemma_percent_encode_snoc(s: Seq<u8>, i: int)
    requires
        0 <= i < s.len(),
    ensures
        percent_encode(s.subrange(0, i + 1)) == percent_encode(s.subrange(0, i)) + encode_byte(
            s[i],
        ),
{
    assert(s.subrange(0, i + 1) =~= s.subrange(0, i) + seq![s[i]]);
    lemma_percent_encode_concat(s.subrange(0, i), seq![s[i]]);
    assert(seq![s[i]].drop_first() =~= Seq::<u8>::empty());
    assert(percent_encode(Seq::<u8>::empty()) =~= Seq::<char>::empty());
    assert(percent_encode(seq![s[i]]) =~= encode_byte(s[i]) + Seq::<char>::empty());
    assert(encode_byte(s[i]) + Seq::<char>::empty() =~= encode_byte(s[i]));
}

/// Executable upper-case hex digit.
fn hex_digit_exec(v: u8) -> (c: char)
    requires
        v < 16,
    ensures
        c == hex_digit(v as nat),
{
    if v < 10 {
        (v + 48u8) as char
    } else {
        (v + 55u8) as char
    }
}

/// Percent-encodes `value` as a single URL path segment.
pub fn encode_path_segment(value: &str) -> (r: String)
    ensures
        r@ == segment(value@),
{
    let bytes = utf8_encode(value);
    let mut out: Vec<char> = Vec::new();
    let mut i: usize = 0;
    while i < bytes.len()
        invariant
            0 <= i <= bytes@.len(),
            out@ == percent_encode(bytes@.subrange(0, i as int)),
        decreases bytes@.len() - i,
    {
        let b = bytes[i];
        proof {
            lemma_percent_encode_snoc(bytes@, i as int);
        }
        if (65 <= b && b <= 90) || (97 <= b && b <= 122) || (48 <= b && b <= 57) || b == 45 || b
            == 46 || b == 95 || b == 126 {
            out.push(b as char);
            assert(out@ =~= percent_encode(bytes@.subrange(0, i as int)) + encode_byte(b));
        } else {
            out.push('%');
            out.push(hex_digit_exec(b / 16));
            out.push(hex_digit_exec(b % 16));
            assert(out@ =~= percent_encode(bytes@.subrange(0, i as int)) + encode_byte(b));
        }
        i = i + 1;
    }
    assert(bytes@.subrange(0, bytes@.len() as int) =~= bytes@);
    string_from(out.as_slice())
}

// ---------------------------------------------------------------------------
// Laws of path segments
// ---------------------------------------------------------------------------

/// Whether `c` can occur in an encoded segment: an unreserved character,
/// `%`, or an upper-case hexadecimal digit.
pub open spec fn segment_char(c: char) -> bool {
    ('A' <= c && c <= 'Z') || ('a' <= c && c <= 'z') || ('0' <= c && c <= '9') || c == '-' || c
        == '.' || c == '_' || c == '~' || c == '%'
}

/// Every character of an encoded segment is an unreserved character or `%`;
/// in particular a segment never holds `/`, `?` or `#`, so an identifier
/// cannot add path segments, a query or a fragment.
pub proof fn lemma_segment_chars(b: Seq<u8>)
    ensures
        forall|i: int| 0 <= i < percent_encode(b).len() ==> segment_char(#[trigger] percent_encode(b)[i]),
    decreases b.len(),
{
    if b.len() > 0 {
        lemma_segment_chars(b.drop_first());
        let e = encode_byte(b[0]);
        let rest = percent_encode(b.drop_first());
        assert(percent_encode(b) == e + rest);
        assert forall|i: int| 0 <= i < e.len() implies segment_char(#[trigger] e[i]) by {
            if !is_unreserved(b[0]) {
                assert(b[0] / 16 < 16);
            }
        }
        assert forall|i: int| 0 <= i < percent_encode(b).len() implies segment_char(
            #[trigger] percent_encode(b)[i],
        ) by {
            if i < e.len() {
                assert(percent_encode(b)[i] == e[i]);
            } else {
                assert(percent_encode(b)[i] == rest[i - e.len()]);
            }
        }
    }
}

proof fn lemma_hex_digit_value(v: nat)
    requires
        v < 16,
    ensures
        hex_value(hex_digit(v)) == Some(v),
{
}

proof fn lemma_decode_encode_bytes(b: Seq<u8>)
    ensures
        percent_decode(percent_encode(b)) == Some(b),
    decreases b.len(),
{
    if b.len() == 0 {
        assert(percent_encode(b) =~= seq![]);
    } else {
        lemma_decode_encode_bytes(b.drop_first());
        let x = b[0];
        let rest = percent_encode(b.drop_first());
        let c = percent_encode(b);
        assert(c == encode_byte(x) + rest);
        if is_unreserved(x) {
            assert(c[0] == x as char);
            assert(c.drop_first() =~= rest);
            assert((x as char) as u32 as u8 == x);
        } else {
            lemma_hex_digit_value((x / 16) as nat);
            lemma_hex_digit_value((x % 16) as nat);
            assert(c.subrange(3, c.len() as int) =~= rest);
            assert(((x / 16) as nat * 16 + (x % 16) as nat) as u8 == x);
        }
        assert(seq![x] + b.drop_first() =~= b);
    }
}

/// Percent-decoding an encoded segment gives back the UTF-8 bytes of the
/// text, so decoding those bytes gives back the text itself.
pub proof fn lemma_segment_roundtrip(s: Seq<char>)
    ensures
        percent_decode(segment(s)) == Some(encode_utf8(s)),
        decode_utf8(encode_utf8(s)) == s,
{
    lemma_decode_encode_bytes(encode_utf8(s));
    encode_utf8_decode_utf8(s);
}

/// Different texts give different segments.
pub proof fn lemma_segment_injective(s: Seq<char>, t: Seq<char>)
    requires
        segment(s) == segment(t),
    ensures
        s == t,
{
    lemma_segment_roundtrip(s);
    lemma_segment_roundtrip(t);
}

// ---------------------------------------------------------------------------
// Document / workspace / version / element references
// ---------------------------------------------------------------------------

/// Workspace-or-version selector for paths of the form `{wv}/{wvid}`.
#[derive(Clone, Copy, Debug, PartialEq, Eq)]
pub enum WorkspaceVersion<'a> {
    /// Serialized as `w/{id}`.
    Workspace(&'a str),
    /// Serialized as `v/{id}`.
    Version(&'a str),
}

/// Path token of a workspace-or-version selector.
pub open spec fn wv_token(w: WorkspaceVersion) -> Seq<char> {
    match w {
        WorkspaceVersion::Workspace(_) => "w"@,
        WorkspaceVersion::Version(_) => "v"@,
    }
}

/// Identifier of a workspace-or-version selector.
pub open spec fn wv_id(w: WorkspaceVersion) -> Seq<char> {
    match w {
        WorkspaceVersion::Workspace(id) => id@,
        WorkspaceVersion::Version(id) => id@,
    }
}

impl<'a> WorkspaceVersion<'a> {
    /// A workspace selector.
    pub fn workspace(id: &'a str) -> (r: Self)
        ensures
            r == WorkspaceVersion::Workspace(id),
    {
        WorkspaceVersion::Workspace(id)
    }

    /// A version selector.
    pub fn version(id: &'a str) -> (r: Self)
        ensures
            r == WorkspaceVersion::Version(id),
    {
        WorkspaceVersion::Version(id)
    }

    /// The path token: `w` or `v`.
    pub fn token(self) -> (r: &'static str)
        ensures
            r@ == wv_token(self),
    {
        match self {
            WorkspaceVersion::Workspace(_) => "w",
            WorkspaceVersion::Version(_) => "v",
        }
    }

    /// The selected identifier.
    pub fn id(self) -> (r: &'a str)
        ensures
            r@ == wv_id(self),
    {
        match self {
            WorkspaceVersion::Workspace(id) => id,
            WorkspaceVersion::Version(id) => id,
        }
    }
}

/// Workspace, version, or microversion selector for `{wvm}/{wvmid}` paths.
#[derive(Clone, Copy, Debug, PartialEq, Eq)]
pub enum WorkspaceVersionMicroversion<'a> {
    /// Serialized as `w/{id}`.
    Workspace(&'a str),
    /// Serialized as `v/{id}`.
    Version(&'a str),
    /// Serialized as `m/{id}`.
    Microversion(&'a str),
}

/// Path token of a workspace, version or microversion selector.
pub open spec fn wvm_token(w: WorkspaceVersionMicroversion) -> Seq<char> {
    match w {
        WorkspaceVersionMicroversion::Workspace(_) => "w"@,
        WorkspaceVersionMicroversion::Version(_) => "v"@,
        WorkspaceVersionMicroversion::Microversion(_) => "m"@,
    }
}

/// Identifier of a workspace, version or microversion selector.
pub open spec fn wvm_id(w: WorkspaceVersionMicroversion) -> Seq<char> {
    match w {
        WorkspaceVersionMicroversion::Workspace(id) => id@,
        WorkspaceVersionMicroversion::Version(id) => id@,
        WorkspaceVersionMicroversion::Microversion(id) => id@,
    }
}

impl<'a> WorkspaceVersionMicroversion<'a> {
    /// A workspace selector.
    pub fn workspace(id: &'a str) -> (r: Self)
        ensures
            r == WorkspaceVersionMicroversion::Workspace(id),
    {
        WorkspaceVersionMicroversion::Workspace(id)
    }

    /// A version selector.
    pub fn version(id: &'a str) -> (r: Self)
        ensures
            r == WorkspaceVersionMicroversion::Version(id),
    {
        WorkspaceVersionMicroversion::Version(id)
    }

    /// A microversion selector.
    pub fn microversion(id: &'a str) -> (r: Self)
        ensures
            r == WorkspaceVersionMicroversion::Microversion(id),
    {
        WorkspaceVersionMicroversion::Microversion(id)
    }

    /// The path token: `w`, `v` or `m`.
    pub fn token(self) -> (r: &'static str)
        ensures
            r@ == wvm_token(self),
    {
        match self {
            WorkspaceVersionMicroversion::Workspace(_) => "w",
            WorkspaceVersionMicroversion::Version(_) => "v",
            WorkspaceVersionMicroversion::Microversion(_) => "m",
        }
    }

    /// The selected identifier.
    pub fn id(self) -> (r: &'a str)
        ensures
            r@ == wvm_id(self),
    {
        match self {
            WorkspaceVersionMicroversion::Workspace(id) => id,
            WorkspaceVersionMicroversion::Version(id) => id,
            WorkspaceVersionMicroversion::Microversion(id) => id,
        }
    }
}

/// Document-element target for `{wv}/{wvid}` endpoints.
#[derive(Clone, Copy, Debug, PartialEq, Eq)]
pub struct ElementRef<'a> {
    /// Document ID.
    pub document_id: &'a str,
    /// Workspace or version selector.
    pub workspace_or_version: WorkspaceVersion<'a>,
    /// Element ID.
    pub element_id: &'a str,
}

impl<'a> ElementRef<'a> {
    /// An element reference.
    pub fn new(
        document_id: &'a str,
        workspace_or_version: WorkspaceVersion<'a>,
        element_id: &'a str,
    ) -> (r: Self)
        ensures
            r.document_id == document_id,
            r.workspace_or_version == workspace_or_version,
            r.element_id == element_id,
    {
        ElementRef { document_id, workspace_or_version, element_id }
    }
}

/// Document-element target for `{wvm}/{wvmid}` endpoints.
#[derive(Clone, Copy, Debug, PartialEq, Eq)]
pub struct WvmElementRef<'a> {
    /// Document ID.
    pub document_id: &'a str,
    /// Workspace, version, or microversion selector.
    pub workspace_version_or_microversion: WorkspaceVersionMicroversion<'a>,
    /// Element ID.
    pub element_id: &'a str,
}

impl<'a> WvmElementRef<'a> {
    /// A document-element reference for `{wvm}/{wvmid}` endpoints.
    pub fn new(
        document_id: &'a str,
        workspace_version_or_microversion: WorkspaceVersionMicroversion<'a>,
        element_id: &'a str,
    ) -> (r: Self)
        ensures
            r.document_id == document_id,
            r.workspace_version_or_microversion == workspace_version_or_microversion,
            r.element_id == element_id,
    {
        WvmElementRef { document_id, workspace_version_or_microversion, element_id }
    }
}

// ---------------------------------------------------------------------------
// Paths
// ---------------------------------------------------------------------------

/// `/{kind}/d/{did}/{token}/{id}/e/{eid}{suffix}` with encoded identifiers.
pub open spec fn doc_element_path(
    kind: Seq<char>,
    did: Seq<char>,
    token: Seq<char>,
    id: Seq<char>,
    eid: Seq<char>,
    suffix: Seq<char>,
) -> Seq<char> {
    "/"@ + kind + "/d/"@ + segment(did) + "/"@ + token + "/"@ + segment(id) + "/e/"@ + segment(
        eid,
    ) + suffix
}

/// The path of an element endpoint for a `{wv}` target.
pub open spec fn element_path_spec(kind: Seq<char>, t: ElementRef, suffix: Seq<char>) -> Seq<char> {
    doc_element_path(
        kind,
        t.document_id@,
        wv_token(t.workspace_or_version),
        wv_id(t.workspace_or_version),
        t.element_id@,
        suffix,
    )
}

/// The path of an element endpoint for a `{wvm}` target.
pub open spec fn wvm_element_path_spec(
    kind: Seq<char>,
    t: WvmElementRef,
    suffix: Seq<char>,
) -> Seq<char> {
    doc_element_path(
        kind,
        t.document_id@,
        wvm_token(t.workspace_version_or_microversion),
        wvm_id(t.workspace_version_or_microversion),
        t.element_id@,
        suffix,
    )
}

fn doc_element_path_exec(
    kind: &str,
    did: &str,
    token: &str,
    id: &str,
    eid: &str,
    suffix: &str,
) -> (r: String)
    ensures
        r@ == doc_element_path(kind@, did@, token@, id@, eid@, suffix@),
{
    let mut out = chars_of("/");
    push_str(&mut out, kind);
    push_str(&mut out, "/d/");
    let d = encode_path_segment(did);
    push_str(&mut out, d.as_str());
    push_str(&mut out, "/");
    push_str(&mut out, token);
    push_str(&mut out, "/");
    let w = encode_path_segment(id);
    push_str(&mut out, w.as_str());
    push_str(&mut out, "/e/");
    let e = encode_path_segment(eid);
    push_str(&mut out, e.as_str());
    push_str(&mut out, suffix);
    string_from(out.as_slice())
}

/// The path of an element endpoint for a `{wv}` target.
pub fn element_path(kind: &str, target: ElementRef<'_>, suffix: &str) -> (r: String)
    ensures
        r@ == element_path_spec(kind@, target, suffix@),
{
    doc_element_path_exec(
        kind,
        target.document_id,
        target.workspace_or_version.token(),
        target.workspace_or_version.id(),
        target.element_id,
        suffix,
    )
}

/// The path of an element endpoint for a `{wvm}` target.
pub fn wvm_element_path(kind: &str, target: WvmElementRef<'_>, suffix: &str) -> (r: String)
    ensures
        r@ == wvm_element_path_spec(kind@, target, suffix@),
{
    doc_element_path_exec(
        kind,
        target.document_id,
        target.workspace_version_or_microversion.token(),
        target.workspace_version_or_microversion.id(),
        target.element_id,
        suffix,
    )
}

// ---------------------------------------------------------------------------
// Request builders
// ---------------------------------------------------------------------------

/// Whether a request is a `GET` of `path` with no query, headers or body.
pub open spec fn is_plain_get(r: ApiRequest, path: Seq<char>) -> bool {
    &&& r.method == HttpMethod::Get
    &&& r.path@ == path
    &&& r.query_params@.len() == 0
    &&& r.headers@.len() == 0
    &&& r.body is None
    &&& r.content_type is None
}

/// Whether a request is a JSON `POST` of `body` to `path`.
pub open spec fn is_json_post(r: ApiRequest, path: Seq<char>, body: Json) -> bool {
    &&& r.method == HttpMethod::Post
    &&& r.path@ == path
    &&& r.query_params@.len() == 0
    &&& r.headers@.len() == 0
    &&& r.body == Some(RequestBody::Json(body))
    &&& r.content_type matches Some(ct) && ct@ == JSON_CONTENT_TYPE@
}

/// What a JSON `POST` builder returns: the request when the body is a JSON
/// object, and `InvalidBodyShape` otherwise.
pub open spec fn json_post_result(r: Result<ApiRequest, Error>, path: Seq<char>, body: Json) -> bool {
    if body is Object {
        r matches Ok(req) && is_json_post(req, path, body)
    } else {
        r matches Err(Error::InvalidBodyShape)
    }
}

fn plain_get(path: String) -> (r: ApiRequest)
    ensures
        is_plain_get(r, path@),
{
    ApiRequest {
        method: HttpMethod::Get,
        path,
        query_params: Vec::new(),
        headers: Vec::new(),
        body: None,
        content_type: None,
    }
}

/// A JSON `POST` of `body` to `path`; the body must be a JSON object.
pub fn json_post(path: String, body: Json) -> (r: Result<ApiRequest, Error>)
    ensures
        json_post_result(r, path@, body),
{
    let is_object = match &body {
        Json::Object(_) => true,
        _ => false,
    };
    if !is_object {
        return Err(Error::InvalidBodyShape);
    }
    Ok(
        ApiRequest {
            method: HttpMethod::Post,
            path,
            query_params: Vec::new(),
            headers: Vec::new(),
            body: Some(RequestBody::Json(body)),
            content_type: Some(JSON_CONTENT_TYPE.to_owned()),
        },
    )
}

/// Part Studio translation request (`createPartStudioTranslation`).
pub fn create_part_studio_translation(target: ElementRef<'_>, params: Json) -> (r: Result<
    ApiRequest,
    Error,
>)
    ensures
        json_post_result(r, element_path_spec("partstudios"@, target, "/translations"@), params),
{
    json_post(element_path("partstudios", target, "/translations"), params)
}

/// Assembly translation request (`translateFormat`).
pub fn create_assembly_translation(target: ElementRef<'_>, params: Json) -> (r: Result<
    ApiRequest,
    Error,
>)
    ensures
        json_post_result(r, element_path_spec("assemblies"@, target, "/translations"@), params),
{
    json_post(element_path("assemblies", target, "/translations"), params)
}

/// Part Studio glTF export request (`createPartStudioExportGltf`).
pub fn create_part_studio_export_gltf(target: ElementRef<'_>, params: Json) -> (r: Result<
    ApiRequest,
    Error,
>)
    ensures
        json_post_result(r, element_path_spec("partstudios"@, target, "/export/gltf"@), params),
{
    json_post(element_path("partstudios", target, "/export/gltf"), params)
}

/// Part Studio STEP export request (`createPartStudioExportStep`).
pub fn create_part_studio_export_step(target: ElementRef<'_>, params: Json) -> (r: Result<
    ApiRequest,
    Error,
>)
    ensures
        json_post_result(r, element_path_spec("partstudios"@, target, "/export/step"@), params),
{
    json_post(element_path("partstudios", target, "/export/step"), params)
}

/// Assembly glTF export request (`createAssemblyExportGltf`).
pub fn create_assembly_export_gltf(target: ElementRef<'_>, params: Json) -> (r: Result<
    ApiRequest,
    Error,
>)
    ensures
        json_post_result(r, element_path_spec("assemblies"@, target, "/export/gltf"@), params),
{
    json_post(element_path("assemblies", target, "/export/gltf"), params)
}

/// Assembly STEP export request (`createAssemblyExportStep`).
pub fn create_assembly_export_step(target: ElementRef<'_>, params: Json) -> (r: Result<
    ApiRequest,
    Error,
>)
    ensures
        json_post_result(r, element_path_spec("assemblies"@, target, "/export/step"@), params),
{
    json_post(element_path("assemblies", target, "/export/step"), params)
}

/// Translation status request (`getTranslation`).
pub fn get_translation(translation_id: &str) -> (r: ApiRequest)
    ensures
        is_plain_get(r, "/translations/"@ + segment(translation_id@)),
{
    let mut out = chars_of("/translations/");
    let id = encode_path_segment(translation_id);
    push_str(&mut out, id.as_str());
    plain_get(string_from(out.as_slice()))
}

/// Translator formats request (`getAllTranslatorFormats`).
pub fn get_all_translator_formats() -> (r: ApiRequest)
    ensures
        is_plain_get(r, "/translations/translationformats"@),
{
    plain_get("/translations/translationformats".to_owned())
}

/// External data download request (`downloadExternalData`).
pub fn download_external_data(document_id: &str, foreign_id: &str) -> (r: ApiRequest)
    ensures
        is_plain_get(
            r,
            "/documents/d/"@ + segment(document_id@) + "/externaldata/"@ + segment(foreign_id@),
        ),
{
    let mut out = chars_of("/documents/d/");
    let d = encode_path_segment(document_id);
    push_str(&mut out, d.as_str());
    push_str(&mut out, "/externaldata/");
    let f = encode_path_segment(foreign_id);
    push_str(&mut out, f.as_str());
    plain_get(string_from(out.as_slice()))
}

/// Optional query parameters of [`get_configuration`].
#[derive(Clone, Copy, Debug, PartialEq, Eq)]
pub struct GetConfigurationOptions<'a> {
    /// Linked document ID used when accessing linked version data.
    pub link_document_id: Option<&'a str>,
}

impl<'a> Default for GetConfigurationOptions<'a> {
    fn default() -> (r: Self)
        ensures
            r.link_document_id is None,
    {
        GetConfigurationOptions { link_document_id: None }
    }
}

/// Optional query parameters of [`encode_configuration_map`].
#[derive(Clone, Copy, Debug, PartialEq, Eq)]
pub struct EncodeConfigurationMapOptions<'a> {
    /// Version ID to use while encoding the configuration map.
    pub version_id: Option<&'a str>,
    /// Linked document ID used when accessing linked version data.
    pub link_document_id: Option<&'a str>,
}

impl<'a> Default for EncodeConfigurationMapOptions<'a> {
    fn default() -> (r: Self)
        ensures
            r.version_id is None,
            r.link_document_id is None,
    {
        EncodeConfigurationMapOptions { version_id: None, link_document_id: None }
    }
}

/// The query pairs for the optional parameters, in the given order, with the
/// absent ones left out.
pub open spec fn optional_pairs(pairs: Seq<(Seq<char>, Option<Seq<char>>)>) -> Seq<
    (Seq<char>, Seq<char>),
>
    decreases pairs.len(),
{
    if pairs.len() == 0 {
        seq![]
    } else {
        let rest = optional_pairs(pairs.drop_first());
        match pairs[0].1 {
            Some(v) => seq![(pairs[0].0, v)] + rest,
            None => rest,
        }
    }
}

/// The models of query parameter pairs.
pub open spec fn pairs_view(p: Seq<(String, String)>) -> Seq<(Seq<char>, Seq<char>)> {
    p.map_values(|x: (String, String)| (x.0@, x.1@))
}

/// The model of an optional string.
pub open spec fn opt_str(v: Option<&str>) -> Option<Seq<char>> {
    match v {
        Some(s) => Some(s@),
        None => None,
    }
}

/// Configuration definition request (`getConfiguration`).
pub fn get_configuration(target: WvmElementRef<'_>, options: GetConfigurationOptions<'_>) -> (r:
    ApiRequest)
    ensures
        r.method == HttpMethod::Get,
        r.path@ == wvm_element_path_spec("elements"@, target, "/configuration"@),
        pairs_view(r.query_params@) == optional_pairs(
            seq![("linkDocumentId"@, opt_str(options.link_document_id))],
        ),
        r.headers@.len() == 0,
        r.body is None,
        r.content_type is None,
{
    let mut query_params: Vec<(String, String)> = Vec::new();
    let ghost p = seq![("linkDocumentId"@, opt_str(options.link_document_id))];
    assert(p.drop_first() =~= Seq::<(Seq<char>, Option<Seq<char>>)>::empty());
    assert(optional_pairs(p.drop_first()) =~= seq![]);
    if let Some(link_document_id) = options.link_document_id {
        query_params.push(("linkDocumentId".to_owned(), link_document_id.to_owned()));
        assert(optional_pairs(p) =~= seq![("linkDocumentId"@, link_document_id@)]);
    } else {
        assert(optional_pairs(p) =~= seq![]);
    }
    assert(pairs_view(query_params@) =~= optional_pairs(p));
    ApiRequest {
        method: HttpMethod::Get,
        path: wvm_element_path("elements", target, "/configuration"),
        query_params,
        headers: Vec::new(),
        body: None,
        content_type: None,
    }
}

/// Configuration encoding request (`encodeConfigurationMap`): a JSON `POST`
/// with `versionId` and then `linkDocumentId` as query parameters when given.
pub fn encode_configuration_map(
    document_id: &str,
    element_id: &str,
    options: EncodeConfigurationMapOptions<'_>,
    params: Json,
) -> (r: Result<ApiRequest, Error>)
    ensures
        match r {
            Ok(req) => {
                &&& params is Object
                &&& req.method == HttpMethod::Post
                &&& req.path@ == "/elements/d/"@ + segment(document_id@) + "/e/"@ + segment(
                    element_id@,
                ) + "/configurationencodings"@
                &&& pairs_view(req.query_params@) == optional_pairs(
                    seq![
                        ("versionId"@, opt_str(options.version_id)),
                        ("linkDocumentId"@, opt_str(options.link_document_id)),
                    ],
                )
                &&& req.headers@.len() == 0
                &&& req.body == Some(RequestBody::Json(params))
                &&& req.content_type matches Some(ct) && ct@ == JSON_CONTENT_TYPE@
            },
            Err(e) => !(params is Object) && e is InvalidBodyShape,
        },
{
    let mut out = chars_of("/elements/d/");
    let d = encode_path_segment(document_id);
    push_str(&mut out, d.as_str());
    push_str(&mut out, "/e/");
    let e = encode_path_segment(element_id);
    push_str(&mut out, e.as_str());
    push_str(&mut out, "/configurationencodings");
    let mut request = match json_post(string_from(out.as_slice()), params) {
        Ok(req) => req,
        Err(e) => return Err(e),
    };
    let ghost p = seq![
        ("versionId"@, opt_str(options.version_id)),
        ("linkDocumentId"@, opt_str(options.link_document_id)),
    ];
    let ghost p1 = p.drop_first();
    assert(p1.drop_first() =~= Seq::<(Seq<char>, Option<Seq<char>>)>::empty());
    assert(optional_pairs(p1.drop_first()) =~= seq![]);
    assert(request.query_params@.len() == 0);
    let ghost tail = optional_pairs(p1);
    if let Some(link_document_id) = options.link_document_id {
        assert(tail =~= seq![("linkDocumentId"@, link_document_id@)]);
    } else {
        assert(tail =~= seq![]);
    }
    if let Some(version_id) = options.version_id {
        request.query_params.push(("versionId".to_owned(), version_id.to_owned()));
        assert(optional_pairs(p) =~= seq![("versionId"@, version_id@)] + tail);
    } else {
        assert(optional_pairs(p) =~= tail);
    }
    assert(pairs_view(request.query_params@) + tail =~= optional_pairs(p));
    let ghost before = request.query_params@;
    if let Some(link_document_id) = options.link_document_id {
        request.query_params.push(("linkDocumentId".to_owned(), link_document_id.to_owned()));
        assert(pairs_view(request.query_params@) =~= pairs_view(before) + tail);
    } else {
        assert(pairs_view(request.query_params@) =~= pairs_view(before) + tail);
    }
    assert(pairs_view(request.query_params@) =~= optional_pairs(p));
    Ok(request)
}

// ---------------------------------------------------------------------------
// Translation results
// ---------------------------------------------------------------------------

/// Onshape translation request states.
#[derive(Clone, Debug, PartialEq, Eq)]
pub enum TranslationRequestState {
    /// Still running.
    Active,
    /// Completed successfully.
    Done,
    /// Failed.
    Failed,
    /// A state not known to this library, by its wire name.
    Other(String),
}

/// Wire name of a translation state.
pub open spec fn state_name(s: TranslationRequestState) -> Seq<char> {
    match s {
        TranslationRequestState::Active => "ACTIVE"@,
        TranslationRequestState::Done => "DONE"@,
        TranslationRequestState::Failed => "FAILED"@,
        TranslationRequestState::Other(v) => v@,
    }
}

impl TranslationRequestState {
    /// The wire-format state string.
    pub fn as_str(&self) -> (r: &str)
        ensures
            r@ == state_name(*self),
    {
        match self {
            TranslationRequestState::Active => "ACTIVE",
            TranslationRequestState::Done => "DONE",
            TranslationRequestState::Failed => "FAILED",
            TranslationRequestState::Other(value) => value.as_str(),
        }
    }

    /// The state named by a wire string; unknown names are kept as `Other`.
    pub fn from_wire(value: String) -> (r: Self)
        ensures
            state_name(r) == value@,
            r is Other <==> (value@ != "ACTIVE"@ && value@ != "DONE"@ && value@ != "FAILED"@),
    {
        let v = chars_of(value.as_str());
        let active = chars_of("ACTIVE");
        let done = chars_of("DONE");
        let failed = chars_of("FAILED");
        if crate::text::chars_eq(v.as_slice(), active.as_slice()) {
            TranslationRequestState::Active
        } else if crate::text::chars_eq(v.as_slice(), done.as_slice()) {
            TranslationRequestState::Done
        } else if crate::text::chars_eq(v.as_slice(), failed.as_slice()) {
            TranslationRequestState::Failed
        } else {
            TranslationRequestState::Other(value)
        }
    }
}

/// Result of a translation request (`BTTranslationRequestInfo`).
#[derive(Clone, Debug, PartialEq, Eq)]
pub struct TranslationRequestInfo {
    /// Source document ID.
    pub document_id: Option<String>,
    /// Failure reason of a failed translation.
    pub failure_reason: Option<String>,
    /// Translation request ID.
    pub id: Option<String>,
    /// Translation request state.
    pub request_state: Option<TranslationRequestState>,
    /// Result document ID.
    pub result_document_id: Option<String>,
    /// Result element IDs.
    pub result_element_ids: Option<Vec<String>>,
    /// Result external data IDs, used with `downloadExternalData`.
    pub result_external_data_ids: Option<Vec<String>>,
}

/// The IDs of an optional list, empty when absent.
pub open spec fn ids_or_empty(v: Option<Vec<String>>) -> Seq<String> {
    match v {
        Some(ids) => ids@,
        None => seq![],
    }
}

impl TranslationRequestInfo {
    /// Result external data IDs; empty when absent.
    pub fn external_data_ids(&self) -> (r: &[String])
        ensures
            r@ == ids_or_empty(self.result_external_data_ids),
    {
        match &self.result_external_data_ids {
            Some(ids) => ids.as_slice(),
            None => &[],
        }
    }

    /// Result element IDs; empty when absent.
    pub fn element_ids(&self) -> (r: &[String])
        ensures
            r@ == ids_or_empty(self.result_element_ids),
    {
        match &self.result_element_ids {
            Some(ids) => ids.as_slice(),
            None => &[],
        }
    }
}


// ---------------------------------------------------------------------------
// Reading a translation result
// ---------------------------------------------------------------------------

/// The number of members of `fields` named `key`.
pub open spec fn key_count(fields: Seq<(String, Json)>, key: Seq<char>) -> nat
    decreases fields.len(),
{
    if fields.len() == 0 {
        0
    } else {
        key_count(fields.drop_last(), key) + if fields.last().0@ == key {
            1nat
        } else {
            0nat
        }
    }
}

/// An optional text field: absent or `null` reads as `None`, a string as its
/// text; any other value makes the document invalid (outer `None`).
pub open spec fn opt_text_field(v: Option<Json>) -> Option<Option<Seq<char>>> {
    match v {
        None => Some(None),
        Some(Json::Null) => Some(None),
        Some(Json::String(s)) => Some(Some(s@)),
        _ => None,
    }
}

/// An optional list of texts: absent or `null` reads as `None`, an array of
/// strings as their texts; any other value makes the document invalid.
pub open spec fn opt_texts_field(v: Option<Json>) -> Option<Option<Seq<Seq<char>>>> {
    match v {
        None => Some(None),
        Some(Json::Null) => Some(None),
        Some(Json::Array(items)) => if forall|i: int|
            0 <= i < items@.len() ==> (#[trigger] items@[i]) is String {
            Some(Some(Seq::new(items@.len(), |i: int| items@[i]->String_0@)))
        } else {
            None
        },
        _ => None,
    }
}

/// The member names of a translation result.
pub open spec fn info_keys() -> Seq<Seq<char>> {
    seq![
        "documentId"@,
        "failureReason"@,
        "id"@,
        "requestState"@,
        "resultDocumentId"@,
        "resultElementIds"@,
        "resultExternalDataIds"@,
    ]
}

/// Whether a parsed document reads as a translation result: an object in
/// which no known member occurs twice and each known member has its type.
/// Unknown members are ignored.
pub open spec fn info_accepts(v: Json) -> bool {
    match v {
        Json::Object(fields) => {
            &&& forall|k: int| 0 <= k < 7 ==> key_count(fields@, #[trigger] info_keys()[k]) <= 1
            &&& opt_text_field(member(fields@, "documentId"@)) is Some
            &&& opt_text_field(member(fields@, "failureReason"@)) is Some
            &&& opt_text_field(member(fields@, "id"@)) is Some
            &&& opt_text_field(member(fields@, "requestState"@)) is Some
            &&& opt_text_field(member(fields@, "resultDocumentId"@)) is Some
            &&& opt_texts_field(member(fields@, "resultElementIds"@)) is Some
            &&& opt_texts_field(member(fields@, "resultExternalDataIds"@)) is Some
        },
        _ => false,
    }
}

/// The model of an optional string.
pub open spec fn opt_text(v: Option<String>) -> Option<Seq<char>> {
    match v {
        Some(s) => Some(s@),
        None => None,
    }
}

/// The model of an optional list of strings.
pub open spec fn opt_texts(v: Option<Vec<String>>) -> Option<Seq<Seq<char>>> {
    match v {
        Some(ids) => Some(ids@.map_values(|x: String| x@)),
        None => None,
    }
}

/// The model of an optional translation state, by its wire name.
pub open spec fn opt_state_name(v: Option<TranslationRequestState>) -> Option<Seq<char>> {
    match v {
        Some(s) => Some(state_name(s)),
        None => None,
    }
}

/// Whether `info` holds what the members of `fields` give.
pub open spec fn info_matches(info: TranslationRequestInfo, fields: Seq<(String, Json)>) -> bool {
    &&& opt_text(info.document_id) == opt_text_field(member(fields, "documentId"@))->0
    &&& opt_text(info.failure_reason) == opt_text_field(member(fields, "failureReason"@))->0
    &&& opt_text(info.id) == opt_text_field(member(fields, "id"@))->0
    &&& opt_state_name(info.request_state) == opt_text_field(member(fields, "requestState"@))->0
    &&& (info.request_state matches Some(st) ==> (st is Other <==> (state_name(st) != "ACTIVE"@
        && state_name(st) != "DONE"@ && state_name(st) != "FAILED"@)))
    &&& opt_text(info.result_document_id) == opt_text_field(member(fields, "resultDocumentId"@))->0
    &&& opt_texts(info.result_element_ids) == opt_texts_field(member(fields, "resultElementIds"@))->0
    &&& opt_texts(info.result_external_data_ids) == opt_texts_field(
        member(fields, "resultExternalDataIds"@),
    )->0
}

/// Message for a document that does not read as a translation result.
pub const INFO_SHAPE_MESSAGE: &'static str = "response is not a valid BTTranslationRequestInfo document";

fn count_key(fields: &Vec<(String, Json)>, key: &str) -> (r: usize)
    ensures
        r == key_count(fields@, key@),
{
    let k = chars_of(key);
    let mut n: usize = 0;
    let mut i: usize = 0;
    while i < fields.len()
        invariant
            0 <= i <= fields@.len(),
            k@ == key@,
            n == key_count(fields@.subrange(0, i as int), key@),
            n <= i,
        decreases fields@.len() - i,
    {
        assert(fields@.subrange(0, i + 1).drop_last() =~= fields@.subrange(0, i as int));
        let name = chars_of(fields[i].0.as_str());
        if crate::text::chars_eq(name.as_slice(), k.as_slice()) {
            n = n + 1;
        }
        i = i + 1;
    }
    assert(fields@.subrange(0, fields@.len() as int) =~= fields@);
    n
}

fn read_text(v: Option<&Json>) -> (r: Result<Option<String>, ()>)
    ensures
        match opt_text_field(crate::json::deref_opt(v)) {
            Some(x) => r matches Ok(y) && opt_text(y) == x,
            None => r is Err,
        },
{
    match v {
        None => Ok(None),
        Some(Json::Null) => Ok(None),
        Some(Json::String(s)) => Ok(Some(s.clone())),
        _ => Err(()),
    }
}

fn read_texts(v: Option<&Json>) -> (r: Result<Option<Vec<String>>, ()>)
    ensures
        match opt_texts_field(crate::json::deref_opt(v)) {
            Some(x) => r matches Ok(y) && opt_texts(y) == x,
            None => r is Err,
        },
{
    match v {
        None => Ok(None),
        Some(Json::Null) => Ok(None),
        Some(Json::Array(items)) => {
            let mut out: Vec<String> = Vec::new();
            let mut i: usize = 0;
            while i < items.len()
                invariant
                    0 <= i <= items@.len(),
                    out@.len() == i,
                    crate::json::deref_opt(v) == Some(Json::Array(*items)),
                    forall|k: int| 0 <= k < i ==> (#[trigger] items@[k]) is String && out@[k]@
                        == items@[k]->String_0@,
                decreases items@.len() - i,
            {
                match &items[i] {
                    Json::String(s) => {
                        out.push(s.clone());
                    },
                    _ => {
                        assert(!(items@[i as int] is String));
                        return Err(());
                    },
                }
                i = i + 1;
            }
            assert(out@.map_values(|x: String| x@) =~= Seq::new(
                items@.len(),
                |i: int| items@[i]->String_0@,
            ));
            Ok(Some(out))
        },
        _ => Err(()),
    }
}

/// Reads a translation result (`BTTranslationRequestInfo`) from a response
/// body that was parsed as JSON. A body that did not parse gives
/// `ParseResponse` with the parser's message; a document of the wrong shape
/// gives `ParseResponse` with [`INFO_SHAPE_MESSAGE`]. The HTTP status is the
/// caller's to interpret.
pub fn parse_translation_request_info(parsed: Result<Json, String>) -> (r: Result<
    TranslationRequestInfo,
    Error,
>)
    ensures
        match parsed {
            Err(m) => r == Err::<TranslationRequestInfo, Error>(Error::ParseResponse(m)),
            Ok(v) => if info_accepts(v) {
                r matches Ok(info) && info_matches(info, v->Object_0@)
            } else {
                r matches Err(Error::ParseResponse(m)) && m@ == INFO_SHAPE_MESSAGE@
            },
        },
{
    let v = match parsed {
        Err(m) => return Err(Error::ParseResponse(m)),
        Ok(v) => v,
    };
    let shape_error = Error::ParseResponse(INFO_SHAPE_MESSAGE.to_owned());
    let fields = match &v {
        Json::Object(fields) => fields,
        _ => return Err(shape_error),
    };
    let keys: [&str; 7] = [
        "documentId",
        "failureReason",
        "id",
        "requestState",
        "resultDocumentId",
        "resultElementIds",
        "resultExternalDataIds",
    ];
    let mut k: usize = 0;
    while k < 7
        invariant
            0 <= k <= 7,
            parsed == Ok::<Json, String>(v),
            v == Json::Object(*fields),
            shape_error matches Error::ParseResponse(m) && m@ == INFO_SHAPE_MESSAGE@,
            forall|j: int| 0 <= j < 7 ==> (#[trigger] keys@[j])@ == info_keys()[j],
            forall|j: int| 0 <= j < k ==> key_count(fields@, #[trigger] info_keys()[j]) <= 1,
        decreases 7 - k,
    {
        if count_key(fields, keys[k]) > 1 {
            return Err(shape_error);
        }
        k = k + 1;
    }
    let document_id = match read_text(crate::json::object_get(fields, "documentId")) {
        Ok(x) => x,
        Err(_) => return Err(shape_error),
    };
    let failure_reason = match read_text(crate::json::object_get(fields, "failureReason")) {
        Ok(x) => x,
        Err(_) => return Err(shape_error),
    };
    let id = match read_text(crate::json::object_get(fields, "id")) {
        Ok(x) => x,
        Err(_) => return Err(shape_error),
    };
    let state = match read_text(crate::json::object_get(fields, "requestState")) {
        Ok(x) => x,
        Err(_) => return Err(shape_error),
    };
    let result_document_id = match read_text(crate::json::object_get(fields, "resultDocumentId")) {
        Ok(x) => x,
        Err(_) => return Err(shape_error),
    };
    let result_element_ids = match read_texts(crate::json::object_get(fields, "resultElementIds")) {
        Ok(x) => x,
        Err(_) => return Err(shape_error),
    };
    let result_external_data_ids = match read_texts(
        crate::json::object_get(fields, "resultExternalDataIds"),
    ) {
        Ok(x) => x,
        Err(_) => return Err(shape_error),
    };
    let request_state = match state {
        Some(name) => Some(TranslationRequestState::from_wire(name)),
        None => None,
    };
    Ok(
        TranslationRequestInfo {
            document_id,
            failure_reason,
            id,
            request_state,
            result_document_id,
            result_element_ids,
            result_external_data_ids,
        },
    )
}


// ---------------------------------------------------------------------------
// Typed request bodies
// ---------------------------------------------------------------------------

/// The member `key` holding text `v`, when `v` is present.
pub open spec fn str_field(key: Seq<char>, v: Option<&str>) -> Seq<(Seq<char>, JsonV)> {
    match v {
        Some(s) => seq![(key, JsonV::Str(s@))],
        None => seq![],
    }
}

/// The member `key` holding the boolean `v`, when `v` is present.
pub open spec fn bool_field(key: Seq<char>, v: Option<bool>) -> Seq<(Seq<char>, JsonV)> {
    match v {
        Some(b) => seq![(key, JsonV::Bool(b))],
        None => seq![],
    }
}

/// The member `key` holding the number `v`, when `v` is present.
pub open spec fn number_field(key: Seq<char>, v: Option<JsonNumber>) -> Seq<(Seq<char>, JsonV)> {
    match v {
        Some(n) => seq![(key, JsonV::Number(n@))],
        None => seq![],
    }
}

/// The member `key` holding the object with members `m`, when present.
pub open spec fn object_field(key: Seq<char>, m: Option<Seq<(Seq<char>, JsonV)>>) -> Seq<(Seq<char>, JsonV)> {
    match m {
        Some(f) => seq![(key, JsonV::Object(f))],
        None => seq![],
    }
}

fn push_str_field(fields: &mut Vec<(String, Json)>, key: &str, v: Option<&str>)
    ensures
        fields_view(final(fields)@) == fields_view(old(fields)@) + str_field(key@, v),
{
    let ghost before = fields@;
    match v {
        Some(s) => {
            fields.push((key.to_owned(), Json::String(s.to_owned())));
            assert(fields_view(fields@) =~= fields_view(before) + str_field(key@, v));
        },
        None => {
            assert(fields_view(fields@) =~= fields_view(before) + str_field(key@, v));
        },
    }
}

fn push_bool_field(fields: &mut Vec<(String, Json)>, key: &str, v: Option<bool>)
    ensures
        fields_view(final(fields)@) == fields_view(old(fields)@) + bool_field(key@, v),
{
    let ghost before = fields@;
    match v {
        Some(b) => {
            fields.push((key.to_owned(), Json::Bool(b)));
            assert(fields_view(fields@) =~= fields_view(before) + bool_field(key@, v));
        },
        None => {
            assert(fields_view(fields@) =~= fields_view(before) + bool_field(key@, v));
        },
    }
}

fn push_number_field(fields: &mut Vec<(String, Json)>, key: &str, v: &Option<JsonNumber>)
    ensures
        fields_view(final(fields)@) == fields_view(old(fields)@) + number_field(key@, *v),
{
    let ghost before = fields@;
    match v {
        Some(n) => {
            let copy = match n {
                JsonNumber::PosInt(u) => JsonNumber::PosInt(*u),
                JsonNumber::NegInt(i) => JsonNumber::NegInt(*i),
                JsonNumber::Float(t) => JsonNumber::Float(t.clone()),
            };
            assert(copy@ == n@);
            fields.push((key.to_owned(), Json::Number(copy)));
            assert(fields_view(fields@) =~= fields_view(before) + number_field(key@, *v));
        },
        None => {
            assert(fields_view(fields@) =~= fields_view(before) + number_field(key@, *v));
        },
    }
}

fn push_object_field(fields: &mut Vec<(String, Json)>, key: &str, v: Option<Vec<(String, Json)>>)
    ensures
        fields_view(final(fields)@) == fields_view(old(fields)@) + object_field(
            key@,
            match v {
                Some(f) => Some(fields_view(f@)),
                None => None,
            },
        ),
{
    let ghost before = fields@;
    match v {
        Some(f) => {
            let ghost fv = f@;
            proof {
                lemma_object_view(fv);
            }
            fields.push((key.to_owned(), Json::Object(f)));
            assert(fields_view(fields@) =~= fields_view(before) + seq![(key@, JsonV::Object(fields_view(fv)))]);
        },
        None => {
            assert(fields_view(fields@) =~= fields_view(before));
        },
    }
}

/// Advanced export options shared by typed export request bodies.
#[derive(Clone, Debug, PartialEq)]
pub struct ExportAdvancedParams<'a> {
    /// URL-encoded configuration query string, separated by `;` for multiple values.
    pub configuration: Option<&'a str>,
}

/// The members `ExportAdvancedParams` is sent with: each present field under its
/// camel-case name, in declaration order.
pub open spec fn export_advanced_params_members(b: ExportAdvancedParams) -> Seq<(Seq<char>, JsonV)> {
    seq![]
        + str_field("configuration"@, b.configuration)
}

impl<'a> ExportAdvancedParams<'a> {
    /// The members of the JSON object this value is sent as.
    pub fn members(&self) -> (r: Vec<(String, Json)>)
        ensures
            fields_view(r@) == export_advanced_params_members(*self),
    {
        let mut fields: Vec<(String, Json)> = Vec::new();
        assert(fields_view(fields@) =~= seq![]);
        push_str_field(&mut fields, "configuration", self.configuration);
        proof {
            assert(fields_view(fields@) =~= export_advanced_params_members(*self));
        }
        fields
    }

    /// The JSON object this value is sent as.
    pub fn to_json(&self) -> (r: Json)
        ensures
            r@ == JsonV::Object(export_advanced_params_members(*self)),
    {
        let f = self.members();
        proof {
            lemma_object_view(f@);
        }
        Json::Object(f)
    }
}

impl<'a> Default for ExportAdvancedParams<'a> {
    /// Every field unset.
    fn default() -> (r: Self)
        ensures
            r.configuration is None,
    {
        ExportAdvancedParams {
            configuration: None,
        }
    }
}

/// Mesh tessellation options for typed mesh export request bodies.
#[derive(Clone, Debug, PartialEq)]
pub struct ExportMeshParams<'a> {
    /// Maximum angular deviation between analytical surfaces and triangulation.
    pub angular_tolerance: Option<JsonNumber>,
    /// Maximum distance deviation between analytical surfaces and triangulation.
    pub distance_tolerance: Option<JsonNumber>,
    /// Maximum triangle edge length.
    pub maximum_chord_length: Option<JsonNumber>,
    /// Export resolution, such as `fine`, `medium`, or `coarse`.
    pub resolution: Option<&'a str>,
    /// Export unit, using Onshape's `GBTExportUnit` wire value.
    pub unit: Option<&'a str>,
}

/// The members `ExportMeshParams` is sent with: each present field under its
/// camel-case name, in declaration order.
pub open spec fn export_mesh_params_members(b: ExportMeshParams) -> Seq<(Seq<char>, JsonV)> {
    seq![]
        + number_field("angularTolerance"@, b.angular_tolerance)
        + number_field("distanceTolerance"@, b.distance_tolerance)
        + number_field("maximumChordLength"@, b.maximum_chord_length)
        + str_field("resolution"@, b.resolution)
        + str_field("unit"@, b.unit)
}

impl<'a> ExportMeshParams<'a> {
    /// The members of the JSON object this value is sent as.
    pub fn members(&self) -> (r: Vec<(String, Json)>)
        ensures
            fields_view(r@) == export_mesh_params_members(*self),
    {
        let mut fields: Vec<(String, Json)> = Vec::new();
        assert(fields_view(fields@) =~= seq![]);
        push_number_field(&mut fields, "angularTolerance", &self.angular_tolerance);
        push_number_field(&mut fields, "distanceTolerance", &self.distance_tolerance);
        push_number_field(&mut fields, "maximumChordLength", &self.maximum_chord_length);
        push_str_field(&mut fields, "resolution", self.resolution);
        push_str_field(&mut fields, "unit", self.unit);
        proof {
            assert(fields_view(fields@) =~= export_mesh_params_members(*self));
        }
        fields
    }

    /// The JSON object this value is sent as.
    pub fn to_json(&self) -> (r: Json)
        ensures
            r@ == JsonV::Object(export_mesh_params_members(*self)),
    {
        let f = self.members();
        proof {
            lemma_object_view(f@);
        }
        Json::Object(f)
    }
}

impl<'a> Default for ExportMeshParams<'a> {
    /// Every field unset.
    fn default() -> (r: Self)
        ensures
            r.angular_tolerance is None,
            r.distance_tolerance is None,
            r.maximum_chord_length is None,
            r.resolution is None,
            r.unit is None,
    {
        ExportMeshParams {
            angular_tolerance: None,
            distance_tolerance: None,
            maximum_chord_length: None,
            resolution: None,
            unit: None,
        }
    }
}

/// Typed request body for glTF export endpoints.
#[derive(Clone, Debug, PartialEq)]
pub struct GltfExportRequestBody<'a> {
    /// Advanced export options.
    pub advanced_params: Option<ExportAdvancedParams<'a>>,
    /// The name of the exported file.
    pub destination_name: Option<&'a str>,
    /// Whether to exclude hidden parts from export.
    pub exclude_hidden_entities: Option<bool>,
    /// Whether parts should be exported as a group or individually in a zip.
    pub grouping: Option<bool>,
    /// Whether topology IDs should be exported as attributes.
    pub include_export_ids: Option<bool>,
    /// Rotate model from Z-axis-up orientation to Y-axis-up.
    pub is_y_axis_up: Option<bool>,
    /// Mesh tessellation options.
    pub mesh_params: Option<ExportMeshParams<'a>>,
    /// Send notification to the user client.
    pub notify_user: Option<bool>,
    /// Create a blob with exported file in the source document.
    pub store_in_document: Option<bool>,
    /// Automatically download a translated file.
    pub trigger_auto_download: Option<bool>,
}

/// The members `GltfExportRequestBody` is sent with: each present field under its
/// camel-case name, in declaration order.
pub open spec fn gltf_export_request_body_members(b: GltfExportRequestBody) -> Seq<(Seq<char>, JsonV)> {
    seq![]
        + object_field("advancedParams"@, match b.advanced_params { Some(a) => Some(export_advanced_params_members(a)), None => None })
        + str_field("destinationName"@, b.destination_name)
        + bool_field("excludeHiddenEntities"@, b.exclude_hidden_entities)
        + bool_field("grouping"@, b.grouping)
        + bool_field("includeExportIds"@, b.include_export_ids)
        + bool_field("isYAxisUp"@, b.is_y_axis_up)
        + object_field("meshParams"@, match b.mesh_params { Some(m) => Some(export_mesh_params_members(m)), None => None })
        + bool_field("notifyUser"@, b.notify_user)
        + bool_field("storeInDocument"@, b.store_in_document)
        + bool_field("triggerAutoDownload"@, b.trigger_auto_download)
}

impl<'a> GltfExportRequestBody<'a> {
    /// The members of the JSON object this value is sent as.
    pub fn members(&self) -> (r: Vec<(String, Json)>)
        ensures
            fields_view(r@) == gltf_export_request_body_members(*self),
    {
        let mut fields: Vec<(String, Json)> = Vec::new();
        assert(fields_view(fields@) =~= seq![]);
        let nested = match &self.advanced_params {
            Some(a) => Some(a.members()),
            None => None,
        };
        push_object_field(&mut fields, "advancedParams", nested);
        push_str_field(&mut fields, "destinationName", self.destination_name);
        push_bool_field(&mut fields, "excludeHiddenEntities", self.exclude_hidden_entities);
        push_bool_field(&mut fields, "grouping", self.grouping);
        push_bool_field(&mut fields, "includeExportIds", self.include_export_ids);
        push_bool_field(&mut fields, "isYAxisUp", self.is_y_axis_up);
        let nested = match &self.mesh_params {
            Some(m) => Some(m.members()),
            None => None,
        };
        push_object_field(&mut fields, "meshParams", nested);
        push_bool_field(&mut fields, "notifyUser", self.notify_user);
        push_bool_field(&mut fields, "storeInDocument", self.store_in_document);
        push_bool_field(&mut fields, "triggerAutoDownload", self.trigger_auto_download);
        proof {
            assert(fields_view(fields@) =~= gltf_export_request_body_members(*self));
        }
        fields
    }

    /// The JSON object this value is sent as.
    pub fn to_json(&self) -> (r: Json)
        ensures
            r@ == JsonV::Object(gltf_export_request_body_members(*self)),
    {
        let f = self.members();
        proof {
            lemma_object_view(f@);
        }
        Json::Object(f)
    }
}

impl<'a> Default for GltfExportRequestBody<'a> {
    /// Every field unset.
    fn default() -> (r: Self)
        ensures
            r.advanced_params is None,
            r.destination_name is None,
            r.exclude_hidden_entities is None,
            r.grouping is None,
            r.include_export_ids is None,
            r.is_y_axis_up is None,
            r.mesh_params is None,
            r.notify_user is None,
            r.store_in_document is None,
            r.trigger_auto_download is None,
    {
        GltfExportRequestBody {
            advanced_params: None,
            destination_name: None,
            exclude_hidden_entities: None,
            grouping: None,
            include_export_ids: None,
            is_y_axis_up: None,
            mesh_params: None,
            notify_user: None,
            store_in_document: None,
            trigger_auto_download: None,
        }
    }
}

/// Typed request body for STEP export endpoints.
#[derive(Clone, Debug, PartialEq)]
pub struct StepExportRequestBody<'a> {
    /// Advanced export options.
    pub advanced_params: Option<ExportAdvancedParams<'a>>,
    /// The name of the exported file.
    pub destination_name: Option<&'a str>,
    /// Whether to exclude hidden parts from export.
    pub exclude_hidden_entities: Option<bool>,
    /// Whether parts should be exported as a group or individually in a zip.
    pub grouping: Option<bool>,
    /// Whether topology IDs should be exported as attributes.
    pub include_export_ids: Option<bool>,
    /// Rotate model from Z-axis-up orientation to Y-axis-up.
    pub is_y_axis_up: Option<bool>,
    /// Send notification to the user client.
    pub notify_user: Option<bool>,
    /// Original geometry processing mode before STEP translation.
    pub step_parasolid_preprocessing_option: Option<&'a str>,
    /// Export unit, using Onshape's `GBTExportUnit` wire value.
    pub step_unit: Option<&'a str>,
    /// STEP version string, such as `AP242`, `AP203`, or `AP214`.
    pub step_version_string: Option<&'a str>,
    /// Create a blob with exported file in the source document.
    pub store_in_document: Option<bool>,
    /// Automatically download a translated file.
    pub trigger_auto_download: Option<bool>,
}

/// The members `StepExportRequestBody` is sent with: each present field under its
/// camel-case name, in declaration order.
pub open spec fn step_export_request_body_members(b: StepExportRequestBody) -> Seq<(Seq<char>, JsonV)> {
    seq![]
        + object_field("advancedParams"@, match b.advanced_params { Some(a) => Some(export_advanced_params_members(a)), None => None })
        + str_field("destinationName"@, b.destination_name)
        + bool_field("excludeHiddenEntities"@, b.exclude_hidden_entities)
        + bool_field("grouping"@, b.grouping)
        + bool_field("includeExportIds"@, b.include_export_ids)
        + bool_field("isYAxisUp"@, b.is_y_axis_up)
        + bool_field("notifyUser"@, b.notify_user)
        + str_field("stepParasolidPreprocessingOption"@, b.step_parasolid_preprocessing_option)
        + str_field("stepUnit"@, b.step_unit)
        + str_field("stepVersionString"@, b.step_version_string)
        + bool_field("storeInDocument"@, b.store_in_document)
        + bool_field("triggerAutoDownload"@, b.trigger_auto_download)
}

impl<'a> StepExportRequestBody<'a> {
    /// The members of the JSON object this value is sent as.
    pub fn members(&self) -> (r: Vec<(String, Json)>)
        ensures
            fields_view(r@) == step_export_request_body_members(*self),
    {
        let mut fields: Vec<(String, Json)> = Vec::new();
        assert(fields_view(fields@) =~= seq![]);
        let nested = match &self.advanced_params {
            Some(a) => Some(a.members()),
            None => None,
        };
        push_object_field(&mut fields, "advancedParams", nested);
        push_str_field(&mut fields, "destinationName", self.destination_name);
        push_bool_field(&mut fields, "excludeHiddenEntities", self.exclude_hidden_entities);
        push_bool_field(&mut fields, "grouping", self.grouping);
        push_bool_field(&mut fields, "includeExportIds", self.include_export_ids);
        push_bool_field(&mut fields, "isYAxisUp", self.is_y_axis_up);
        push_bool_field(&mut fields, "notifyUser", self.notify_user);
        push_str_field(&mut fields, "stepParasolidPreprocessingOption", self.step_parasolid_preprocessing_option);
        push_str_field(&mut fields, "stepUnit", self.step_unit);
        push_str_field(&mut fields, "stepVersionString", self.step_version_string);
        push_bool_field(&mut fields, "storeInDocument", self.store_in_document);
        push_bool_field(&mut fields, "triggerAutoDownload", self.trigger_auto_download);
        proof {
            assert(fields_view(fields@) =~= step_export_request_body_members(*self));
        }
        fields
    }

    /// The JSON object this value is sent as.
    pub fn to_json(&self) -> (r: Json)
        ensures
            r@ == JsonV::Object(step_export_request_body_members(*self)),
    {
        let f = self.members();
        proof {
            lemma_object_view(f@);
        }
        Json::Object(f)
    }
}

impl<'a> Default for StepExportRequestBody<'a> {
    /// Every field unset.
    fn default() -> (r: Self)
        ensures
            r.advanced_params is None,
            r.destination_name is None,
            r.exclude_hidden_entities is None,
            r.grouping is None,
            r.include_export_ids is None,
            r.is_y_axis_up is None,
            r.notify_user is None,
            r.step_parasolid_preprocessing_option is None,
            r.step_unit is None,
            r.step_version_string is None,
            r.store_in_document is None,
            r.trigger_auto_download is None,
    {
        StepExportRequestBody {
            advanced_params: None,
            destination_name: None,
            exclude_hidden_entities: None,
            grouping: None,
            include_export_ids: None,
            is_y_axis_up: None,
            notify_user: None,
            step_parasolid_preprocessing_option: None,
            step_unit: None,
            step_version_string: None,
            store_in_document: None,
            trigger_auto_download: None,
        }
    }
}

/// Mesh tessellation options for generic mesh translations; they are sent as members of the translation body itself.
#[derive(Clone, Debug, PartialEq)]
pub struct TranslationMeshParams<'a> {
    /// Maximum angular deviation between analytical surfaces and triangulation.
    pub angular_tolerance: Option<JsonNumber>,
    /// Maximum distance deviation between analytical surfaces and triangulation.
    pub distance_tolerance: Option<JsonNumber>,
    /// Maximum triangle edge length.
    pub maximum_chord_length: Option<JsonNumber>,
    /// Export resolution, such as `fine`, `medium`, or `coarse`.
    pub resolution: Option<&'a str>,
    /// Export unit, using Onshape's `GBTExportUnit` wire value.
    pub unit: Option<&'a str>,
}

/// The members `TranslationMeshParams` is sent with: each present field under its
/// camel-case name, in declaration order.
pub open spec fn translation_mesh_params_members(b: TranslationMeshParams) -> Seq<(Seq<char>, JsonV)> {
    seq![]
        + number_field("angularTolerance"@, b.angular_tolerance)
        + number_field("distanceTolerance"@, b.distance_tolerance)
        + number_field("maximumChordLength"@, b.maximum_chord_length)
        + str_field("resolution"@, b.resolution)
        + str_field("unit"@, b.unit)
}

impl<'a> TranslationMeshParams<'a> {
    /// The members of the JSON object this value is sent as.
    pub fn members(&self) -> (r: Vec<(String, Json)>)
        ensures
            fields_view(r@) == translation_mesh_params_members(*self),
    {
        let mut fields: Vec<(String, Json)> = Vec::new();
        assert(fields_view(fields@) =~= seq![]);
        push_number_field(&mut fields, "angularTolerance", &self.angular_tolerance);
        push_number_field(&mut fields, "distanceTolerance", &self.distance_tolerance);
        push_number_field(&mut fields, "maximumChordLength", &self.maximum_chord_length);
        push_str_field(&mut fields, "resolution", self.resolution);
        push_str_field(&mut fields, "unit", self.unit);
        proof {
            assert(fields_view(fields@) =~= translation_mesh_params_members(*self));
        }
        fields
    }

    /// The JSON object this value is sent as.
    pub fn to_json(&self) -> (r: Json)
        ensures
            r@ == JsonV::Object(translation_mesh_params_members(*self)),
    {
        let f = self.members();
        proof {
            lemma_object_view(f@);
        }
        Json::Object(f)
    }
}

impl<'a> Default for TranslationMeshParams<'a> {
    /// Every field unset.
    fn default() -> (r: Self)
        ensures
            r.angular_tolerance is None,
            r.distance_tolerance is None,
            r.maximum_chord_length is None,
            r.resolution is None,
            r.unit is None,
    {
        TranslationMeshParams {
            angular_tolerance: None,
            distance_tolerance: None,
            maximum_chord_length: None,
            resolution: None,
            unit: None,
        }
    }
}

/// Typed request body for generic mesh translation endpoints, including 3MF.
#[derive(Clone, Debug, PartialEq)]
pub struct MeshTranslationRequestBody<'a> {
    /// The name of the exported file.
    pub destination_name: Option<&'a str>,
    /// Whether to exclude hidden parts from export.
    pub exclude_hidden_entities: Option<bool>,
    /// The name of the file format, such as `3MF`.
    pub format_name: Option<&'a str>,
    /// Mesh tessellation options, sent as members of this body.
    pub mesh_params: TranslationMeshParams<'a>,
    /// Send notification to the user client.
    pub notify_user: Option<bool>,
    /// Create a blob with exported file in the source document.
    pub store_in_document: Option<bool>,
    /// Automatically download a translated file.
    pub trigger_auto_download: Option<bool>,
}

/// The members `MeshTranslationRequestBody` is sent with: each present field under its
/// camel-case name, in declaration order.
pub open spec fn mesh_translation_request_body_members(b: MeshTranslationRequestBody) -> Seq<(Seq<char>, JsonV)> {
    seq![]
        + str_field("destinationName"@, b.destination_name)
        + bool_field("excludeHiddenEntities"@, b.exclude_hidden_entities)
        + str_field("formatName"@, b.format_name)
        + translation_mesh_params_members(b.mesh_params)
        + bool_field("notifyUser"@, b.notify_user)
        + bool_field("storeInDocument"@, b.store_in_document)
        + bool_field("triggerAutoDownload"@, b.trigger_auto_download)
}

impl<'a> MeshTranslationRequestBody<'a> {
    /// The members of the JSON object this value is sent as.
    pub fn members(&self) -> (r: Vec<(String, Json)>)
        ensures
            fields_view(r@) == mesh_translation_request_body_members(*self),
    {
        let mut fields: Vec<(String, Json)> = Vec::new();
        assert(fields_view(fields@) =~= seq![]);
        push_str_field(&mut fields, "destinationName", self.destination_name);
        push_bool_field(&mut fields, "excludeHiddenEntities", self.exclude_hidden_entities);
        push_str_field(&mut fields, "formatName", self.format_name);
        let flat = self.mesh_params.members();
        proof {
            assert(fields_view(fields@ + flat@) =~= fields_view(fields@) + fields_view(flat@));
        }
        let mut flat = flat;
        fields.append(&mut flat);
        push_bool_field(&mut fields, "notifyUser", self.notify_user);
        push_bool_field(&mut fields, "storeInDocument", self.store_in_document);
        push_bool_field(&mut fields, "triggerAutoDownload", self.trigger_auto_download);
        proof {
            assert(fields_view(fields@) =~= mesh_translation_request_body_members(*self));
        }
        fields
    }

    /// The JSON object this value is sent as.
    pub fn to_json(&self) -> (r: Json)
        ensures
            r@ == JsonV::Object(mesh_translation_request_body_members(*self)),
    {
        let f = self.members();
        proof {
            lemma_object_view(f@);
        }
        Json::Object(f)
    }
}

impl<'a> Default for MeshTranslationRequestBody<'a> {
    /// Every field unset.
    fn default() -> (r: Self)
        ensures
            r.destination_name is None,
            r.exclude_hidden_entities is None,
            r.format_name is None,
            r.notify_user is None,
            r.store_in_document is None,
            r.trigger_auto_download is None,
            translation_mesh_params_members(r.mesh_params) == Seq::<(Seq<char>, JsonV)>::empty(),
    {
        MeshTranslationRequestBody {
            destination_name: None,
            exclude_hidden_entities: None,
            format_name: None,
            mesh_params: TranslationMeshParams::default(),
            notify_user: None,
            store_in_document: None,
            trigger_auto_download: None,
        }
    }
}

} // verus!
