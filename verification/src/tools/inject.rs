//! Filling request body fields with file contents after the host has read
//! the files.
//!
//! A JSON body takes the content as a string member (UTF-8 text or Base64);
//! a multipart body takes it as a text or binary field, replacing any field
//! of the same name.
use vstd::prelude::*;
use vstd::utf8::*;
use crate::encoding::{base64_encode, base64_standard_encode, utf8_decode, utf8_error_text};
use crate::endpoints::pairs_view;
use crate::json::{Json, JsonV, fields_view, find_member};
use crate::request::{ApiRequest, BinaryField, MultipartBody, RequestBody};
use crate::text::{chars_eq, chars_of, debug_quoted, debug_str, push_str, string_from};
use crate::tools::paths::{paths_equal, same_path};
use crate::tools::{
    Continuation, FileEncoding, FileReadResult, FileReference, ToolEffect, is_input_error,
    tool_input_error,
};

verus! {

broadcast use vstd::std_specs::vec::group_vec_axioms;

// ---------------------------------------------------------------------------
// Read outcomes
// ---------------------------------------------------------------------------

/// The first failed read, as its path and message.
pub open spec fn first_read_error(results: Seq<FileReadResult>) -> Option<(Seq<char>, Seq<char>)>
    decreases results.len(),
{
    if results.len() == 0 {
        None
    } else {
        match results[0] {
            FileReadResult::Error { path, message } => Some((path@, message@)),
            FileReadResult::Success { .. } => first_read_error(results.drop_first()),
        }
    }
}

/// The contents of the last successful read of `path` (paths compared as
/// std `Path`s).
pub open spec fn read_data(results: Seq<FileReadResult>, path: Seq<char>) -> Option<Seq<u8>>
    decreases results.len(),
{
    if results.len() == 0 {
        None
    } else {
        match results.last() {
            FileReadResult::Success { path: p, data } => if same_path(p@, path) {
                Some(data@)
            } else {
                read_data(results.drop_last(), path)
            },
            FileReadResult::Error { .. } => read_data(results.drop_last(), path),
        }
    }
}

/// Finds the first failed read.
fn find_read_error(results: &[FileReadResult]) -> (r: Option<(&String, &String)>)
    ensures
        match r {
            Some((p, m)) => first_read_error(results@) == Some((p@, m@)),
            None => first_read_error(results@) is None,
        },
{
    let mut i: usize = 0;
    assert(results@.subrange(0, results@.len() as int) =~= results@);
    while i < results.len()
        invariant
            0 <= i <= results@.len(),
            first_read_error(results@) == first_read_error(
                results@.subrange(i as int, results@.len() as int),
            ),
        decreases results@.len() - i,
    {
        let ghost rest = results@.subrange(i as int, results@.len() as int);
        assert(rest.drop_first() =~= results@.subrange(i + 1, results@.len() as int));
        match &results[i] {
            FileReadResult::Error { path, message } => {
                return Some((path, message));
            },
            FileReadResult::Success { .. } => {},
        }
        i = i + 1;
    }
    None
}

/// Finds the contents of the last successful read of `path`.
fn find_read<'a>(results: &'a [FileReadResult], path: &str) -> (r: Option<&'a Vec<u8>>)
    ensures
        match r {
            Some(d) => read_data(results@, path@) == Some(d@),
            None => read_data(results@, path@) is None,
        },
{
    let mut i: usize = results.len();
    assert(results@.subrange(0, results@.len() as int) =~= results@);
    while i > 0
        invariant
            0 <= i <= results@.len(),
            read_data(results@, path@) == read_data(results@.subrange(0, i as int), path@),
        decreases i,
    {
        let ghost pre = results@.subrange(0, i as int);
        assert(pre.drop_last() =~= results@.subrange(0, i - 1));
        match &results[i - 1] {
            FileReadResult::Success { path: p, data } => {
                if paths_equal(p.as_str(), path) {
                    return Some(data);
                }
            },
            FileReadResult::Error { .. } => {},
        }
        i = i - 1;
    }
    None
}

// ---------------------------------------------------------------------------
// Messages
// ---------------------------------------------------------------------------

/// Message for a file reference whose file was not read.
pub open spec fn no_read_message(path: Seq<char>) -> Seq<char> {
    "no read result for file reference: "@ + path
}

/// Message for a file that is not UTF-8 text.
pub open spec fn not_utf8_message(path: Seq<char>, data: Seq<u8>) -> Seq<char> {
    "file "@ + path + " is not valid UTF-8: "@ + utf8_error_text(data)
}

/// Message for raw bytes aimed at a JSON body.
pub open spec fn raw_bytes_json_message(field: Seq<char>) -> Seq<char> {
    "file_ref for field "@ + debug_quoted(field)
        + " uses raw_bytes encoding, which cannot be used with JSON request bodies. Use text_utf8 or base64 instead."@
}

// ---------------------------------------------------------------------------
// JSON bodies
// ---------------------------------------------------------------------------

/// `fields` with member `key` set to `v`: the first member of that name is
/// replaced, or the member is appended.
pub open spec fn upsert(fields: Seq<(Seq<char>, JsonV)>, key: Seq<char>, v: JsonV) -> Seq<
    (Seq<char>, JsonV),
>
    decreases fields.len(),
{
    if fields.len() == 0 {
        seq![(key, v)]
    } else if fields[0].0 == key {
        seq![(key, v)] + fields.drop_first()
    } else {
        seq![fields[0]] + upsert(fields.drop_first(), key, v)
    }
}

/// One file reference applied to the members of a JSON body.
pub open spec fn json_injection(
    fields: Seq<(Seq<char>, JsonV)>,
    fr: FileReference,
    results: Seq<FileReadResult>,
) -> Result<Seq<(Seq<char>, JsonV)>, Seq<char>> {
    match read_data(results, fr.path@) {
        None => Err(no_read_message(fr.path@)),
        Some(data) => match fr.encoding {
            FileEncoding::TextUtf8 => if valid_utf8(data) {
                Ok(upsert(fields, fr.field@, JsonV::Str(decode_utf8(data))))
            } else {
                Err(not_utf8_message(fr.path@, data))
            },
            FileEncoding::Base64 => Ok(upsert(fields, fr.field@, JsonV::Str(base64_encode(data)))),
            FileEncoding::RawBytes => Err(raw_bytes_json_message(fr.field@)),
        },
    }
}

/// The file references applied in order to the members of a JSON body; the
/// first failure stops.
pub open spec fn json_injections(
    fields: Seq<(Seq<char>, JsonV)>,
    refs: Seq<FileReference>,
    results: Seq<FileReadResult>,
) -> Result<Seq<(Seq<char>, JsonV)>, Seq<char>>
    decreases refs.len(),
{
    if refs.len() == 0 {
        Ok(fields)
    } else {
        match json_injections(fields, refs.drop_last(), results) {
            Ok(f) => json_injection(f, refs.last(), results),
            Err(e) => Err(e),
        }
    }
}

/// Filling a field of a JSON body: afterwards the field holds the new value,
/// and every other field holds what it held before.
pub proof fn lemma_upsert_lookup(
    fields: Seq<(Seq<char>, JsonV)>,
    key: Seq<char>,
    v: JsonV,
    other: Seq<char>,
)
    ensures
        crate::tools::onshape::memberv(upsert(fields, key, v), key) == Some(v),
        other != key ==> crate::tools::onshape::memberv(upsert(fields, key, v), other)
            == crate::tools::onshape::memberv(fields, other),
    decreases fields.len(),
{
    let u = upsert(fields, key, v);
    if fields.len() > 0 && fields[0].0 != key {
        lemma_upsert_lookup(fields.drop_first(), key, v, other);
        assert(u == seq![fields[0]] + upsert(fields.drop_first(), key, v));
        assert(u.drop_first() =~= upsert(fields.drop_first(), key, v));
        assert(u[0] == fields[0]);
        if other != key && fields[0].0 != other {
            assert(crate::tools::onshape::memberv(u, other) == crate::tools::onshape::memberv(
                u.drop_first(),
                other,
            ));
        }
    } else if fields.len() > 0 {
        assert(u == seq![(key, v)] + fields.drop_first());
        assert(u.drop_first() =~= fields.drop_first());
        assert(u[0] == (key, v));
    } else {
        assert(u =~= seq![(key, v)]);
        assert(u.drop_first() =~= Seq::<(Seq<char>, JsonV)>::empty());
    }
}

proof fn lemma_upsert_at(fields: Seq<(Seq<char>, JsonV)>, key: Seq<char>, v: JsonV, i: int)
    requires
        0 <= i < fields.len(),
        fields[i].0 == key,
        forall|k: int| 0 <= k < i ==> fields[k].0 != key,
    ensures
        upsert(fields, key, v) == fields.update(i, (key, v)),
    decreases i,
{
    if i == 0 {
        assert(seq![(key, v)] + fields.drop_first() =~= fields.update(0, (key, v)));
    } else {
        lemma_upsert_at(fields.drop_first(), key, v, i - 1);
        assert(seq![fields[0]] + fields.drop_first().update(i - 1, (key, v)) =~= fields.update(
            i,
            (key, v),
        ));
    }
}

proof fn lemma_upsert_absent(fields: Seq<(Seq<char>, JsonV)>, key: Seq<char>, v: JsonV)
    requires
        forall|k: int| 0 <= k < fields.len() ==> fields[k].0 != key,
    ensures
        upsert(fields, key, v) == fields.push((key, v)),
    decreases fields.len(),
{
    if fields.len() > 0 {
        lemma_upsert_absent(fields.drop_first(), key, v);
        assert(seq![fields[0]] + fields.drop_first().push((key, v)) =~= fields.push((key, v)));
    } else {
        assert(seq![(key, v)] =~= fields.push((key, v)));
    }
}

/// Sets the member `key` of a JSON object's members to `value`: replaces
/// the first member named `key`, or appends one.
pub(crate) fn upsert_member(fields: &mut Vec<(String, Json)>, key: &str, value: Json)
    ensures
        fields_view(final(fields)@) == upsert(fields_view(old(fields)@), key@, value@),
{
    let k = chars_of(key);
    let ghost old_view = fields_view(fields@);
    let ghost v = value@;
    let entry = (key.to_owned(), value);
    match find_member(fields, k.as_slice()) {
        Some(i) => {
            proof {
                assert forall|m: int| 0 <= m < i implies old_view[m].0 != key@ by {
                    assert(old_view[m].0 == fields@[m].0@);
                }
                lemma_upsert_at(old_view, key@, v, i as int);
            }
            fields.set(i, entry);
            assert(fields_view(fields@) =~= old_view.update(i as int, (key@, v)));
        },
        None => {
            proof {
                assert forall|m: int| 0 <= m < old_view.len() implies old_view[m].0 != key@ by {
                    assert(old_view[m].0 == fields@[m].0@);
                }
                lemma_upsert_absent(old_view, key@, v);
            }
            fields.push(entry);
            assert(fields_view(fields@) =~= old_view.push((key@, v)));
        },
    }
}

/// Sets the string member `key` of a JSON body to `text`.
pub(crate) fn upsert_string(fields: &mut Vec<(String, Json)>, key: &String, text: String)
    ensures
        fields_view(final(fields)@) == upsert(fields_view(old(fields)@), key@, JsonV::Str(text@)),
{
    let k = chars_of(key.as_str());
    let ghost old_view = fields_view(fields@);
    let entry = (key.clone(), Json::String(text));
    assert(entry.1@ == JsonV::Str(text@));
    match find_member(fields, k.as_slice()) {
        Some(i) => {
            proof {
                assert forall|m: int| 0 <= m < i implies old_view[m].0 != key@ by {
                    assert(old_view[m].0 == fields@[m].0@);
                }
                lemma_upsert_at(old_view, key@, JsonV::Str(text@), i as int);
            }
            fields.set(i, entry);
            assert(fields_view(fields@) =~= old_view.update(i as int, (key@, JsonV::Str(text@))));
        },
        None => {
            proof {
                assert forall|m: int| 0 <= m < old_view.len() implies old_view[m].0 != key@ by {
                    assert(old_view[m].0 == fields@[m].0@);
                }
                lemma_upsert_absent(old_view, key@, JsonV::Str(text@));
            }
            fields.push(entry);
            assert(fields_view(fields@) =~= old_view.push((key@, JsonV::Str(text@))));
        },
    }
}

/// Applies one file reference to the members of a JSON body.
pub fn inject_into_json_field(
    fields: &mut Vec<(String, Json)>,
    file_ref: &FileReference,
    results: &[FileReadResult],
) -> (r: Result<(), String>)
    ensures
        match json_injection(fields_view(old(fields)@), *file_ref, results@) {
            Ok(f) => r is Ok && fields_view(final(fields)@) == f,
            Err(m) => r matches Err(x) && x@ == m,
        },
{
    let data = match find_read(results, file_ref.path.as_str()) {
        Some(d) => d,
        None => {
            let mut m = chars_of("no read result for file reference: ");
            push_str(&mut m, file_ref.path.as_str());
            return Err(string_from(m.as_slice()));
        },
    };
    match file_ref.encoding {
        FileEncoding::TextUtf8 => {
            match utf8_decode(data.as_slice()) {
                Ok(text) => {
                    upsert_string(fields, &file_ref.field, text.to_owned());
                    Ok(())
                },
                Err(e) => {
                    let mut m = chars_of("file ");
                    push_str(&mut m, file_ref.path.as_str());
                    push_str(&mut m, " is not valid UTF-8: ");
                    push_str(&mut m, e.1.as_str());
                    Err(string_from(m.as_slice()))
                },
            }
        },
        FileEncoding::Base64 => {
            let encoded = base64_standard_encode(data.as_slice());
            upsert_string(fields, &file_ref.field, encoded);
            Ok(())
        },
        FileEncoding::RawBytes => {
            let mut m = chars_of("file_ref for field ");
            let q = debug_str(file_ref.field.as_str());
            push_str(&mut m, q.as_str());
            push_str(
                &mut m,
                " uses raw_bytes encoding, which cannot be used with JSON request bodies. Use text_utf8 or base64 instead.",
            );
            Err(string_from(m.as_slice()))
        },
    }
}

// ---------------------------------------------------------------------------
// Multipart bodies
// ---------------------------------------------------------------------------

/// The model of a binary form field: name, bytes, content type.
pub open spec fn binary_view(b: BinaryField) -> (Seq<char>, Seq<u8>, Option<Seq<char>>) {
    (
        b.field_name@,
        b.data@,
        match b.content_type {
            Some(t) => Some(t@),
            None => None,
        },
    )
}

/// The models of binary form fields.
pub open spec fn binaries_view(v: Seq<BinaryField>) -> Seq<(Seq<char>, Seq<u8>, Option<Seq<char>>)> {
    v.map_values(|b: BinaryField| binary_view(b))
}

/// The model of a multipart body: its text fields and its binary fields.
pub open spec fn multipart_view(m: MultipartBody) -> (
    Seq<(Seq<char>, Seq<char>)>,
    Seq<(Seq<char>, Seq<u8>, Option<Seq<char>>)>,
) {
    (pairs_view(m.text_fields@), binaries_view(m.binary_fields@))
}

/// Text fields other than those named `name`, in order.
pub open spec fn without_text(ts: Seq<(Seq<char>, Seq<char>)>, name: Seq<char>) -> Seq<
    (Seq<char>, Seq<char>),
>
    decreases ts.len(),
{
    if ts.len() == 0 {
        ts
    } else if ts.last().0 == name {
        without_text(ts.drop_last(), name)
    } else {
        without_text(ts.drop_last(), name).push(ts.last())
    }
}

/// Binary fields other than those named `name`, in order.
pub open spec fn without_binary(
    bs: Seq<(Seq<char>, Seq<u8>, Option<Seq<char>>)>,
    name: Seq<char>,
) -> Seq<(Seq<char>, Seq<u8>, Option<Seq<char>>)>
    decreases bs.len(),
{
    if bs.len() == 0 {
        bs
    } else if bs.last().0 == name {
        without_binary(bs.drop_last(), name)
    } else {
        without_binary(bs.drop_last(), name).push(bs.last())
    }
}

/// One file reference applied to a multipart body: fields of the same name
/// are dropped, then the content is appended as a binary field (raw bytes)
/// or a text field (UTF-8 text or Base64).
pub open spec fn multipart_injection(
    m: (Seq<(Seq<char>, Seq<char>)>, Seq<(Seq<char>, Seq<u8>, Option<Seq<char>>)>),
    fr: FileReference,
    results: Seq<FileReadResult>,
) -> Result<
    (Seq<(Seq<char>, Seq<char>)>, Seq<(Seq<char>, Seq<u8>, Option<Seq<char>>)>),
    Seq<char>,
> {
    match read_data(results, fr.path@) {
        None => Err(no_read_message(fr.path@)),
        Some(data) => {
            let ts = without_text(m.0, fr.field@);
            let bs = without_binary(m.1, fr.field@);
            match fr.encoding {
                FileEncoding::RawBytes => Ok((ts, bs.push((fr.field@, data, None)))),
                FileEncoding::TextUtf8 => if valid_utf8(data) {
                    Ok((ts.push((fr.field@, decode_utf8(data))), bs))
                } else {
                    Err(not_utf8_message(fr.path@, data))
                },
                FileEncoding::Base64 => Ok((ts.push((fr.field@, base64_encode(data))), bs)),
            }
        },
    }
}

/// The file references applied in order to a multipart body; the first
/// failure stops.
pub open spec fn multipart_injections(
    m: (Seq<(Seq<char>, Seq<char>)>, Seq<(Seq<char>, Seq<u8>, Option<Seq<char>>)>),
    refs: Seq<FileReference>,
    results: Seq<FileReadResult>,
) -> Result<
    (Seq<(Seq<char>, Seq<char>)>, Seq<(Seq<char>, Seq<u8>, Option<Seq<char>>)>),
    Seq<char>,
>
    decreases refs.len(),
{
    if refs.len() == 0 {
        Ok(m)
    } else {
        match multipart_injections(m, refs.drop_last(), results) {
            Ok(x) => multipart_injection(x, refs.last(), results),
            Err(e) => Err(e),
        }
    }
}

/// Drops the text fields named `name`.
fn retain_text(fields: &mut Vec<(String, String)>, name: &String)
    ensures
        pairs_view(final(fields)@) == without_text(pairs_view(old(fields)@), name@),
{
    let n = chars_of(name.as_str());
    let ghost orig = fields@;
    let mut out: Vec<(String, String)> = Vec::new();
    let mut i: usize = 0;
    let len = fields.len();
    assert(pairs_view(orig.subrange(0, 0)) =~= Seq::<(Seq<char>, Seq<char>)>::empty());
    while i < len
        invariant
            0 <= i <= len,
            len == orig.len(),
            n@ == name@,
            fields@ =~= orig.subrange(i as int, len as int),
            pairs_view(out@) == without_text(pairs_view(orig.subrange(0, i as int)), name@),
        decreases len - i,
    {
        let x = fields.remove(0);
        proof {
            assert(pairs_view(orig.subrange(0, i + 1)).drop_last() =~= pairs_view(
                orig.subrange(0, i as int),
            ));
            assert(pairs_view(orig.subrange(0, i + 1)).last() == (x.0@, x.1@));
        }
        let xn = chars_of(x.0.as_str());
        if !chars_eq(xn.as_slice(), n.as_slice()) {
            let ghost before = out@;
            out.push(x);
            assert(pairs_view(out@) =~= pairs_view(before).push((x.0@, x.1@)));
        }
        i = i + 1;
    }
    assert(orig.subrange(0, len as int) =~= orig);
    *fields = out;
}

/// Drops the binary fields named `name`.
fn retain_binary(fields: &mut Vec<BinaryField>, name: &String)
    ensures
        binaries_view(final(fields)@) == without_binary(binaries_view(old(fields)@), name@),
{
    let n = chars_of(name.as_str());
    let ghost orig = fields@;
    let mut out: Vec<BinaryField> = Vec::new();
    let mut i: usize = 0;
    let len = fields.len();
    assert(binaries_view(orig.subrange(0, 0)) =~= Seq::<(Seq<char>, Seq<u8>, Option<Seq<char>>)>::empty());
    while i < len
        invariant
            0 <= i <= len,
            len == orig.len(),
            n@ == name@,
            fields@ =~= orig.subrange(i as int, len as int),
            binaries_view(out@) == without_binary(binaries_view(orig.subrange(0, i as int)), name@),
        decreases len - i,
    {
        let x = fields.remove(0);
        proof {
            assert(binaries_view(orig.subrange(0, i + 1)).drop_last() =~= binaries_view(
                orig.subrange(0, i as int),
            ));
            assert(binaries_view(orig.subrange(0, i + 1)).last() == binary_view(x));
        }
        let xn = chars_of(x.field_name.as_str());
        if !chars_eq(xn.as_slice(), n.as_slice()) {
            let ghost before = out@;
            out.push(x);
            assert(binaries_view(out@) =~= binaries_view(before).push(binary_view(x)));
        }
        i = i + 1;
    }
    assert(orig.subrange(0, len as int) =~= orig);
    *fields = out;
}

/// Copies a byte vector.
fn copy_bytes(v: &Vec<u8>) -> (r: Vec<u8>)
    ensures
        r@ == v@,
{
    let mut r: Vec<u8> = Vec::new();
    let mut i: usize = 0;
    while i < v.len()
        invariant
            0 <= i <= v@.len(),
            r@ =~= v@.subrange(0, i as int),
        decreases v@.len() - i,
    {
        r.push(v[i]);
        i = i + 1;
    }
    r
}

/// Applies one file reference to a multipart body.
pub fn inject_into_multipart_field(
    multipart: &mut MultipartBody,
    file_ref: &FileReference,
    results: &[FileReadResult],
) -> (r: Result<(), String>)
    ensures
        match multipart_injection(multipart_view(*old(multipart)), *file_ref, results@) {
            Ok(m) => r is Ok && multipart_view(*final(multipart)) == m,
            Err(m) => r matches Err(x) && x@ == m,
        },
{
    let data = match find_read(results, file_ref.path.as_str()) {
        Some(d) => d,
        None => {
            let mut m = chars_of("no read result for file reference: ");
            push_str(&mut m, file_ref.path.as_str());
            return Err(string_from(m.as_slice()));
        },
    };
    retain_text(&mut multipart.text_fields, &file_ref.field);
    retain_binary(&mut multipart.binary_fields, &file_ref.field);
    let ghost ts = pairs_view(multipart.text_fields@);
    let ghost bs = binaries_view(multipart.binary_fields@);
    match file_ref.encoding {
        FileEncoding::RawBytes => {
            let b = BinaryField {
                field_name: file_ref.field.clone(),
                data: copy_bytes(data),
                content_type: None,
            };
            multipart.binary_fields.push(b);
            assert(binaries_view(multipart.binary_fields@) =~= bs.push((file_ref.field@, data@, None)));
            Ok(())
        },
        FileEncoding::TextUtf8 => {
            match utf8_decode(data.as_slice()) {
                Ok(text) => {
                    multipart.text_fields.push((file_ref.field.clone(), text.to_owned()));
                    assert(pairs_view(multipart.text_fields@) =~= ts.push(
                        (file_ref.field@, decode_utf8(data@)),
                    ));
                    Ok(())
                },
                Err(e) => {
                    let mut m = chars_of("file ");
                    push_str(&mut m, file_ref.path.as_str());
                    push_str(&mut m, " is not valid UTF-8: ");
                    push_str(&mut m, e.1.as_str());
                    Err(string_from(m.as_slice()))
                },
            }
        },
        FileEncoding::Base64 => {
            let encoded = base64_standard_encode(data.as_slice());
            multipart.text_fields.push((file_ref.field.clone(), encoded));
            assert(pairs_view(multipart.text_fields@) =~= ts.push(
                (file_ref.field@, base64_encode(data@)),
            ));
            Ok(())
        },
    }
}

// ---------------------------------------------------------------------------
// The injection step
// ---------------------------------------------------------------------------

/// Whether `q` is `request` with possibly another body.
pub open spec fn same_but_body(q: ApiRequest, request: ApiRequest) -> bool {
    &&& q.method == request.method
    &&& q.path == request.path
    &&& q.query_params == request.query_params
    &&& q.headers == request.headers
    &&& q.content_type == request.content_type
}

/// Message for file references on an endpoint without a body.
pub open spec fn no_body_message() -> Seq<char> {
    "file_refs provided but the endpoint has no request body"@
}

/// Message for file references on a JSON body that is not an object.
pub open spec fn not_object_message() -> Seq<char> {
    "file_refs require the request body to be a JSON object"@
}

/// What `resume_inject_files` yields: a failed read is reported first;
/// then the file contents fill the body, and the request goes out.
pub open spec fn inject_files_outcome(
    request: ApiRequest,
    refs: Seq<FileReference>,
    results: Seq<FileReadResult>,
    r: ToolEffect,
) -> bool {
    match first_read_error(results) {
        Some(e) => is_input_error(r, "failed to read file "@ + e.0 + ": "@ + e.1),
        None => match request.body {
            None => is_input_error(r, no_body_message()),
            Some(RequestBody::Json(Json::Object(f))) => match json_injections(fields_view(f@), refs, results) {
                Err(m) => is_input_error(r, m),
                Ok(nf) => r matches ToolEffect::ApiRequest {
                    request: q,
                    continuation: Continuation::FormatApiResponse,
                } && same_but_body(q, request) && (q.body matches Some(
                    RequestBody::Json(Json::Object(g)),
                ) && fields_view(g@) == nf),
            },
            Some(RequestBody::Json(_)) => is_input_error(r, not_object_message()),
            Some(RequestBody::Multipart(mp)) => match multipart_injections(multipart_view(mp), refs, results) {
                Err(m) => is_input_error(r, m),
                Ok(nm) => r matches ToolEffect::ApiRequest {
                    request: q,
                    continuation: Continuation::FormatApiResponse,
                } && same_but_body(q, request) && (q.body matches Some(RequestBody::Multipart(m2))
                    && multipart_view(m2) == nm),
            },
        },
    }
}

/// Puts the contents of the files that were read into the request body and
/// sends the request on; a failed read, a missing or non-object body, or a
/// failed injection is reported to the caller instead.
pub fn resume_inject_files(
    request: ApiRequest,
    file_refs: &[FileReference],
    results: &[FileReadResult],
) -> (r: ToolEffect)
    ensures
        inject_files_outcome(request, file_refs@, results@, r),
{
    if let Some((path, message)) = find_read_error(results) {
        let mut m = chars_of("failed to read file ");
        push_str(&mut m, path.as_str());
        push_str(&mut m, ": ");
        push_str(&mut m, message.as_str());
        return tool_input_error(string_from(m.as_slice()));
    }
    let ApiRequest { method, path, query_params, headers, body, content_type } = request;
    let new_body = match body {
        None => {
            return tool_input_error(
                "file_refs provided but the endpoint has no request body".to_owned(),
            );
        },
        Some(RequestBody::Json(value)) => {
            let mut fields = match value {
                Json::Object(f) => f,
                _ => {
                    return tool_input_error(
                        "file_refs require the request body to be a JSON object".to_owned(),
                    );
                },
            };
            match inject_all_json(&mut fields, file_refs, results) {
                Ok(()) => {},
                Err(e) => {
                    return tool_input_error(e);
                },
            }
            RequestBody::Json(Json::Object(fields))
        },
        Some(RequestBody::Multipart(mut multipart)) => {
            match inject_all_multipart(&mut multipart, file_refs, results) {
                Ok(()) => {},
                Err(e) => {
                    return tool_input_error(e);
                },
            }
            RequestBody::Multipart(multipart)
        },
    };
    ToolEffect::ApiRequest {
        request: ApiRequest { method, path, query_params, headers, body: Some(new_body), content_type },
        continuation: Continuation::FormatApiResponse,
    }
}

/// Applies the file references in order to the members of a JSON body.
fn inject_all_json(
    fields: &mut Vec<(String, Json)>,
    file_refs: &[FileReference],
    results: &[FileReadResult],
) -> (r: Result<(), String>)
    ensures
        match json_injections(fields_view(old(fields)@), file_refs@, results@) {
            Ok(f) => r is Ok && fields_view(final(fields)@) == f,
            Err(m) => r matches Err(x) && x@ == m,
        },
{
    let ghost start = fields_view(fields@);
    let mut i: usize = 0;
    assert(file_refs@.subrange(0, 0) =~= Seq::<FileReference>::empty());
    while i < file_refs.len()
        invariant
            0 <= i <= file_refs@.len(),
            start == fields_view(old(fields)@),
            json_injections(start, file_refs@.subrange(0, i as int), results@) == Ok::<
                Seq<(Seq<char>, JsonV)>,
                Seq<char>,
            >(fields_view(fields@)),
        decreases file_refs@.len() - i,
    {
        proof {
            assert(file_refs@.subrange(0, i + 1).drop_last() =~= file_refs@.subrange(0, i as int));
            assert(file_refs@.subrange(0, i + 1).last() == file_refs@[i as int]);
        }
        match inject_into_json_field(fields, &file_refs[i], results) {
            Ok(()) => {},
            Err(e) => {
                proof {
                    lemma_json_injections_stop(start, file_refs@, results@, i + 1);
                }
                return Err(e);
            },
        }
        i = i + 1;
    }
    assert(file_refs@.subrange(0, file_refs@.len() as int) =~= file_refs@);
    Ok(())
}

/// Applies the file references in order to a multipart body.
fn inject_all_multipart(
    multipart: &mut MultipartBody,
    file_refs: &[FileReference],
    results: &[FileReadResult],
) -> (r: Result<(), String>)
    ensures
        match multipart_injections(multipart_view(*old(multipart)), file_refs@, results@) {
            Ok(m) => r is Ok && multipart_view(*final(multipart)) == m,
            Err(m) => r matches Err(x) && x@ == m,
        },
{
    let ghost start = multipart_view(*multipart);
    let mut i: usize = 0;
    assert(file_refs@.subrange(0, 0) =~= Seq::<FileReference>::empty());
    while i < file_refs.len()
        invariant
            0 <= i <= file_refs@.len(),
            start == multipart_view(*old(multipart)),
            multipart_injections(start, file_refs@.subrange(0, i as int), results@) == Ok::<
                (Seq<(Seq<char>, Seq<char>)>, Seq<(Seq<char>, Seq<u8>, Option<Seq<char>>)>),
                Seq<char>,
            >(multipart_view(*multipart)),
        decreases file_refs@.len() - i,
    {
        proof {
            assert(file_refs@.subrange(0, i + 1).drop_last() =~= file_refs@.subrange(0, i as int));
            assert(file_refs@.subrange(0, i + 1).last() == file_refs@[i as int]);
        }
        match inject_into_multipart_field(multipart, &file_refs[i], results) {
            Ok(()) => {},
            Err(e) => {
                proof {
                    lemma_multipart_injections_stop(start, file_refs@, results@, i + 1);
                }
                return Err(e);
            },
        }
        i = i + 1;
    }
    assert(file_refs@.subrange(0, file_refs@.len() as int) =~= file_refs@);
    Ok(())
}

/// Once an injection fails, the whole sequence fails with that message.
proof fn lemma_json_injections_stop(
    fields: Seq<(Seq<char>, JsonV)>,
    refs: Seq<FileReference>,
    results: Seq<FileReadResult>,
    k: int,
)
    requires
        0 < k <= refs.len(),
        json_injections(fields, refs.subrange(0, k), results) is Err,
    ensures
        json_injections(fields, refs, results) == json_injections(
            fields,
            refs.subrange(0, k),
            results,
        ),
    decreases refs.len() - k,
{
    if k < refs.len() {
        assert(refs.subrange(0, k + 1).drop_last() =~= refs.subrange(0, k));
        lemma_json_injections_stop(fields, refs, results, k + 1);
    } else {
        assert(refs.subrange(0, k) =~= refs);
    }
}

/// Once an injection fails, the whole sequence fails with that message.
proof fn lemma_multipart_injections_stop(
    m: (Seq<(Seq<char>, Seq<char>)>, Seq<(Seq<char>, Seq<u8>, Option<Seq<char>>)>),
    refs: Seq<FileReference>,
    results: Seq<FileReadResult>,
    k: int,
)
    requires
        0 < k <= refs.len(),
        multipart_injections(m, refs.subrange(0, k), results) is Err,
    ensures
        multipart_injections(m, refs, results) == multipart_injections(
            m,
            refs.subrange(0, k),
            results,
        ),
    decreases refs.len() - k,
{
    if k < refs.len() {
        assert(refs.subrange(0, k + 1).drop_last() =~= refs.subrange(0, k));
        lemma_multipart_injections_stop(m, refs, results, k + 1);
    } else {
        assert(refs.subrange(0, k) =~= refs);
    }
}

} // verus!
