//! The second half of multi-step tools: what happens once the host has
//! performed an effect and hands back its outcome.
use vstd::prelude::*;
use crate::config::ResolvedAuth;
use crate::encoding::{base64_decoded, base64_standard_decode, utf8_decode_lossy, utf8_lossy};
use crate::json::{Json, get, get_spec, json_string};
use crate::status::{
    AuthStatusResult, ValidationState, ValidationStatus, msg_validated, status_result_spec,
};
use crate::text::{chars_of, decimal, push_all, push_str, string_from, u64_to_decimal};
use crate::time::UtcTime;
use crate::tools::inject::{inject_files_outcome, resume_inject_files};
use crate::tools::responses::{
    api_response_outcome, is_success, lemma_api_response_outcome_model, output_view,
    process_api_response, str_member,
};
use crate::tools::{
    ContentItem, Continuation, FileWrite, FileWriteResult, IoResult, ProtocolError, SideEffect,
    ToolEffect, ToolOutput, is_input_error, single_text, tool_input_error,
};

verus! {

// ---------------------------------------------------------------------------
// Credential validation
// ---------------------------------------------------------------------------

/// Message recorded when the API rejects the credentials.
pub open spec fn msg_rejected() -> Seq<char> {
    "API returned 401 Unauthorized \u{2014} credentials are invalid"@
}

/// Warning added for a validation response that decides nothing.
pub open spec fn unexpected_status_warning(status: u16) -> Seq<char> {
    "Warning: credential validation returned unexpected HTTP "@ + decimal(status as nat)
}

/// What the credential validation response yields: a 2xx response records
/// valid credentials and a 401 invalid ones, each at `now`, and the auth
/// status reflects the new state; any other status records nothing and adds
/// a warning to the configured status.
pub open spec fn auth_validation_outcome(
    status: u16,
    resolved: ResolvedAuth,
    now: UtcTime,
    r: (ToolEffect, Vec<SideEffect>),
) -> bool {
    if is_success(status) || status == 401 {
        let expected = if is_success(status) {
            ValidationStatus::Valid
        } else {
            ValidationStatus::Invalid
        };
        let msg = if is_success(status) {
            msg_validated()
        } else {
            msg_rejected()
        };
        &&& r.1@.len() == 1
        &&& r.1@[0] matches SideEffect::UpdateValidation(st) && {
            &&& st.status == expected
            &&& st.last_check == Some(now)
            &&& st.message matches Some(m) && m@ == msg
            &&& r.0 matches ToolEffect::Done(Ok(out)) && {
                &&& !out.is_error
                &&& out.content@.len() == 1
                &&& out.content@[0] matches ContentItem::AuthStatus(a) && status_result_spec(
                    resolved,
                    Some(&st),
                    now,
                    a,
                )
            }
        }
    } else {
        &&& r.1@.len() == 0
        &&& r.0 matches ToolEffect::Done(Ok(out)) && {
            &&& !out.is_error
            &&& out.content@.len() == 2
            &&& out.content@[0] matches ContentItem::AuthStatus(a) && status_result_spec(
                resolved,
                None,
                now,
                a,
            )
            &&& out.content@[1] matches ContentItem::Text(t) && t@ == unexpected_status_warning(
                status,
            )
        }
    }
}

/// Records the outcome of a credential validation request answered with
/// `status` at `now`.
pub fn resume_auth_validation(status: u16, resolved_auth: &ResolvedAuth, now: UtcTime) -> (r: (
    ToolEffect,
    Vec<SideEffect>,
))
    ensures
        auth_validation_outcome(status, *resolved_auth, now, r),
{
    if 200 <= status && status < 300 || status == 401 {
        let valid = 200 <= status && status < 300;
        let state = if valid {
            ValidationState {
                status: ValidationStatus::Valid,
                last_check: Some(now),
                message: Some("Credentials validated successfully".to_owned()),
            }
        } else {
            ValidationState {
                status: ValidationStatus::Invalid,
                last_check: Some(now),
                message: Some(
                    "API returned 401 Unauthorized \u{2014} credentials are invalid".to_owned(),
                ),
            }
        };
        let result = AuthStatusResult::new(resolved_auth, Some(&state), now);
        let effect = ToolEffect::Done(
            Ok(ToolOutput { is_error: false, content: vec![ContentItem::AuthStatus(result)] }),
        );
        (effect, vec![SideEffect::UpdateValidation(state)])
    } else {
        let result = AuthStatusResult::new(resolved_auth, None, now);
        let mut w = chars_of("Warning: credential validation returned unexpected HTTP ");
        let d = u64_to_decimal(status as u64);
        push_all(&mut w, d.as_slice());
        let warning = string_from(w.as_slice());
        let effect = ToolEffect::Done(
            Ok(
                ToolOutput {
                    is_error: false,
                    content: vec![ContentItem::AuthStatus(result), ContentItem::Text(warning)],
                },
            ),
        );
        (effect, Vec::new())
    }
}

// ---------------------------------------------------------------------------
// Screenshots
// ---------------------------------------------------------------------------

/// Message for a failed rendering request.
pub open spec fn shaded_view_error(status: u16, body: Seq<u8>) -> Seq<char> {
    "Shaded views API error (HTTP "@ + decimal(status as nat) + "): "@ + utf8_lossy(body)
}

/// What the rendering response yields: on success, the first image of the
/// `images` array, Base64-decoded, to be written to `output_path`; each way
/// the response can fail to provide it has its own message.
pub open spec fn screenshot_outcome(
    status: u16,
    body: Seq<u8>,
    parsed: Result<Json, String>,
    output_path: String,
    label: String,
    view_matrix: String,
    r: ToolEffect,
) -> bool {
    if !is_success(status) {
        is_input_error(r, shaded_view_error(status, body))
    } else {
        match parsed {
            Err(e) => is_input_error(r, "failed to parse shaded views response: "@ + e@),
            Ok(v) => match get_spec(v, "images"@) {
                Some(Json::Array(images)) => if images@.len() == 0 {
                    is_input_error(r, "shaded views response returned empty \"images\" array"@)
                } else {
                    match images@[0] {
                        Json::String(b) => match base64_decoded(b@) {
                            Err(m) => is_input_error(r, "failed to decode base64 image: "@ + m),
                            Ok(data) => r matches ToolEffect::WriteFiles {
                                files,
                                continuation: Continuation::FormatScreenshotWrite {
                                    label: l,
                                    view_matrix: vm,
                                },
                            } && {
                                &&& files@.len() == 1
                                &&& files@[0].path == output_path
                                &&& files@[0].data@ == data
                                &&& l == label
                                &&& vm == view_matrix
                            },
                        },
                        _ => is_input_error(r, "first image in response is not a string"@),
                    }
                },
                _ => is_input_error(r, "shaded views response missing \"images\" array"@),
            },
        }
    }
}

/// Extracts the rendered image from the shaded-views response and asks for
/// it to be written to `output_path`.
pub fn resume_screenshot_response(
    status: u16,
    body: &[u8],
    parsed: &Result<Json, String>,
    output_path: String,
    label: String,
    view_matrix: String,
) -> (r: (ToolEffect, Vec<SideEffect>))
    ensures
        screenshot_outcome(status, body@, *parsed, output_path, label, view_matrix, r.0),
        r.1@.len() == 0,
{
    if !(200 <= status && status < 300) {
        let mut m = chars_of("Shaded views API error (HTTP ");
        let d = u64_to_decimal(status as u64);
        push_all(&mut m, d.as_slice());
        push_str(&mut m, "): ");
        let text = utf8_decode_lossy(body);
        push_str(&mut m, text.as_str());
        return (tool_input_error(string_from(m.as_slice())), Vec::new());
    }
    let response = match parsed {
        Ok(v) => v,
        Err(e) => {
            let mut m = chars_of("failed to parse shaded views response: ");
            push_str(&mut m, e.as_str());
            return (tool_input_error(string_from(m.as_slice())), Vec::new());
        },
    };
    let images = match get(response, "images") {
        Some(Json::Array(items)) => items,
        _ => {
            return (
                tool_input_error("shaded views response missing \"images\" array".to_owned()),
                Vec::new(),
            );
        },
    };
    if images.len() == 0 {
        return (
            tool_input_error("shaded views response returned empty \"images\" array".to_owned()),
            Vec::new(),
        );
    }
    let b64 = match &images[0] {
        Json::String(s) => s,
        _ => {
            return (
                tool_input_error("first image in response is not a string".to_owned()),
                Vec::new(),
            );
        },
    };
    let data = match base64_standard_decode(b64.as_str()) {
        Ok(d) => d,
        Err(e) => {
            let mut m = chars_of("failed to decode base64 image: ");
            push_str(&mut m, e.as_str());
            return (tool_input_error(string_from(m.as_slice())), Vec::new());
        },
    };
    let write = FileWrite { path: output_path, data };
    (
        ToolEffect::WriteFiles {
            files: vec![write],
            continuation: Continuation::FormatScreenshotWrite { label, view_matrix },
        },
        Vec::new(),
    )
}

/// The one-line report of a screenshot write.
pub open spec fn screenshot_summary(result: FileWriteResult, label: Seq<char>, view_matrix: Seq<char>) -> Seq<
    char,
> {
    match result {
        FileWriteResult::Success { path } => "Saved screenshot: "@ + path@ + " ("@ + label
            + ", viewMatrix="@ + view_matrix + ")"@,
        FileWriteResult::Error { path, message } => "FAILED to save screenshot: "@ + path@ + " ("@
            + label + ", viewMatrix="@ + view_matrix + ") -- "@ + message@,
    }
}

/// What a screenshot write reports: a JSON record (path, view, view
/// matrix, status and, on failure, the error) and a one-line summary;
/// flagged as an error when the write failed.
pub open spec fn screenshot_report(
    result: FileWriteResult,
    label: Seq<char>,
    view_matrix: Seq<char>,
    out: ToolOutput,
) -> bool {
    let (path, failed) = match result {
        FileWriteResult::Success { path } => (path@, false),
        FileWriteResult::Error { path, .. } => (path@, true),
    };
    &&& out.is_error == failed
    &&& out.content@.len() == 2
    &&& out.content@[0] matches ContentItem::Json(Json::Object(f)) && {
        &&& f@.len() == if failed { 5int } else { 4int }
        &&& str_member(f@[0], "path"@, path)
        &&& str_member(f@[1], "view"@, label)
        &&& str_member(f@[2], "view_matrix"@, view_matrix)
        &&& str_member(f@[3], "status"@, if failed { "error"@ } else { "ok"@ })
        &&& (result matches FileWriteResult::Error { message, .. } ==> str_member(
            f@[4],
            "error"@,
            message@,
        ))
    }
    &&& out.content@[1] matches ContentItem::Text(t) && t@ == screenshot_summary(
        result,
        label,
        view_matrix,
    )
}

/// Reports the outcome of the screenshot write.
pub fn format_screenshot_result(result: &FileWriteResult, label: &str, view_matrix: &str) -> (r:
    ToolOutput)
    ensures
        screenshot_report(*result, label@, view_matrix@, r),
{
    let mut f: Vec<(String, Json)> = Vec::new();
    match result {
        FileWriteResult::Success { path } => {
            f.push(("path".to_owned(), Json::String(path.clone())));
            f.push(("view".to_owned(), json_string(label)));
            f.push(("view_matrix".to_owned(), json_string(view_matrix)));
            f.push(("status".to_owned(), json_string("ok")));
            let mut s = chars_of("Saved screenshot: ");
            push_str(&mut s, path.as_str());
            push_str(&mut s, " (");
            push_str(&mut s, label);
            push_str(&mut s, ", viewMatrix=");
            push_str(&mut s, view_matrix);
            push_str(&mut s, ")");
            assert(s@ =~= screenshot_summary(*result, label@, view_matrix@));
            let summary = string_from(s.as_slice());
            ToolOutput {
                is_error: false,
                content: vec![ContentItem::Json(Json::Object(f)), ContentItem::Text(summary)],
            }
        },
        FileWriteResult::Error { path, message } => {
            f.push(("path".to_owned(), Json::String(path.clone())));
            f.push(("view".to_owned(), json_string(label)));
            f.push(("view_matrix".to_owned(), json_string(view_matrix)));
            f.push(("status".to_owned(), json_string("error")));
            f.push(("error".to_owned(), Json::String(message.clone())));
            let mut s = chars_of("FAILED to save screenshot: ");
            push_str(&mut s, path.as_str());
            push_str(&mut s, " (");
            push_str(&mut s, label);
            push_str(&mut s, ", viewMatrix=");
            push_str(&mut s, view_matrix);
            push_str(&mut s, ") -- ");
            push_str(&mut s, message.as_str());
            assert(s@ =~= screenshot_summary(*result, label@, view_matrix@));
            let summary = string_from(s.as_slice());
            ToolOutput {
                is_error: true,
                content: vec![ContentItem::Json(Json::Object(f)), ContentItem::Text(summary)],
            }
        },
    }
}

// ---------------------------------------------------------------------------
// Dispatch
// ---------------------------------------------------------------------------

/// Whether `io` is the kind of outcome that continuation `c` expects.
pub open spec fn resumable(c: Continuation, io: IoResult) -> bool {
    match c {
        Continuation::FormatScreenshotWrite { .. } => io is FileWriteResults,
        Continuation::InjectFilesIntoRequest { .. } => io is FileReadResults,
        _ => io is ApiResponse,
    }
}

/// What `resume` yields for a continuation and the matching outcome.
pub open spec fn resume_outcome(
    c: Continuation,
    io: IoResult,
    now: UtcTime,
    r: (ToolEffect, Vec<SideEffect>),
) -> bool {
    match c {
        Continuation::FormatApiResponse => match io {
            IoResult::ApiResponse { status, headers, body, json } => r.1@.len() == 0 && (
            r.0 matches ToolEffect::Done(res) && api_response_outcome(
                status,
                headers@,
                body@,
                *json,
                res,
            )),
            _ => false,
        },
        Continuation::ProcessAuthValidation { resolved_auth } => match io {
            IoResult::ApiResponse { status, .. } => auth_validation_outcome(
                status,
                resolved_auth,
                now,
                r,
            ),
            _ => false,
        },
        Continuation::ProcessScreenshotResponse { output_path, label, view_matrix } => match io {
            IoResult::ApiResponse { status, body, json, .. } => r.1@.len() == 0
                && screenshot_outcome(status, body@, *json, output_path, label, view_matrix, r.0),
            _ => false,
        },
        Continuation::FormatScreenshotWrite { label, view_matrix } => match io {
            IoResult::FileWriteResults(results) => r.1@.len() == 0 && if results@.len() == 0 {
                is_input_error(r.0, "internal error: no file write results"@)
            } else {
                r.0 matches ToolEffect::Done(Ok(out)) && screenshot_report(
                    results@[0],
                    label@,
                    view_matrix@,
                    out,
                )
            },
            _ => false,
        },
        Continuation::InjectFilesIntoRequest { request, file_refs } => match io {
            IoResult::FileReadResults(results) => r.1@.len() == 0 && inject_files_outcome(
                request,
                file_refs@,
                results@,
                r.0,
            ),
            _ => false,
        },
    }
}

/// Continues a multi-step tool with the outcome of the effect it asked for;
/// `now` is the time at which the outcome arrived.
pub fn resume(continuation: Continuation, result: IoResult<'_>, now: UtcTime) -> (r: (
    ToolEffect,
    Vec<SideEffect>,
))
    requires
        resumable(continuation, result),
    ensures
        resume_outcome(continuation, result, now, r),
{
    match continuation {
        Continuation::FormatApiResponse => match result {
            IoResult::ApiResponse { status, headers, body, json } => (
                ToolEffect::Done(process_api_response(status, headers, body, json)),
                Vec::new(),
            ),
            _ => (tool_input_error(String::new()), Vec::new()),
        },
        Continuation::ProcessAuthValidation { resolved_auth } => match result {
            IoResult::ApiResponse { status, .. } => resume_auth_validation(
                status,
                &resolved_auth,
                now,
            ),
            _ => (tool_input_error(String::new()), Vec::new()),
        },
        Continuation::ProcessScreenshotResponse { output_path, label, view_matrix } => match result {
            IoResult::ApiResponse { status, body, json, .. } => resume_screenshot_response(
                status,
                body,
                json,
                output_path,
                label,
                view_matrix,
            ),
            _ => (tool_input_error(String::new()), Vec::new()),
        },
        Continuation::FormatScreenshotWrite { label, view_matrix } => match result {
            IoResult::FileWriteResults(results) => {
                if results.len() == 0 {
                    (
                        tool_input_error("internal error: no file write results".to_owned()),
                        Vec::new(),
                    )
                } else {
                    (
                        ToolEffect::Done(
                            Ok(
                                format_screenshot_result(
                                    &results[0],
                                    label.as_str(),
                                    view_matrix.as_str(),
                                ),
                            ),
                        ),
                        Vec::new(),
                    )
                }
            },
            _ => (tool_input_error(String::new()), Vec::new()),
        },
        Continuation::InjectFilesIntoRequest { request, file_refs } => match result {
            IoResult::FileReadResults(results) => (
                resume_inject_files(request, file_refs.as_slice(), results),
                Vec::new(),
            ),
            _ => (tool_input_error(String::new()), Vec::new()),
        },
    }
}

/// Resuming a formatted API response gives what `process_api_response`
/// gives for the same response: a finished tool call, with no side effect,
/// whose output is the same as that function's.
pub proof fn lemma_resume_formats_like_process_api_response(
    io: IoResult,
    now: UtcTime,
    r: (ToolEffect, Vec<SideEffect>),
    p: Result<ToolOutput, ProtocolError>,
)
    requires
        resume_outcome(Continuation::FormatApiResponse, io, now, r),
        io matches IoResult::ApiResponse { status, headers, body, json } && api_response_outcome(
            status,
            headers@,
            body@,
            *json,
            p,
        ),
    ensures
        r.1@.len() == 0,
        r.0 matches ToolEffect::Done(Ok(out)) && p matches Ok(q) && output_view(out) == output_view(q),
{
    if let IoResult::ApiResponse { status, headers, body, json } = io {
        let res = r.0->Done_0;
        lemma_api_response_outcome_model(status, headers@, body@, *json, res);
        lemma_api_response_outcome_model(status, headers@, body@, *json, p);
    }
}

} // verus!
