//! The MCP tool layer: tool dispatch and the effects it asks the host to
//! perform, as plain data.
//!
//! A tool call either completes at once or yields an effect (an API request,
//! file reads or writes, an OAuth login flow) together with a continuation.
//! The host performs the effect and hands the outcome back to `resume`, which
//! yields the next effect. Nothing here performs I/O.
use vstd::prelude::*;
use crate::config::ResolvedAuth;
use crate::json::Json;
use crate::request::ApiRequest;
use crate::status::{AuthStatusResult, ValidationState};
use crate::openapi::{EndpointDetail, EndpointSummary};

pub mod paths;
pub mod responses;
pub mod inject;
pub mod resume;
pub mod onshape;
pub mod api;
pub mod dispatch;
pub mod metadata;
pub mod schema;

verus! {

// ---------------------------------------------------------------------------
// Tool results
// ---------------------------------------------------------------------------

/// One content item of a tool result.
#[derive(Debug, PartialEq)]
pub enum ContentItem {
    /// Plain text.
    Text(String),
    /// A JSON value, sent as its serialization.
    Json(Json),
    /// An authentication status report, sent as its JSON serialization.
    AuthStatus(AuthStatusResult),
    /// Endpoint search results, sent as their JSON serialization.
    Endpoints(Vec<EndpointSummary>),
    /// An endpoint explanation, sent as its JSON serialization.
    Endpoint(EndpointDetail),
}

/// The result of a tool call that ran: its content, flagged as an error
/// when the tool failed in a way the caller should see.
#[derive(Debug, PartialEq)]
pub struct ToolOutput {
    /// Whether the tool reports a failure.
    pub is_error: bool,
    /// The content items, in order.
    pub content: Vec<ContentItem>,
}

/// A protocol-level error: the request could not be served at all.
#[derive(Debug, PartialEq)]
pub struct ProtocolError {
    /// JSON-RPC error code.
    pub code: i32,
    /// Description of the error.
    pub message: String,
}

/// JSON-RPC code for an unknown method or tool.
pub const METHOD_NOT_FOUND: i32 = -32601;

/// JSON-RPC code for invalid parameters.
pub const INVALID_PARAMS: i32 = -32602;

/// JSON-RPC code for an internal error.
pub const INTERNAL_ERROR: i32 = -32603;

// ---------------------------------------------------------------------------
// File effects
// ---------------------------------------------------------------------------

/// A file for the host to write.
#[derive(Debug, PartialEq)]
pub struct FileWrite {
    /// Target path.
    pub path: String,
    /// Contents.
    pub data: Vec<u8>,
}

/// The outcome of one file write.
#[derive(Debug, PartialEq)]
pub enum FileWriteResult {
    /// The file was written.
    Success {
        /// The path written.
        path: String,
    },
    /// The write failed.
    Error {
        /// The path attempted.
        path: String,
        /// What went wrong.
        message: String,
    },
}

/// A file for the host to read.
#[derive(Debug, PartialEq)]
pub struct FileRead {
    /// Path to read.
    pub path: String,
}

/// The outcome of one file read.
#[derive(Debug, PartialEq)]
pub enum FileReadResult {
    /// The file was read.
    Success {
        /// The path read.
        path: String,
        /// Its contents.
        data: Vec<u8>,
    },
    /// The read failed.
    Error {
        /// The path attempted.
        path: String,
        /// What went wrong.
        message: String,
    },
}

/// How file content is encoded into a request body field.
#[derive(Clone, Copy, Debug, PartialEq, Eq, Structural)]
pub enum FileEncoding {
    /// The file as UTF-8 text.
    TextUtf8,
    /// The file's bytes, Base64-encoded.
    Base64,
    /// The file's raw bytes (multipart bodies only).
    RawBytes,
}

/// A file whose content fills a request body field.
#[derive(Debug, PartialEq)]
pub struct FileReference {
    /// Path of the file.
    pub path: String,
    /// The body field to fill: a top-level key of a JSON body, or a form
    /// field of a multipart body.
    pub field: String,
    /// How to encode the content.
    pub encoding: FileEncoding,
}

// ---------------------------------------------------------------------------
// Effects and continuations
// ---------------------------------------------------------------------------

/// Side effects for the host to apply after a step.
#[derive(Debug, PartialEq)]
pub enum SideEffect {
    /// Replace the runtime credential validation state.
    UpdateValidation(ValidationState),
}

/// How the OAuth login flow runs.
#[derive(Debug, PartialEq)]
pub enum LoginMode {
    /// Exchange tokens through the OAuth proxy at `proxy_url`.
    Proxy {
        /// Base URL of the proxy.
        proxy_url: String,
    },
    /// Exchange tokens directly with the client credentials.
    Direct {
        /// OAuth client ID.
        client_id: String,
        /// OAuth client secret.
        client_secret: String,
    },
}

/// What the host does after a step.
#[derive(Debug, PartialEq)]
pub enum Continuation {
    /// Format the API response as the tool result.
    FormatApiResponse,
    /// Turn the credential validation response into an auth status.
    ProcessAuthValidation {
        /// The credential configuration when validation was requested.
        resolved_auth: ResolvedAuth,
    },
    /// Decode the rendered image and ask for it to be written.
    ProcessScreenshotResponse {
        /// Where to write the image.
        output_path: String,
        /// Human-readable view label.
        label: String,
        /// The view matrix sent with the request.
        view_matrix: String,
    },
    /// Report the outcome of the screenshot write.
    FormatScreenshotWrite {
        /// Human-readable view label.
        label: String,
        /// The view matrix sent with the request.
        view_matrix: String,
    },
    /// Put file contents into the prepared request and send it.
    InjectFilesIntoRequest {
        /// The request, without the file-supplied fields.
        request: ApiRequest,
        /// Which fields the files fill.
        file_refs: Vec<FileReference>,
    },
}

/// The outcome of a tool step.
#[derive(Debug, PartialEq)]
pub enum ToolEffect {
    /// The tool completed.
    Done(Result<ToolOutput, ProtocolError>),
    /// Send this API request, then continue.
    ApiRequest {
        /// The request.
        request: ApiRequest,
        /// What to do with the response.
        continuation: Continuation,
    },
    /// Run the OAuth login flow.
    OAuthLoginFlow {
        /// The login mode.
        mode: LoginMode,
    },
    /// Write these files, then continue.
    WriteFiles {
        /// The files.
        files: Vec<FileWrite>,
        /// What to do with the outcomes.
        continuation: Continuation,
    },
    /// Read these files, then continue.
    ReadFiles {
        /// The files.
        reads: Vec<FileRead>,
        /// What to do with the outcomes.
        continuation: Continuation,
    },
}

/// What the host hands back after performing an effect.
#[derive(Debug, PartialEq)]
pub enum IoResult<'a> {
    /// An API response.
    ApiResponse {
        /// HTTP status code.
        status: u16,
        /// Response headers as `(name, value)` pairs.
        headers: &'a [(String, String)],
        /// Raw body bytes.
        body: &'a [u8],
        /// The body parsed as JSON, or the parser's message.
        json: &'a Result<Json, String>,
    },
    /// The outcomes of file writes, in order.
    FileWriteResults(&'a [FileWriteResult]),
    /// The outcomes of file reads, in order.
    FileReadResults(&'a [FileReadResult]),
}

/// Whether `out` is a single text item `t`, flagged as an error or not.
pub open spec fn single_text(out: ToolOutput, is_error: bool, t: Seq<char>) -> bool {
    &&& out.is_error == is_error
    &&& out.content@.len() == 1
    &&& out.content@[0] matches ContentItem::Text(x) && x@ == t
}

/// Whether `e` reports the input error `msg` to the caller.
pub open spec fn is_input_error(e: ToolEffect, msg: Seq<char>) -> bool {
    e matches ToolEffect::Done(Ok(out)) && single_text(out, true, msg)
}

/// A tool result reporting the input error `message`: the tool ran and
/// failed in a way the caller can act on.
pub fn tool_input_error(message: String) -> (r: ToolEffect)
    ensures
        is_input_error(r, message@),
{
    ToolEffect::Done(Ok(ToolOutput { is_error: true, content: vec![ContentItem::Text(message)] }))
}

/// A successful tool result with the given content.
pub fn success(content: Vec<ContentItem>) -> (r: ToolOutput)
    ensures
        !r.is_error,
        r.content == content,
{
    ToolOutput { is_error: false, content }
}

/// A failed tool result with the given content.
pub fn failure(content: Vec<ContentItem>) -> (r: ToolOutput)
    ensures
        r.is_error,
        r.content == content,
{
    ToolOutput { is_error: true, content }
}

} // verus!
