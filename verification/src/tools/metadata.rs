//! Names and guidance of the generic Onshape API tools.
use vstd::prelude::*;

verus! {

/// The generic API tools.
#[derive(Clone, Copy, Debug, PartialEq, Eq, Structural)]
pub enum ToolKind {
    /// Endpoint search.
    Search,
    /// Endpoint explanation.
    Explain,
    /// Endpoint invocation.
    Call,
    /// Schema lookup.
    Schema,
}

/// The name, description and input guidance of one API tool.
#[derive(Debug, PartialEq)]
pub struct ToolDefinition {
    /// Which tool this is.
    pub kind: ToolKind,
    /// The name it is listed and dispatched under.
    pub name: &'static str,
    /// What it does.
    pub description: &'static str,
    /// Description of its input schema.
    pub input_description: Option<&'static str>,
    /// Descriptions of input fields, by field name.
    pub field_descriptions: Vec<(&'static str, &'static str)>,
}

/// The name a tool is listed and dispatched under.
pub open spec fn tool_name(kind: ToolKind) -> Seq<char> {
    match kind {
        ToolKind::Search => "onshape_api_search"@,
        ToolKind::Explain => "onshape_api_explain"@,
        ToolKind::Call => "onshape_api_call"@,
        ToolKind::Schema => "onshape_api_schema"@,
    }
}

/// The kinds of the API tools, in listing order.
pub open spec fn tool_kinds() -> Seq<ToolKind> {
    seq![ToolKind::Search, ToolKind::Explain, ToolKind::Call, ToolKind::Schema]
}

/// What each tool says it does.
pub open spec fn tool_description(kind: ToolKind) -> Seq<char> {
    match kind {
        ToolKind::Search => "Find Onshape API endpoints by keyword or filter. Returns brief summaries (endpoint ID, method, path template, one-line description). Use this to discover available endpoints before calling onshape_api_explain for details."@,
        ToolKind::Explain => "Get full details for a specific Onshape API endpoint. Returns parameter schemas, types, required/optional flags, request/response schemas. Use the endpoint's operationId from onshape_api_search results."@,
        ToolKind::Call => "Invoke an Onshape API endpoint. Provide the operationId and structured parameters (path_params, query_params, body). Path parameters are named fields (e.g., {\"did\": \"abc123\"}), not baked into a URL string. For endpoints that accept file content (e.g., file uploads), use `file_refs` to reference local files instead of inlining content in the body — the server reads them directly. Returns the API response."@,
        ToolKind::Schema => "Look up an Onshape API schema by name. Returns the schema's properties (merged with inherited parent properties), discriminator subtypes if polymorphic, and parent type. Use schema names from x-bttype-options annotations in onshape_api_explain results to drill into specific types."@,
    }
}

/// The description of each tool's input schema.
pub open spec fn input_text(kind: ToolKind) -> Seq<char> {
    match kind {
        ToolKind::Search => "Input schema for `onshape_api_search`."@,
        ToolKind::Explain => "Input schema for `onshape_api_explain`."@,
        ToolKind::Call => "Input schema for `onshape_api_call`."@,
        ToolKind::Schema => "Input schema for `onshape_api_schema`."@,
    }
}

/// The documented input fields of each tool, as `(name, description)` pairs in order.
pub open spec fn documented_field_texts(kind: ToolKind) -> Seq<(Seq<char>, Seq<char>)> {
    match kind {
        ToolKind::Search => seq![("tag"@, "Filter by tag name (e.g., \"Document\", \"Assembly\", \"`PartStudio`\")."@)],
        ToolKind::Explain => seq![],
        ToolKind::Call => seq![("path_params"@, "Path parameters (e.g., `{\"did\": \"abc123\", \"wid\": \"def456\"}`)."@), ("query_params"@, "Query parameters (e.g., `{\"q\": \"robot arm\", \"limit\": \"10\"}`)."@), ("body"@, "JSON value for the request body (for POST/PUT/PATCH endpoints).\nLegacy serialized JSON strings are also accepted for compatibility. Use\n`onshape_api_explain` to see the expected schema for each endpoint."@), ("file_refs"@, "File references for fields whose content should be read from disk.\n\nEach reference specifies a file path, a body field name, and an encoding.\nThe server reads the files and injects their content into the request body\nafter building the request. Fields listed here should be omitted from `body`.\n\nExample: to upload a file via `uploadFileCreateElement`, pass the metadata\nfields in `body` and use `file_refs` for the binary content:\n`body: {\"formatName\": \"PARASOLID\"}`,\n`file_refs: [{\"path\": \"/tmp/part.x_t\", \"field\": \"file\", \"encoding\": \"raw_bytes\"}]`"@)],
        ToolKind::Schema => seq![("schema"@, "The schema name to look up (e.g., `\"BTMParameterEnum-145\"` or\n`\"BTFeatureDefinitionCall-1406\"`). Use schema names from\n`x-bttype-options` annotations in `onshape_api_explain` results,\nor from the `subtypes` field in previous `onshape_api_schema` results."@)],
    }
}

/// The field names each tool documents, in order.
pub open spec fn documented_fields(kind: ToolKind) -> Seq<Seq<char>> {
    match kind {
        ToolKind::Search => seq!["tag"@],
        ToolKind::Explain => seq![],
        ToolKind::Call => seq!["path_params"@, "query_params"@, "body"@, "file_refs"@],
        ToolKind::Schema => seq!["schema"@],
    }
}

/// The view of a list of `(name, description)` pairs.
pub open spec fn field_pairs_view(v: Seq<(&'static str, &'static str)>) -> Seq<(Seq<char>, Seq<char>)> {
    v.map_values(|p: (&'static str, &'static str)| (p.0@, p.1@))
}

/// The API tool definitions, one per kind in listing order, each under its
/// name, with its description, its input description and its documented
/// fields.
pub fn api_tools() -> (r: Vec<ToolDefinition>)
    ensures
        r@.len() == 4,
        forall|i: int| 0 <= i < 4 ==> {
            &&& (#[trigger] r@[i]).kind == tool_kinds()[i]
            &&& r@[i].name@ == tool_name(r@[i].kind)
            &&& r@[i].description@ == tool_description(r@[i].kind)
            &&& r@[i].input_description matches Some(t) && t@ == input_text(r@[i].kind)
            &&& field_pairs_view(r@[i].field_descriptions@) == documented_field_texts(r@[i].kind)
            &&& r@[i].field_descriptions@.map_values(|p: (&'static str, &'static str)| p.0@)
                == documented_fields(r@[i].kind)
        },
{
    let mut r: Vec<ToolDefinition> = Vec::new();
    let fields: Vec<(&'static str, &'static str)> = vec![("tag", "Filter by tag name (e.g., \"Document\", \"Assembly\", \"`PartStudio`\").")];
    proof {
        assert(fields@.map_values(|p: (&'static str, &'static str)| p.0@) =~= documented_fields(ToolKind::Search));
        assert(field_pairs_view(fields@) =~= documented_field_texts(ToolKind::Search));
    }
    r.push(
        ToolDefinition {
            kind: ToolKind::Search,
            name: "onshape_api_search",
            description: "Find Onshape API endpoints by keyword or filter. Returns brief summaries (endpoint ID, method, path template, one-line description). Use this to discover available endpoints before calling onshape_api_explain for details.",
            input_description: Some("Input schema for `onshape_api_search`."),
            field_descriptions: fields,
        },
    );
    let fields: Vec<(&'static str, &'static str)> = vec![];
    proof {
        assert(fields@.map_values(|p: (&'static str, &'static str)| p.0@) =~= documented_fields(ToolKind::Explain));
        assert(field_pairs_view(fields@) =~= documented_field_texts(ToolKind::Explain));
    }
    r.push(
        ToolDefinition {
            kind: ToolKind::Explain,
            name: "onshape_api_explain",
            description: "Get full details for a specific Onshape API endpoint. Returns parameter schemas, types, required/optional flags, request/response schemas. Use the endpoint's operationId from onshape_api_search results.",
            input_description: Some("Input schema for `onshape_api_explain`."),
            field_descriptions: fields,
        },
    );
    let fields: Vec<(&'static str, &'static str)> = vec![("path_params", "Path parameters (e.g., `{\"did\": \"abc123\", \"wid\": \"def456\"}`)."),
                ("query_params", "Query parameters (e.g., `{\"q\": \"robot arm\", \"limit\": \"10\"}`)."),
                ("body", "JSON value for the request body (for POST/PUT/PATCH endpoints).\nLegacy serialized JSON strings are also accepted for compatibility. Use\n`onshape_api_explain` to see the expected schema for each endpoint."),
                ("file_refs", "File references for fields whose content should be read from disk.\n\nEach reference specifies a file path, a body field name, and an encoding.\nThe server reads the files and injects their content into the request body\nafter building the request. Fields listed here should be omitted from `body`.\n\nExample: to upload a file via `uploadFileCreateElement`, pass the metadata\nfields in `body` and use `file_refs` for the binary content:\n`body: {\"formatName\": \"PARASOLID\"}`,\n`file_refs: [{\"path\": \"/tmp/part.x_t\", \"field\": \"file\", \"encoding\": \"raw_bytes\"}]`")];
    proof {
        assert(fields@.map_values(|p: (&'static str, &'static str)| p.0@) =~= documented_fields(ToolKind::Call));
        assert(field_pairs_view(fields@) =~= documented_field_texts(ToolKind::Call));
    }
    r.push(
        ToolDefinition {
            kind: ToolKind::Call,
            name: "onshape_api_call",
            description: "Invoke an Onshape API endpoint. Provide the operationId and structured parameters (path_params, query_params, body). Path parameters are named fields (e.g., {\"did\": \"abc123\"}), not baked into a URL string. For endpoints that accept file content (e.g., file uploads), use `file_refs` to reference local files instead of inlining content in the body — the server reads them directly. Returns the API response.",
            input_description: Some("Input schema for `onshape_api_call`."),
            field_descriptions: fields,
        },
    );
    let fields: Vec<(&'static str, &'static str)> = vec![("schema", "The schema name to look up (e.g., `\"BTMParameterEnum-145\"` or\n`\"BTFeatureDefinitionCall-1406\"`). Use schema names from\n`x-bttype-options` annotations in `onshape_api_explain` results,\nor from the `subtypes` field in previous `onshape_api_schema` results.")];
    proof {
        assert(fields@.map_values(|p: (&'static str, &'static str)| p.0@) =~= documented_fields(ToolKind::Schema));
        assert(field_pairs_view(fields@) =~= documented_field_texts(ToolKind::Schema));
    }
    r.push(
        ToolDefinition {
            kind: ToolKind::Schema,
            name: "onshape_api_schema",
            description: "Look up an Onshape API schema by name. Returns the schema's properties (merged with inherited parent properties), discriminator subtypes if polymorphic, and parent type. Use schema names from x-bttype-options annotations in onshape_api_explain results to drill into specific types.",
            input_description: Some("Input schema for `onshape_api_schema`."),
            field_descriptions: fields,
        },
    );
    r
}

/// The tool listed under `name`, if any.
pub fn tool_kind_named(name: &str) -> (r: Option<ToolKind>)
    ensures
        match r {
            Some(k) => tool_name(k) == name@,
            None => forall|k: ToolKind| tool_name(k) != name@,
        },
{
    if crate::text::str_eq(name, "onshape_api_search") {
        Some(ToolKind::Search)
    } else if crate::text::str_eq(name, "onshape_api_explain") {
        Some(ToolKind::Explain)
    } else if crate::text::str_eq(name, "onshape_api_call") {
        Some(ToolKind::Call)
    } else if crate::text::str_eq(name, "onshape_api_schema") {
        Some(ToolKind::Schema)
    } else {
        proof {
            assert forall|k: ToolKind| tool_name(k) != name@ by {
                match k {
                    ToolKind::Search => {},
                    ToolKind::Explain => {},
                    ToolKind::Call => {},
                    ToolKind::Schema => {},
                }
            }
        }
        None
    }
}

/// Different tools are listed under different names, so a name dispatches
/// to at most one tool.
pub proof fn lemma_tool_names_distinct(a: ToolKind, b: ToolKind)
    requires
        a != b,
    ensures
        tool_name(a) != tool_name(b),
{
    reveal_strlit("onshape_api_search");
    reveal_strlit("onshape_api_explain");
    reveal_strlit("onshape_api_call");
    reveal_strlit("onshape_api_schema");
    assert("onshape_api_search"@[12] != "onshape_api_explain"@[12]);
    assert("onshape_api_search"@[12] != "onshape_api_call"@[12]);
    assert("onshape_api_search"@[13] != "onshape_api_schema"@[13]);
    assert("onshape_api_explain"@[12] != "onshape_api_call"@[12]);
    assert("onshape_api_explain"@[12] != "onshape_api_schema"@[12]);
    assert("onshape_api_call"@[12] != "onshape_api_schema"@[12]);
}

} // verus!
