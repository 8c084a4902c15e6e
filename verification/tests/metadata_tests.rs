use onshape_core::tools::metadata::{api_tools, tool_kind_named, ToolKind};

#[test]
fn api_tools_lists_each_kind_once_in_order() {
    let tools = api_tools();
    let kinds: Vec<ToolKind> = tools.iter().map(|t| t.kind).collect();
    assert_eq!(
        kinds,
        vec![ToolKind::Search, ToolKind::Explain, ToolKind::Call, ToolKind::Schema]
    );
    let names: Vec<&str> = tools.iter().map(|t| t.name).collect();
    assert_eq!(
        names,
        vec![
            "onshape_api_search",
            "onshape_api_explain",
            "onshape_api_call",
            "onshape_api_schema"
        ]
    );
}

#[test]
fn api_tools_document_call_fields() {
    let tools = api_tools();
    let call = &tools[2];
    let fields: Vec<&str> = call.field_descriptions.iter().map(|f| f.0).collect();
    assert_eq!(fields, vec!["path_params", "query_params", "body", "file_refs"]);
    assert!(call.description.starts_with("Invoke an Onshape API endpoint."));
    assert_eq!(
        call.input_description,
        Some("Input schema for `onshape_api_call`.")
    );
}

#[test]
fn tool_kind_named_resolves_names() {
    assert_eq!(tool_kind_named("onshape_api_schema"), Some(ToolKind::Schema));
    assert_eq!(tool_kind_named("onshape_api_search"), Some(ToolKind::Search));
    assert_eq!(tool_kind_named("onshape_auth_status"), None);
}
