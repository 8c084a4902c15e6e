use onshape_core::endpoints::{
    create_assembly_export_gltf, create_assembly_export_step, create_assembly_translation,
    create_part_studio_export_gltf, create_part_studio_export_step,
    create_part_studio_translation, download_external_data, encode_configuration_map,
    encode_path_segment, get_all_translator_formats, get_configuration, get_translation,
    json_post, parse_translation_request_info, ElementRef, EncodeConfigurationMapOptions, Error,
    ExportAdvancedParams, ExportMeshParams, GetConfigurationOptions, GltfExportRequestBody,
    MeshTranslationRequestBody, StepExportRequestBody, TranslationMeshParams,
    TranslationRequestState, WorkspaceVersion, WorkspaceVersionMicroversion, WvmElementRef,
    INFO_SHAPE_MESSAGE, JSON_CONTENT_TYPE,
};
use onshape_core::json::{get, Json, JsonNumber};
use onshape_core::request::{ApiRequest, HttpMethod, RequestBody};

fn to_json(v: &serde_json::Value) -> Json {
    match v {
        serde_json::Value::Null => Json::Null,
        serde_json::Value::Bool(b) => Json::Bool(*b),
        serde_json::Value::Number(n) => {
            if let Some(u) = n.as_u64() {
                Json::Number(JsonNumber::PosInt(u))
            } else if let Some(i) = n.as_i64() {
                Json::Number(JsonNumber::NegInt(i))
            } else {
                Json::Number(JsonNumber::Float(n.to_string()))
            }
        }
        serde_json::Value::String(s) => Json::String(s.clone()),
        serde_json::Value::Array(items) => Json::Array(items.iter().map(to_json).collect()),
        serde_json::Value::Object(map) => Json::Object(
            map.iter()
                .map(|(k, v)| (k.clone(), to_json(v)))
                .collect(),
        ),
    }
}

fn parse(text: &str) -> Json {
    to_json(&serde_json::from_str::<serde_json::Value>(text).expect("test JSON should parse"))
}

fn parsed(text: &str) -> Result<Json, String> {
    serde_json::from_str::<serde_json::Value>(text)
        .map(|v| to_json(&v))
        .map_err(|e| e.to_string())
}

fn target() -> ElementRef<'static> {
    ElementRef::new("doc/1", WorkspaceVersion::version("ver 1"), "elem+1")
}

fn params(format_name: &str) -> Json {
    parse(&format!(
        r#"{{"formatName": "{format_name}", "storeInDocument": false, "destinationName": "export-name"}}"#
    ))
}

fn assert_json_post(request: &ApiRequest, path: &str, format_name: &str) {
    assert_eq!(request.method, HttpMethod::Post);
    assert_eq!(request.path, path);
    assert!(request.query_params.is_empty());
    assert_eq!(request.content_type.as_deref(), Some(JSON_CONTENT_TYPE));

    let body = request
        .body
        .as_ref()
        .and_then(RequestBody::as_json)
        .expect("request should have a JSON body");

    assert_eq!(get(body, "formatName"), Some(&Json::String(format_name.to_string())));
    assert_eq!(get(body, "storeInDocument"), Some(&Json::Bool(false)));
    assert_eq!(get(body, "destinationName"), Some(&Json::String("export-name".to_string())));
}

fn assert_plain_get(request: &ApiRequest, path: &str) {
    assert_eq!(request.method, HttpMethod::Get);
    assert_eq!(request.path, path);
    assert!(request.query_params.is_empty());
    assert!(request.body.is_none());
    assert!(request.content_type.is_none());
}

#[test]
fn encode_path_segment_keeps_unreserved_and_escapes_the_rest() {
    assert_eq!(encode_path_segment("AZaz09-._~"), "AZaz09-._~");
    assert_eq!(encode_path_segment("a b/c+d"), "a%20b%2Fc%2Bd");
    assert_eq!(encode_path_segment("é"), "%C3%A9");
    assert_eq!(encode_path_segment(""), "");
}

#[test]
fn endpoints_create_part_studio_translation_builds_golden_request() {
    let request =
        create_part_studio_translation(target(), params("STL")).expect("request should build");
    assert_json_post(
        &request,
        "/partstudios/d/doc%2F1/v/ver%201/e/elem%2B1/translations",
        "STL",
    );
}

#[test]
fn translations_create_part_studio_translation_builds_golden_request() {
    let request =
        create_part_studio_translation(target(), params("STL")).expect("request should build");
    assert_json_post(
        &request,
        "/partstudios/d/doc%2F1/v/ver%201/e/elem%2B1/translations",
        "STL",
    );
}

#[test]
fn endpoints_create_assembly_translation_builds_golden_request() {
    let request =
        create_assembly_translation(target(), params("3MF")).expect("request should build");
    assert_json_post(
        &request,
        "/assemblies/d/doc%2F1/v/ver%201/e/elem%2B1/translations",
        "3MF",
    );
}

#[test]
fn translations_create_assembly_translation_builds_golden_request() {
    let request =
        create_assembly_translation(target(), params("3MF")).expect("request should build");
    assert_json_post(
        &request,
        "/assemblies/d/doc%2F1/v/ver%201/e/elem%2B1/translations",
        "3MF",
    );
}

#[test]
fn endpoints_create_part_studio_export_gltf_builds_golden_request() {
    let request =
        create_part_studio_export_gltf(target(), params("GLTF")).expect("request should build");
    assert_json_post(
        &request,
        "/partstudios/d/doc%2F1/v/ver%201/e/elem%2B1/export/gltf",
        "GLTF",
    );
}

#[test]
fn exports_create_part_studio_export_gltf_builds_golden_request() {
    let request =
        create_part_studio_export_gltf(target(), params("GLTF")).expect("request should build");
    assert_json_post(
        &request,
        "/partstudios/d/doc%2F1/v/ver%201/e/elem%2B1/export/gltf",
        "GLTF",
    );
}

#[test]
fn endpoints_create_part_studio_export_step_builds_golden_request() {
    let request =
        create_part_studio_export_step(target(), params("STEP")).expect("request should build");
    assert_json_post(
        &request,
        "/partstudios/d/doc%2F1/v/ver%201/e/elem%2B1/export/step",
        "STEP",
    );
}

#[test]
fn exports_create_part_studio_export_step_builds_golden_request() {
    let request =
        create_part_studio_export_step(target(), params("STEP")).expect("request should build");
    assert_json_post(
        &request,
        "/partstudios/d/doc%2F1/v/ver%201/e/elem%2B1/export/step",
        "STEP",
    );
}

#[test]
fn endpoints_create_assembly_export_gltf_builds_golden_request() {
    let request =
        create_assembly_export_gltf(target(), params("GLTF")).expect("request should build");
    assert_json_post(
        &request,
        "/assemblies/d/doc%2F1/v/ver%201/e/elem%2B1/export/gltf",
        "GLTF",
    );
}

#[test]
fn exports_create_assembly_export_gltf_builds_golden_request() {
    let request =
        create_assembly_export_gltf(target(), params("GLTF")).expect("request should build");
    assert_json_post(
        &request,
        "/assemblies/d/doc%2F1/v/ver%201/e/elem%2B1/export/gltf",
        "GLTF",
    );
}

#[test]
fn endpoints_create_assembly_export_step_builds_golden_request() {
    let request =
        create_assembly_export_step(target(), params("STEP")).expect("request should build");
    assert_json_post(
        &request,
        "/assemblies/d/doc%2F1/v/ver%201/e/elem%2B1/export/step",
        "STEP",
    );
}

#[test]
fn exports_create_assembly_export_step_builds_golden_request() {
    let request =
        create_assembly_export_step(target(), params("STEP")).expect("request should build");
    assert_json_post(
        &request,
        "/assemblies/d/doc%2F1/v/ver%201/e/elem%2B1/export/step",
        "STEP",
    );
}

#[test]
fn endpoints_get_translation_builds_golden_request() {
    let request = get_translation("translation/1");
    assert_plain_get(&request, "/translations/translation%2F1");
}

#[test]
fn translations_get_translation_builds_golden_request() {
    let request = get_translation("translation/1");
    assert_plain_get(&request, "/translations/translation%2F1");
}

#[test]
fn endpoints_get_all_translator_formats_builds_golden_request() {
    let request = get_all_translator_formats();
    assert_plain_get(&request, "/translations/translationformats");
}

#[test]
fn translations_get_all_translator_formats_builds_golden_request() {
    let request = get_all_translator_formats();
    assert_plain_get(&request, "/translations/translationformats");
}

#[test]
fn endpoints_download_external_data_builds_golden_request() {
    let request = download_external_data("doc/1", "file name.step");
    assert_plain_get(&request, "/documents/d/doc%2F1/externaldata/file%20name.step");
}

#[test]
fn external_data_download_external_data_builds_golden_request() {
    let request = download_external_data("doc/1", "file name.step");
    assert_plain_get(&request, "/documents/d/doc%2F1/externaldata/file%20name.step");
}

#[test]
fn endpoints_workspace_version_workspace_builds_workspace_path() {
    let target = ElementRef::new("doc", WorkspaceVersion::workspace("workspace"), "element");
    let request =
        create_part_studio_translation(target, params("STEP")).expect("request should build");
    assert_eq!(
        request.path,
        "/partstudios/d/doc/w/workspace/e/element/translations"
    );
}

#[test]
fn translations_workspace_version_workspace_builds_workspace_path() {
    let target = ElementRef::new("doc", WorkspaceVersion::workspace("workspace"), "element");
    let request =
        create_part_studio_translation(target, params("STEP")).expect("request should build");
    assert_eq!(
        request.path,
        "/partstudios/d/doc/w/workspace/e/element/translations"
    );
}

#[test]
fn endpoints_get_configuration_workspace_builds_golden_request_without_query() {
    let target = WvmElementRef::new(
        "doc",
        WorkspaceVersionMicroversion::workspace("workspace"),
        "element",
    );
    let request = get_configuration(target, GetConfigurationOptions::default());
    assert_plain_get(&request, "/elements/d/doc/w/workspace/e/element/configuration");
}

#[test]
fn configuration_get_configuration_workspace_builds_golden_request_without_query() {
    let target = WvmElementRef::new(
        "doc",
        WorkspaceVersionMicroversion::workspace("workspace"),
        "element",
    );
    let request = get_configuration(target, GetConfigurationOptions::default());
    assert_plain_get(&request, "/elements/d/doc/w/workspace/e/element/configuration");
}

#[test]
fn endpoints_get_configuration_version_builds_golden_request_with_query() {
    let target = WvmElementRef::new(
        "doc",
        WorkspaceVersionMicroversion::version("version"),
        "element",
    );
    let request = get_configuration(
        target,
        GetConfigurationOptions {
            link_document_id: Some("linked-doc"),
        },
    );
    assert_eq!(
        request.path,
        "/elements/d/doc/v/version/e/element/configuration"
    );
    assert_eq!(
        request.query_params,
        [("linkDocumentId".to_string(), "linked-doc".to_string())]
    );
}

#[test]
fn configuration_get_configuration_version_builds_golden_request_with_query() {
    let target = WvmElementRef::new(
        "doc",
        WorkspaceVersionMicroversion::version("version"),
        "element",
    );
    let request = get_configuration(
        target,
        GetConfigurationOptions {
            link_document_id: Some("linked-doc"),
        },
    );
    assert_eq!(
        request.path,
        "/elements/d/doc/v/version/e/element/configuration"
    );
    assert_eq!(
        request.query_params,
        [("linkDocumentId".to_string(), "linked-doc".to_string())]
    );
}

#[test]
fn endpoints_get_configuration_microversion_percent_encodes_selector_ids() {
    let target = WvmElementRef::new(
        "doc/1",
        WorkspaceVersionMicroversion::microversion("micro+1"),
        "elem 1",
    );
    let request = get_configuration(target, GetConfigurationOptions::default());
    assert_eq!(
        request.path,
        "/elements/d/doc%2F1/m/micro%2B1/e/elem%201/configuration"
    );
}

#[test]
fn configuration_get_configuration_microversion_percent_encodes_selector_ids() {
    let target = WvmElementRef::new(
        "doc/1",
        WorkspaceVersionMicroversion::microversion("micro+1"),
        "elem 1",
    );
    let request = get_configuration(target, GetConfigurationOptions::default());
    assert_eq!(
        request.path,
        "/elements/d/doc%2F1/m/micro%2B1/e/elem%201/configuration"
    );
}

#[test]
fn endpoints_encode_configuration_map_omits_none_query_params() {
    let request = encode_configuration_map(
        "doc",
        "element",
        EncodeConfigurationMapOptions::default(),
        parse(r#"{ "parameters": [] }"#),
    )
    .expect("request should build");
    assert_eq!(request.method, HttpMethod::Post);
    assert_eq!(
        request.path,
        "/elements/d/doc/e/element/configurationencodings"
    );
    assert!(request.query_params.is_empty());
    assert_eq!(request.content_type.as_deref(), Some(JSON_CONTENT_TYPE));
    assert!(request.body.as_ref().and_then(RequestBody::as_json).is_some());
}

#[test]
fn configuration_encode_configuration_map_omits_none_query_params() {
    let request = encode_configuration_map(
        "doc",
        "element",
        EncodeConfigurationMapOptions::default(),
        parse(r#"{ "parameters": [] }"#),
    )
    .expect("request should build");
    assert_eq!(request.method, HttpMethod::Post);
    assert_eq!(
        request.path,
        "/elements/d/doc/e/element/configurationencodings"
    );
    assert!(request.query_params.is_empty());
    assert_eq!(request.content_type.as_deref(), Some(JSON_CONTENT_TYPE));
    assert!(request.body.as_ref().and_then(RequestBody::as_json).is_some());
}

#[test]
fn endpoints_encode_configuration_map_includes_query_params_in_stable_order() {
    let request = encode_configuration_map(
        "doc/1",
        "elem+1",
        EncodeConfigurationMapOptions {
            version_id: Some("version"),
            link_document_id: Some("linked-doc"),
        },
        parse(r#"{ "parameters": [] }"#),
    )
    .expect("request should build");
    assert_eq!(
        request.path,
        "/elements/d/doc%2F1/e/elem%2B1/configurationencodings"
    );
    assert_eq!(
        request.query_params,
        [
            ("versionId".to_string(), "version".to_string()),
            ("linkDocumentId".to_string(), "linked-doc".to_string()),
        ]
    );
}

#[test]
fn configuration_encode_configuration_map_includes_query_params_in_stable_order() {
    let request = encode_configuration_map(
        "doc/1",
        "elem+1",
        EncodeConfigurationMapOptions {
            version_id: Some("version"),
            link_document_id: Some("linked-doc"),
        },
        parse(r#"{ "parameters": [] }"#),
    )
    .expect("request should build");
    assert_eq!(
        request.path,
        "/elements/d/doc%2F1/e/elem%2B1/configurationencodings"
    );
    assert_eq!(
        request.query_params,
        [
            ("versionId".to_string(), "version".to_string()),
            ("linkDocumentId".to_string(), "linked-doc".to_string()),
        ]
    );
}

#[test]
fn encode_configuration_map_rejects_non_object_body() {
    let result = encode_configuration_map(
        "doc",
        "element",
        EncodeConfigurationMapOptions::default(),
        Json::Array(vec![]),
    );
    assert!(matches!(result, Err(Error::InvalidBodyShape)));
}

#[test]
fn endpoints_json_post_rejects_non_object_bodies() {
    for body in [
        Json::Null,
        parse("[]"),
        parse(r#""not an object""#),
        parse("42"),
        parse("true"),
    ] {
        assert!(matches!(
            json_post("/path".to_string(), body),
            Err(Error::InvalidBodyShape)
        ));
    }
}

#[test]
fn shared_json_post_rejects_non_object_bodies() {
    for body in [
        Json::Null,
        parse("[]"),
        parse(r#""not an object""#),
        parse("42"),
        parse("true"),
    ] {
        assert!(matches!(
            json_post("/path".to_string(), body),
            Err(Error::InvalidBodyShape)
        ));
    }
}

#[test]
fn endpoints_parse_translation_request_info_reads_export_result() {
    let body = r#"{
        "documentId": "doc",
        "id": "translation",
        "requestState": "DONE",
        "resultExternalDataIds": ["external-1"],
        "resultElementIds": ["element-1"]
    }"#;
    let info = parse_translation_request_info(parsed(body)).expect("response should parse");
    assert_eq!(info.document_id.as_deref(), Some("doc"));
    assert_eq!(info.id.as_deref(), Some("translation"));
    assert_eq!(info.request_state, Some(TranslationRequestState::Done));
    assert_eq!(info.external_data_ids(), ["external-1"]);
    assert_eq!(info.element_ids(), ["element-1"]);
}

#[test]
fn translations_parse_translation_request_info_reads_export_result() {
    let body = r#"{
        "documentId": "doc",
        "id": "translation",
        "requestState": "DONE",
        "resultExternalDataIds": ["external-1"],
        "resultElementIds": ["element-1"]
    }"#;
    let info = parse_translation_request_info(parsed(body)).expect("response should parse");
    assert_eq!(info.document_id.as_deref(), Some("doc"));
    assert_eq!(info.id.as_deref(), Some("translation"));
    assert_eq!(info.request_state, Some(TranslationRequestState::Done));
    assert_eq!(info.external_data_ids(), ["external-1"]);
    assert_eq!(info.element_ids(), ["element-1"]);
}

#[test]
fn endpoints_parse_translation_request_info_rejects_invalid_json() {
    assert!(matches!(
        parse_translation_request_info(parsed("not json")),
        Err(Error::ParseResponse(_))
    ));
}

#[test]
fn translations_parse_translation_request_info_rejects_invalid_json() {
    assert!(matches!(
        parse_translation_request_info(parsed("not json")),
        Err(Error::ParseResponse(_))
    ));
}

#[test]
fn endpoints_parse_translation_request_info_preserves_unknown_state() {
    let info = parse_translation_request_info(parsed(r#"{ "requestState": "QUEUED" }"#))
        .expect("response should parse");
    assert_eq!(
        info.request_state,
        Some(TranslationRequestState::Other("QUEUED".to_string()))
    );
    assert_eq!(info.request_state.as_ref().map(|s| s.as_str()), Some("QUEUED"));
}

#[test]
fn translations_parse_translation_request_info_preserves_unknown_state() {
    let info = parse_translation_request_info(parsed(r#"{ "requestState": "QUEUED" }"#))
        .expect("response should parse");
    assert_eq!(
        info.request_state,
        Some(TranslationRequestState::Other("QUEUED".to_string()))
    );
    assert_eq!(info.request_state.as_ref().map(|s| s.as_str()), Some("QUEUED"));
}

#[test]
fn parse_translation_request_info_rejects_wrong_shapes() {
    for body in [
        "[]",
        r#"{"id": 5}"#,
        r#"{"resultElementIds": ["a", 1]}"#,
        r#"{"requestState": true}"#,
    ] {
        match parse_translation_request_info(parsed(body)) {
            Err(Error::ParseResponse(m)) => assert_eq!(m, INFO_SHAPE_MESSAGE),
            other => panic!("unexpected {other:?} for {body}"),
        }
    }
}

#[test]
fn parse_translation_request_info_rejects_duplicate_member() {
    let doc = Json::Object(vec![
        ("id".to_string(), Json::String("a".to_string())),
        ("id".to_string(), Json::String("b".to_string())),
    ]);
    assert!(matches!(
        parse_translation_request_info(Ok(doc)),
        Err(Error::ParseResponse(_))
    ));
}

#[test]
fn parse_translation_request_info_treats_null_as_absent() {
    let info = parse_translation_request_info(parsed(
        r#"{"failureReason": null, "resultElementIds": null, "extra": 1}"#,
    ))
    .expect("response should parse");
    assert_eq!(info.failure_reason, None);
    assert!(info.element_ids().is_empty());
    assert!(info.external_data_ids().is_empty());
}

#[test]
fn translation_state_names_round_trip() {
    for name in ["ACTIVE", "DONE", "FAILED", "QUEUED"] {
        let state = TranslationRequestState::from_wire(name.to_string());
        assert_eq!(state.as_str(), name);
    }
    assert_eq!(
        TranslationRequestState::from_wire("ACTIVE".to_string()),
        TranslationRequestState::Active
    );
    assert_eq!(
        TranslationRequestState::from_wire("FAILED".to_string()),
        TranslationRequestState::Failed
    );
}

fn from_json(j: &Json) -> serde_json::Value {
    match j {
        Json::Null => serde_json::Value::Null,
        Json::Bool(b) => serde_json::Value::Bool(*b),
        Json::Number(JsonNumber::PosInt(u)) => serde_json::Value::from(*u),
        Json::Number(JsonNumber::NegInt(i)) => serde_json::Value::from(*i),
        Json::Number(JsonNumber::Float(t)) => {
            serde_json::from_str(t).expect("number text should parse")
        }
        Json::String(s) => serde_json::Value::String(s.clone()),
        Json::Array(items) => serde_json::Value::Array(items.iter().map(from_json).collect()),
        Json::Object(fields) => serde_json::Value::Object(
            fields
                .iter()
                .map(|(k, v)| (k.clone(), from_json(v)))
                .collect(),
        ),
    }
}

fn number(text: &str) -> Option<JsonNumber> {
    Some(JsonNumber::Float(text.to_string()))
}

fn golden(text: &str) -> serde_json::Value {
    serde_json::from_str(text).expect("golden JSON should parse")
}

fn gltf_body_golden() {
    let body = GltfExportRequestBody {
        advanced_params: Some(ExportAdvancedParams {
            configuration: Some("size%3Dlarge"),
        }),
        destination_name: Some("preview-model"),
        exclude_hidden_entities: Some(true),
        grouping: Some(false),
        include_export_ids: Some(true),
        is_y_axis_up: Some(true),
        mesh_params: Some(ExportMeshParams {
            angular_tolerance: number("0.001"),
            distance_tolerance: number("0.002"),
            maximum_chord_length: number("0.01"),
            resolution: Some("fine"),
            unit: Some("METER"),
        }),
        notify_user: Some(false),
        store_in_document: Some(false),
        trigger_auto_download: Some(false),
    };
    assert_eq!(
        from_json(&body.to_json()),
        golden(
            r#"{
                "advancedParams": { "configuration": "size%3Dlarge" },
                "destinationName": "preview-model",
                "excludeHiddenEntities": true,
                "grouping": false,
                "includeExportIds": true,
                "isYAxisUp": true,
                "meshParams": {
                    "angularTolerance": 0.001,
                    "distanceTolerance": 0.002,
                    "maximumChordLength": 0.01,
                    "resolution": "fine",
                    "unit": "METER"
                },
                "notifyUser": false,
                "storeInDocument": false,
                "triggerAutoDownload": false
            }"#
        )
    );
}

fn step_body_golden() {
    let body = StepExportRequestBody {
        advanced_params: Some(ExportAdvancedParams {
            configuration: Some("size%3Dlarge"),
        }),
        destination_name: Some("step-model"),
        exclude_hidden_entities: Some(true),
        grouping: Some(true),
        include_export_ids: Some(false),
        is_y_axis_up: Some(false),
        notify_user: Some(false),
        step_parasolid_preprocessing_option: Some("NO_PRE_PROCESSING"),
        step_unit: Some("MILLIMETER"),
        step_version_string: Some("AP242"),
        store_in_document: Some(false),
        trigger_auto_download: Some(false),
    };
    assert_eq!(
        from_json(&body.to_json()),
        golden(
            r#"{
                "advancedParams": { "configuration": "size%3Dlarge" },
                "destinationName": "step-model",
                "excludeHiddenEntities": true,
                "grouping": true,
                "includeExportIds": false,
                "isYAxisUp": false,
                "notifyUser": false,
                "stepParasolidPreprocessingOption": "NO_PRE_PROCESSING",
                "stepUnit": "MILLIMETER",
                "stepVersionString": "AP242",
                "storeInDocument": false,
                "triggerAutoDownload": false
            }"#
        )
    );
}

fn unset_export_bodies_are_empty() {
    assert_eq!(from_json(&GltfExportRequestBody::default().to_json()), golden("{}"));
    assert_eq!(from_json(&StepExportRequestBody::default().to_json()), golden("{}"));
}

#[test]
fn endpoints_gltf_export_request_body_serializes_golden_json() {
    gltf_body_golden();
}

#[test]
fn exports_gltf_export_request_body_serializes_golden_json() {
    gltf_body_golden();
}

#[test]
fn endpoints_step_export_request_body_serializes_golden_json() {
    step_body_golden();
}

#[test]
fn exports_step_export_request_body_serializes_golden_json() {
    step_body_golden();
}

#[test]
fn endpoints_typed_export_request_bodies_omit_unset_fields() {
    unset_export_bodies_are_empty();
}

#[test]
fn exports_typed_export_request_bodies_omit_unset_fields() {
    unset_export_bodies_are_empty();
}

#[test]
fn mesh_translation_request_body_serializes_golden_json() {
    let body = MeshTranslationRequestBody {
        destination_name: Some("coarse-model"),
        exclude_hidden_entities: Some(true),
        format_name: Some("3MF"),
        mesh_params: TranslationMeshParams {
            angular_tolerance: number("0.5"),
            distance_tolerance: number("0.01"),
            maximum_chord_length: number("0.1"),
            resolution: Some("coarse"),
            unit: Some("MILLIMETER"),
        },
        notify_user: Some(false),
        store_in_document: Some(false),
        trigger_auto_download: Some(false),
    };
    assert_eq!(
        from_json(&body.to_json()),
        golden(
            r#"{
                "angularTolerance": 0.5,
                "destinationName": "coarse-model",
                "distanceTolerance": 0.01,
                "excludeHiddenEntities": true,
                "formatName": "3MF",
                "maximumChordLength": 0.1,
                "notifyUser": false,
                "resolution": "coarse",
                "storeInDocument": false,
                "triggerAutoDownload": false,
                "unit": "MILLIMETER"
            }"#
        )
    );
}

#[test]
fn typed_mesh_translation_body_omits_unset_fields() {
    assert_eq!(
        from_json(&MeshTranslationRequestBody::default().to_json()),
        golden("{}")
    );
}

#[test]
fn create_part_studio_translation_accepts_typed_mesh_body() {
    let body = MeshTranslationRequestBody {
        destination_name: Some("export-name"),
        format_name: Some("3MF"),
        mesh_params: TranslationMeshParams {
            angular_tolerance: number("0.5"),
            distance_tolerance: number("0.01"),
            maximum_chord_length: number("0.1"),
            resolution: Some("coarse"),
            unit: Some("MILLIMETER"),
        },
        notify_user: Some(false),
        store_in_document: Some(false),
        ..MeshTranslationRequestBody::default()
    };

    let request =
        create_part_studio_translation(target(), body.to_json()).expect("request should build");

    assert_json_post(
        &request,
        "/partstudios/d/doc%2F1/v/ver%201/e/elem%2B1/translations",
        "3MF",
    );
    let body = request
        .body
        .as_ref()
        .and_then(RequestBody::as_json)
        .expect("request should have a JSON body");
    assert_eq!(
        get(body, "angularTolerance").map(from_json),
        Some(golden("0.5"))
    );
    assert_eq!(get(body, "resolution"), Some(&Json::String("coarse".to_string())));
    assert_eq!(get(body, "unit"), Some(&Json::String("MILLIMETER".to_string())));
}
