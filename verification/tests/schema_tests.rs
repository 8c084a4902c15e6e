use onshape_core::json::{Json, JsonNumber};
use onshape_core::openapi::{EndpointDetail, HttpMethod};
use onshape_core::tools::schema::{
    annotate_discriminators, annotate_schema_properties, annotate_single_property,
    present_endpoint,
};

fn to_json(v: &serde_json::Value) -> Json {
    match v {
        serde_json::Value::Null => Json::Null,
        serde_json::Value::Bool(b) => Json::Bool(*b),
        serde_json::Value::Number(n) => {
            if let Some(u) = n.as_u64() {
                Json::Number(JsonNumber::PosInt(u))
            } else if let Some(i) = n.as_i64() {
                Json::Number(JsonNumber::NegInt(i))
            } else {
                Json::Number(JsonNumber::Float(n.to_string()))
            }
        }
        serde_json::Value::String(s) => Json::String(s.clone()),
        serde_json::Value::Array(items) => Json::Array(items.iter().map(to_json).collect()),
        serde_json::Value::Object(map) => Json::Object(
            map.iter()
                .map(|(k, v)| (k.clone(), to_json(v)))
                .collect(),
        ),
    }
}

fn parse(text: &str) -> Json {
    to_json(&serde_json::from_str::<serde_json::Value>(text).expect("test JSON should parse"))
}

fn parsed(text: &str) -> Result<Json, String> {
    serde_json::from_str::<serde_json::Value>(text)
        .map(|v| to_json(&v))
        .map_err(|e| e.to_string())
}

fn table() -> Vec<(String, Vec<String>)> {
    vec![
        (
            "#/components/schemas/Pet".to_string(),
            vec!["cat".to_string(), "dog".to_string()],
        ),
        ("#/components/schemas/Empty".to_string(), vec![]),
    ]
}

#[test]
fn direct_reference_is_annotated() {
    let v = parse(r##"{"$ref": "#/components/schemas/Pet"}"##);
    assert_eq!(
        annotate_single_property(&v, &table()),
        parse(r##"{"$ref": "#/components/schemas/Pet", "x-bttype-options": ["cat", "dog"]}"##)
    );
}

#[test]
fn array_items_reference_is_annotated_on_items() {
    let v = parse(r##"{"type": "array", "items": {"$ref": "#/components/schemas/Pet"}}"##);
    assert_eq!(
        annotate_single_property(&v, &table()),
        parse(r##"{"items": {"$ref": "#/components/schemas/Pet", "x-bttype-options": ["cat", "dog"]}, "type": "array"}"##)
    );
}

#[test]
fn plain_and_unknown_properties_are_unchanged() {
    for text in [
        r##"{"type": "string", "x-example": "retained"}"##,
        r##"{"$ref": "#/components/schemas/Plain"}"##,
        r##"{"type": "object", "properties": {"pet": {"$ref": "#/components/schemas/Pet"}}}"##,
        r##"true"##,
    ] {
        let v = parse(text);
        assert_eq!(annotate_single_property(&v, &table()), v, "{text}");
    }
}

#[test]
fn existing_annotation_is_replaced() {
    let v = parse(r##"{"$ref": "#/components/schemas/Empty", "x-bttype-options": ["stale"]}"##);
    assert_eq!(
        annotate_single_property(&v, &table()),
        parse(r##"{"$ref": "#/components/schemas/Empty", "x-bttype-options": []}"##)
    );
}

#[test]
fn properties_object_is_annotated_member_by_member() {
    let props = parse(r##"{"a": {"$ref": "#/components/schemas/Pet"}, "b": {"type": "integer"}}"##);
    let annotated = annotate_discriminators(&props, &table());
    assert_eq!(
        annotated,
        parse(r##"{"a": {"$ref": "#/components/schemas/Pet", "x-bttype-options": ["cat", "dog"]}, "b": {"type": "integer"}}"##)
    );
    assert_eq!(annotate_discriminators(&Json::Bool(true), &table()), Json::Bool(true));
}

#[test]
fn schema_properties_and_all_of_members_are_annotated() {
    let schema = parse(r##"{
        "properties": {"pet": {"$ref": "#/components/schemas/Pet"}},
        "allOf": [
            {"properties": {"pets": {"items": {"$ref": "#/components/schemas/Pet"}}}},
            {"description": "No properties"},
            true
        ]
    }"##);
    let expected = parse(r##"{
        "allOf": [
            {"properties": {"pets": {"items": {"$ref": "#/components/schemas/Pet", "x-bttype-options": ["cat", "dog"]}}}},
            {"description": "No properties"},
            true
        ],
        "properties": {"pet": {"$ref": "#/components/schemas/Pet", "x-bttype-options": ["cat", "dog"]}}
    }"##);
    assert_eq!(annotate_schema_properties(&schema, &table()), expected);
}

#[test]
fn present_endpoint_annotates_request_and_response_schemas() {
    let mut detail = EndpointDetail {
        operation_id: "createPet".to_string(),
        method: HttpMethod::Post,
        path: "/pets".to_string(),
        description: String::new(),
        tags: vec![],
        parameters: vec![],
        has_request_body: true,
        request_body_schema: Some(parse(r##"{"properties": {"pet": {"$ref": "#/components/schemas/Pet"}}}"##)),
        request_body_content_type: Some("application/json".to_string()),
        response_schema: None,
    };
    present_endpoint(&mut detail, &table());
    assert_eq!(
        detail.request_body_schema,
        Some(parse(r##"{"properties": {"pet": {"$ref": "#/components/schemas/Pet", "x-bttype-options": ["cat", "dog"]}}}"##))
    );
    assert_eq!(detail.response_schema, None);
    assert_eq!(detail.operation_id, "createPet");
}
