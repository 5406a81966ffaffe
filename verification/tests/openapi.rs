//! Normalization and rendering of the Conversations document.

use praxis_openai::conversations::openapi::{
    implementation_openapi_json, normalize_discriminator_property, normalize_document,
    render_implementation,
};
use serde_json::Value;
use utoipa::openapi::OpenApi;

fn json(text: &str) -> Value {
    serde_json::from_str(text).unwrap()
}

fn at<'a>(document: &'a Value, schema: &str) -> Option<&'a Value> {
    document.pointer(&format!("/components/schemas/{schema}/properties/object"))
}

const DOCUMENT: &str = r##"{
    "openapi": "3.1.0",
    "info": {"title": "t", "version": "1"},
    "paths": {},
    "components": {"schemas": {
        "ConversationResource": {"type": "object", "properties": {
            "id": {"type": "string"},
            "object": {"$ref": "#/components/schemas/ConversationObject"}}},
        "DeletedConversationResource": {"type": "object", "properties": {
            "object": {"$ref": "#/components/schemas/DeletedConversationObject"}}},
        "ConversationItemList": {"type": "object", "properties": {
            "object": {"$ref": "#/components/schemas/ListObject"}}},
        "Other": {"type": "object", "properties": {
            "object": {"$ref": "#/components/schemas/ListObject"}}}
    }}
}"##;

#[test]
fn property_becomes_an_inline_discriminator() {
    let mut document = json(DOCUMENT);
    normalize_discriminator_property(&mut document, "ConversationResource", "conversation");
    assert_eq!(
        at(&document, "ConversationResource"),
        Some(&json(r#"{"type": "string", "enum": ["conversation"], "default": "conversation"}"#))
    );
    assert_eq!(at(&document, "Other"), at(&json(DOCUMENT), "Other"));
}

#[test]
fn normalizing_again_changes_nothing() {
    let mut document = json(DOCUMENT);
    normalize_document(&mut document);
    let once = document.clone();
    normalize_document(&mut document);
    assert_eq!(document, once);
}

#[test]
fn missing_or_scalar_property_is_left_alone() {
    for text in [
        "{}",
        "null",
        r#"{"components": {"schemas": {}}}"#,
        r#"{"components": {"schemas": {"S": {"properties": {"object": "text"}}}}}"#,
        r#"{"components": {"schemas": {"S": {"properties": {"object": [1, 2]}}}}}"#,
    ] {
        let mut document = json(text);
        normalize_discriminator_property(&mut document, "S", "v");
        assert_eq!(document, json(text));
    }
}

#[test]
fn schema_name_is_read_as_pointer_text() {
    let mut document = json(
        r#"{"components": {"schemas": {"a/b": {"properties": {"object": {}}},
            "list": [{"properties": {"object": {}}}]}}}"#,
    );
    normalize_discriminator_property(&mut document, "a~1b", "v");
    normalize_discriminator_property(&mut document, "list/0", "w");
    assert_eq!(
        document,
        json(
            r#"{"components": {"schemas": {
                "a/b": {"properties": {"object": {"type": "string", "enum": ["v"], "default": "v"}}},
                "list": [{"properties": {"object": {"type": "string", "enum": ["w"], "default": "w"}}}]
            }}}"#
        )
    );
}

#[test]
fn all_resources_are_normalized() {
    let mut document = json(DOCUMENT);
    normalize_document(&mut document);
    for (schema, value) in [
        ("ConversationResource", "conversation"),
        ("DeletedConversationResource", "conversation.deleted"),
        ("ConversationItemList", "list"),
    ] {
        let property = at(&document, schema).unwrap();
        assert_eq!(property["default"], value);
        assert_eq!(property["enum"][0], value);
        assert_eq!(property["type"], "string");
        assert_eq!(property.as_object().unwrap().len(), 3);
    }
    assert_eq!(
        document.pointer("/components/schemas/ConversationResource/properties/id"),
        Some(&json(r#"{"type": "string"}"#))
    );
}

#[test]
fn rendering_indents_the_normalized_document() {
    let text = render_implementation(json(r#"{"b": [], "a": {"c": 1}}"#)).unwrap();
    assert_eq!(text, "{\n  \"a\": {\n    \"c\": 1\n  },\n  \"b\": []\n}");
}

#[test]
fn generated_document_is_rendered_normalized() {
    let document: OpenApi = serde_json::from_str(DOCUMENT).unwrap();
    let text = implementation_openapi_json(document).unwrap();
    let rendered = json(&text);
    assert_eq!(rendered["info"]["title"], "t");
    assert_eq!(
        at(&rendered, "ConversationItemList"),
        Some(&json(r#"{"type": "string", "enum": ["list"], "default": "list"}"#))
    );
    assert_eq!(at(&rendered, "Other"), at(&json(DOCUMENT), "Other"));
}
