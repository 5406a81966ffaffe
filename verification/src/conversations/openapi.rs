//! The `OpenAPI` description of the local Conversations endpoints.

use crate::json::{
    array_value, at_pointer, clear_members, insert_member, json_contents,
    lemma_with_path_same, pointer_path, string_value, with_pointer, Json,
};
use serde_json::Value;
use utoipa::openapi::OpenApi;
use vstd::prelude::*;

verus! {

/// The JSON Pointer of a component schema's `object` property.
pub open spec fn object_property_pointer(schema: Seq<char>) -> Seq<char> {
    "/components/schemas/"@ + schema + "/properties/object"@
}

/// The inline form of a one-value string discriminator.
pub open spec fn discriminator(value: Seq<char>) -> Json {
    Json::Object(
        Map::<Seq<char>, Json>::empty().insert("type"@, Json::Text("string"@)).insert(
            "enum"@,
            Json::Array(seq![Json::Text(value)]),
        ).insert("default"@, Json::Text(value)),
    )
}

/// The document with one schema's `object` property in inline form, where that
/// property is there and an object; else the document as it is.
pub open spec fn normalized(document: Json, schema: Seq<char>, value: Seq<char>) -> Json {
    match at_pointer(document, object_property_pointer(schema)) {
        Some(Json::Object(_)) => with_pointer(
            document,
            object_property_pointer(schema),
            discriminator(value),
        ),
        _ => document,
    }
}

/// Normalize generated one-variant enum component refs into OpenAI's inline
/// string enum + default shape.
pub fn normalize_discriminator_property(spec: &mut Value, schema: &str, value: &str)
    ensures
        json_contents(*final(spec)) == normalized(json_contents(*old(spec)), schema@, value@),
{
    let mut pointer = String::from_str("/components/schemas/");
    pointer.append(schema);
    pointer.append("/properties/object");
    assert(pointer@ =~= object_property_pointer(schema@));
    proof {
        if let Some(path) = pointer_path(pointer@) {
            lemma_with_path_same(json_contents(*spec), path);
        }
    }
    match spec.pointer_mut(pointer.as_str()) {
        None => {},
        Some(target) => match target.as_object_mut() {
            None => {},
            Some(property) => {
                let mut choices: Vec<Value> = Vec::new();
                choices.push(string_value(String::from_str(value)));
                assert(choices@.map_values(|item: Value| json_contents(item)) =~= seq![
                    Json::Text(value@),
                ]);
                clear_members(property);
                insert_member(
                    property,
                    String::from_str("type"),
                    string_value(String::from_str("string")),
                );
                insert_member(property, String::from_str("enum"), array_value(choices));
                insert_member(
                    property,
                    String::from_str("default"),
                    string_value(String::from_str(value)),
                );
            },
        },
    }
}

/// `utoipa::openapi::OpenApi`, opaque.
#[verifier::external_type_specification]
#[verifier::external_body]
pub struct ExOpenApi(utoipa::openapi::OpenApi);

/// `serde_json::Error`, opaque.
#[verifier::external_type_specification]
#[verifier::external_body]
pub struct ExJsonError(serde_json::Error);

/// The JSON form of a generated document, if it has one.
pub uninterp spec fn document_json(document: OpenApi) -> Option<Json>;

/// The indented text of a JSON value, if it can be written.
pub uninterp spec fn pretty_text(json: Json) -> Option<Seq<char>>;

/// `serde_json::to_value` on a generated document: its JSON form. What that form
/// is for a given document is left to the name.
#[verifier::external_body]
fn document_value(document: OpenApi) -> (result: Result<Value, serde_json::Error>)
    ensures
        match document_json(document) {
            Some(json) => result matches Ok(value) && json_contents(value) == json,
            None => result is Err,
        },
{
    serde_json::to_value(document)
}

/// `serde_json::to_string_pretty` on a value: its indented text. Layout and
/// escaping are left to the name.
#[verifier::external_body]
fn pretty_string(value: &Value) -> (result: Result<String, serde_json::Error>)
    ensures
        match pretty_text(json_contents(*value)) {
            Some(chars) => result matches Ok(text) && text@ == chars,
            None => result is Err,
        },
{
    serde_json::to_string_pretty(value)
}

/// The document with the discriminators of all resources in inline form.
pub open spec fn implementation_document(document: Json) -> Json {
    normalized(
        normalized(
            normalized(document, "ConversationResource"@, "conversation"@),
            "DeletedConversationResource"@,
            "conversation.deleted"@,
        ),
        "ConversationItemList"@,
        "list"@,
    )
}

/// Normalize the discriminators of all resources.
pub fn normalize_document(spec: &mut Value)
    ensures
        json_contents(*final(spec)) == implementation_document(json_contents(*old(spec))),
{
    normalize_discriminator_property(spec, "ConversationResource", "conversation");
    normalize_discriminator_property(spec, "DeletedConversationResource", "conversation.deleted");
    normalize_discriminator_property(spec, "ConversationItemList", "list");
}

/// Render the JSON form of the generated document as the implementation document.
pub fn render_implementation(spec: Value) -> (result: Result<String, serde_json::Error>)
    ensures
        match pretty_text(implementation_document(json_contents(spec))) {
            Some(chars) => result matches Ok(text) && text@ == chars,
            None => result is Err,
        },
{
    let mut spec = spec;
    normalize_document(&mut spec);
    pretty_string(&spec)
}

/// Generate the local Conversations implementation `OpenAPI` document as pretty
/// JSON.
///
/// # Errors
///
/// Returns an error if the generated `OpenAPI` document cannot be serialized as
/// JSON.
pub fn implementation_openapi_json(document: OpenApi) -> (result: Result<
    String,
    serde_json::Error,
>)
    ensures
        match document_json(document) {
            Some(json) => match pretty_text(implementation_document(json)) {
                Some(chars) => result matches Ok(text) && text@ == chars,
                None => result is Err,
            },
            None => result is Err,
        },
{
    match document_value(document) {
        Ok(spec) => render_implementation(spec),
        Err(error) => Err(error),
    }
}

} // verus!
