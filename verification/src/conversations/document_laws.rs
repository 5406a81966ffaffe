//! What holds of the Conversations document, said of its members.

use crate::conversations::laws::{
    is_plain, law_implementation_discriminators, law_normalized_property,
    lemma_object_property_path, object_property_path,
};
use crate::conversations::openapi::{
    discriminator, implementation_document, normalized, object_property_pointer,
};
use crate::json::{array_position, at_path, at_pointer, child, with_path, Json};
use crate::text::{decimal, law_numeral_denotes_its_number};
use vstd::prelude::*;

verus! {

/// An object with the members `type`, `enum` and `default` and no other, which
/// says: a string, of this one value, which is the default.
pub open spec fn admits_one_value(property: Json, value: Seq<char>) -> bool {
    &&& property matches Json::Object(members)
    &&& forall|name: Seq<char>| #[trigger]
        members.contains_key(name) <==> name == "type"@ || name == "enum"@ || name == "default"@
    &&& members["type"@] == Json::Text("string"@)
    &&& members["default"@] == Json::Text(value)
    &&& members["enum"@] matches Json::Array(choices)
    &&& choices.len() == 1
    &&& choices[0] == Json::Text(value)
}

/// The names of the members of an inline discriminator differ.
proof fn lemma_member_names()
    ensures
        "type"@ != "enum"@,
        "type"@ != "default"@,
        "enum"@ != "default"@,
{
    reveal_strlit("type");
    reveal_strlit("enum");
    reveal_strlit("default");
    assert("type"@[0] == 't');
    assert("enum"@[0] == 'e');
    assert("default"@[0] == 'd');
}

/// An inline discriminator admits its one value.
proof fn lemma_discriminator(value: Seq<char>)
    ensures
        admits_one_value(discriminator(value), value),
{
    lemma_member_names();
}

/// Where a schema's `object` property was an object, the normalized document has
/// there a property that admits the given value and no other, for every document,
/// schema and value.
pub proof fn law_normalized_property_admits_one_value(
    document: Json,
    schema: Seq<char>,
    value: Seq<char>,
)
    requires
        at_pointer(document, object_property_pointer(schema)) matches Some(Json::Object(_)),
    ensures
        at_pointer(
            normalized(document, schema, value),
            object_property_pointer(schema),
        ) matches Some(property) && admits_one_value(property, value),
{
    law_normalized_property(document, schema, value);
    lemma_discriminator(value);
}

/// The document has, nested in objects, an object at
/// `components.schemas.<schema>.properties.object`; these are the members of the
/// objects on the way.
pub open spec fn has_object_property(
    document: Json,
    schema: Seq<char>,
    root: Map<Seq<char>, Json>,
    components: Map<Seq<char>, Json>,
    schemas: Map<Seq<char>, Json>,
    resource: Map<Seq<char>, Json>,
    properties: Map<Seq<char>, Json>,
) -> bool {
    &&& document == Json::Object(root)
    &&& root.contains_key("components"@)
    &&& root["components"@] == Json::Object(components)
    &&& components.contains_key("schemas"@)
    &&& components["schemas"@] == Json::Object(schemas)
    &&& schemas.contains_key(schema)
    &&& schemas[schema] == Json::Object(resource)
    &&& resource.contains_key("properties"@)
    &&& resource["properties"@] == Json::Object(properties)
    &&& properties.contains_key("object"@)
    &&& properties["object"@] is Object
}

/// Normalizing a schema sets the one member
/// `components.schemas.<schema>.properties.object` to a property that admits the
/// given value alone, and keeps all other members of all objects on the way.
pub proof fn law_normalizing_sets_one_member(
    document: Json,
    schema: Seq<char>,
    value: Seq<char>,
    root: Map<Seq<char>, Json>,
    components: Map<Seq<char>, Json>,
    schemas: Map<Seq<char>, Json>,
    resource: Map<Seq<char>, Json>,
    properties: Map<Seq<char>, Json>,
)
    requires
        is_plain(schema),
        has_object_property(document, schema, root, components, schemas, resource, properties),
    ensures
        exists|property: Json| #[trigger]
            admits_one_value(property, value) && normalized(document, schema, value)
                == Json::Object(
                root.insert(
                    "components"@,
                    Json::Object(
                        components.insert(
                            "schemas"@,
                            Json::Object(
                                schemas.insert(
                                    schema,
                                    Json::Object(
                                        resource.insert(
                                            "properties"@,
                                            Json::Object(properties.insert("object"@, property)),
                                        ),
                                    ),
                                ),
                            ),
                        ),
                    ),
                ),
            ),
{
    lemma_object_property_path(schema);
    lemma_discriminator(value);
    let path = object_property_path(schema);
    let new = discriminator(value);
    lemma_path_steps(schema);
    let p1 = path.skip(1);
    let p2 = p1.skip(1);
    let p3 = p2.skip(1);
    let p4 = p3.skip(1);
    let p5 = p4.skip(1);
    assert(p5.len() == 0);
    let object = properties["object"@];
    assert(at_path(object, p5) == Some(object));
    assert(at_path(Json::Object(properties), p4) == Some(object));
    assert(at_path(Json::Object(resource), p3) == Some(object));
    assert(at_path(Json::Object(schemas), p2) == Some(object));
    assert(at_path(Json::Object(components), p1) == Some(object));
    assert(at_path(document, path) == Some(object));
    assert(with_path(object, p5, new) == new);
    assert(with_path(Json::Object(properties), p4, new) == Json::Object(
        properties.insert("object"@, new),
    ));
    assert(with_path(Json::Object(resource), p3, new) == Json::Object(
        resource.insert("properties"@, with_path(Json::Object(properties), p4, new)),
    ));
    assert(with_path(Json::Object(schemas), p2, new) == Json::Object(
        schemas.insert(schema, with_path(Json::Object(resource), p3, new)),
    ));
    assert(with_path(Json::Object(components), p1, new) == Json::Object(
        components.insert("schemas"@, with_path(Json::Object(schemas), p2, new)),
    ));
    assert(with_path(document, path, new) == Json::Object(
        root.insert("components"@, with_path(Json::Object(components), p1, new)),
    ));
    assert(normalized(document, schema, value) == with_path(document, path, new));
}

/// The steps of the path to a schema's `object` property.
proof fn lemma_path_steps(schema: Seq<char>)
    ensures
        ({
            let path = object_property_path(schema);
            &&& path.len() == 5
            &&& path[0] == "components"@
            &&& path.skip(1)[0] == "schemas"@
            &&& path.skip(1).skip(1)[0] == schema
            &&& path.skip(1).skip(1).skip(1)[0] == "properties"@
            &&& path.skip(1).skip(1).skip(1).skip(1)[0] == "object"@
        }),
{
}

/// The member of a member, and so on, as far as objects go.
pub open spec fn nested_member(json: Option<Json>, name: Seq<char>) -> Option<Json> {
    match json {
        Some(Json::Object(members)) => if members.contains_key(name) {
            Some(members[name])
        } else {
            None
        },
        _ => None,
    }
}

/// What stands at `components.schemas.<schema>.properties.object`.
pub open spec fn object_property(document: Json, schema: Seq<char>) -> Option<Json> {
    nested_member(
        nested_member(
            nested_member(
                nested_member(nested_member(Some(document), "components"@), "schemas"@),
                schema,
            ),
            "properties"@,
        ),
        "object"@,
    )
}

/// The text does not begin with a decimal digit.
pub open spec fn begins_with_no_digit(text: Seq<char>) -> bool {
    text.len() > 0 && !('0' <= text[0] <= '9')
}

/// A text that does not begin with a digit is no position in an array.
proof fn lemma_no_position(json: Json, token: Seq<char>)
    requires
        begins_with_no_digit(token),
    ensures
        child(json, token) == nested_member(Some(json), token),
{
    if let Json::Array(items) = json {
        if let Some(i) = array_position(token, items.len()) {
            assert(decimal(i) == token);
            law_numeral_denotes_its_number(i);
            assert('0' <= decimal(i)[0] <= '9');
        }
    }
}

/// The pointer to a schema's `object` property leads where the members lead.
proof fn lemma_pointer_follows_members(document: Json, schema: Seq<char>)
    requires
        is_plain(schema),
        begins_with_no_digit(schema),
    ensures
        at_pointer(document, object_property_pointer(schema)) == object_property(
            document,
            schema,
        ),
{
    lemma_object_property_path(schema);
    lemma_path_steps(schema);
    reveal_strlit("components");
    reveal_strlit("schemas");
    reveal_strlit("properties");
    reveal_strlit("object");
    let path = object_property_path(schema);
    let p1 = path.skip(1);
    let p2 = p1.skip(1);
    let p3 = p2.skip(1);
    let p4 = p3.skip(1);
    assert(p4.skip(1).len() == 0);
    lemma_no_position(document, "components"@);
    if let Some(components) = nested_member(Some(document), "components"@) {
        lemma_no_position(components, "schemas"@);
        if let Some(schemas) = nested_member(Some(components), "schemas"@) {
            lemma_no_position(schemas, schema);
            if let Some(resource) = nested_member(Some(schemas), schema) {
                lemma_no_position(resource, "properties"@);
                if let Some(properties) = nested_member(Some(resource), "properties"@) {
                    lemma_no_position(properties, "object"@);
                    if let Some(object) = nested_member(Some(properties), "object"@) {
                        assert(at_path(object, p4.skip(1)) == Some(object));
                        assert(at_path(properties, p4) == Some(object));
                    } else {
                        assert(at_path(properties, p4) is None);
                    }
                    assert(at_path(resource, p3) == at_path(properties, p4));
                } else {
                    assert(at_path(resource, p3) is None);
                }
                assert(at_path(schemas, p2) == at_path(resource, p3));
            } else {
                assert(at_path(schemas, p2) is None);
            }
            assert(at_path(components, p1) == at_path(schemas, p2));
        } else {
            assert(at_path(components, p1) is None);
        }
        assert(at_path(document, path) == at_path(components, p1));
    } else {
        assert(at_path(document, path) is None);
    }
}

/// A document that has no object at `components.schemas.<schema>.properties.object`
/// is left as it is.
pub proof fn law_normalizing_changes_objects_only(
    document: Json,
    schema: Seq<char>,
    value: Seq<char>,
)
    requires
        is_plain(schema),
        begins_with_no_digit(schema),
        !(object_property(document, schema) matches Some(Json::Object(_))),
    ensures
        normalized(document, schema, value) == document,
{
    lemma_pointer_follows_members(document, schema);
}

/// In the implementation document, the `object` property of each resource that had
/// an object there admits the resource's own type and no other.
pub proof fn law_implementation_resources_admit_one_type(document: Json)
    ensures
        object_property(document, "ConversationResource"@) matches Some(Json::Object(_))
            ==> object_property(
            implementation_document(document),
            "ConversationResource"@,
        ) matches Some(property) && admits_one_value(property, "conversation"@),
        object_property(document, "DeletedConversationResource"@) matches Some(Json::Object(_))
            ==> object_property(
            implementation_document(document),
            "DeletedConversationResource"@,
        ) matches Some(property) && admits_one_value(property, "conversation.deleted"@),
        object_property(document, "ConversationItemList"@) matches Some(Json::Object(_))
            ==> object_property(
            implementation_document(document),
            "ConversationItemList"@,
        ) matches Some(property) && admits_one_value(property, "list"@),
{
    reveal_strlit("ConversationResource");
    reveal_strlit("DeletedConversationResource");
    reveal_strlit("ConversationItemList");
    law_implementation_discriminators(document);
    lemma_discriminator("conversation"@);
    lemma_discriminator("conversation.deleted"@);
    lemma_discriminator("list"@);
    lemma_resource(document, "ConversationResource"@);
    lemma_resource(document, "DeletedConversationResource"@);
    lemma_resource(document, "ConversationItemList"@);
    lemma_resource(implementation_document(document), "ConversationResource"@);
    lemma_resource(implementation_document(document), "DeletedConversationResource"@);
    lemma_resource(implementation_document(document), "ConversationItemList"@);
}

/// The path to a resource's `object` property leads where the members lead.
proof fn lemma_resource(document: Json, schema: Seq<char>)
    requires
        is_plain(schema),
        begins_with_no_digit(schema),
    ensures
        at_path(document, object_property_path(schema)) == object_property(document, schema),
{
    lemma_object_property_path(schema);
    lemma_pointer_follows_members(document, schema);
}

/// A document with none of the three properties is rendered as it is.
pub proof fn law_implementation_keeps_other_documents(document: Json)
    requires
        !(object_property(document, "ConversationResource"@) matches Some(Json::Object(_))),
        !(object_property(document, "DeletedConversationResource"@) matches Some(Json::Object(_))),
        !(object_property(document, "ConversationItemList"@) matches Some(Json::Object(_))),
    ensures
        implementation_document(document) == document,
{
    reveal_strlit("ConversationResource");
    reveal_strlit("DeletedConversationResource");
    reveal_strlit("ConversationItemList");
    law_normalizing_changes_objects_only(document, "ConversationResource"@, "conversation"@);
    law_normalizing_changes_objects_only(
        document,
        "DeletedConversationResource"@,
        "conversation.deleted"@,
    );
    law_normalizing_changes_objects_only(document, "ConversationItemList"@, "list"@);
}

} // verus!
