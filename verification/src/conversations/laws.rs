//! What holds of the normalized Conversations document.

use crate::conversations::openapi::{
    discriminator, implementation_document, normalized, object_property_pointer,
};
use crate::json::{
    array_position, at_path, at_pointer, between_slashes, child, lemma_at_path_with_path,
    lemma_with_path_twice, pointer_path, unescaped, with_child, with_path, Json,
};
use vstd::prelude::*;

verus! {

/// Normalizing a schema puts the inline form where an object was, and nowhere
/// else: without such an object the document stays as it is.
pub proof fn law_normalized_property(document: Json, schema: Seq<char>, value: Seq<char>)
    ensures
        match at_pointer(document, object_property_pointer(schema)) {
            Some(Json::Object(_)) => at_pointer(
                normalized(document, schema, value),
                object_property_pointer(schema),
            ) == Some(discriminator(value)),
            _ => normalized(document, schema, value) == document,
        },
{
    if let Some(path) = pointer_path(object_property_pointer(schema)) {
        if at_path(document, path) is Some {
            lemma_at_path_with_path(document, path, discriminator(value));
        }
    }
}

/// Normalizing a schema again changes nothing.
pub proof fn law_normalizing_is_idempotent(document: Json, schema: Seq<char>, value: Seq<char>)
    ensures
        normalized(normalized(document, schema, value), schema, value) == normalized(
            document,
            schema,
            value,
        ),
{
    law_normalized_property(document, schema, value);
    if let Some(path) = pointer_path(object_property_pointer(schema)) {
        if at_path(document, path) is Some {
            lemma_with_path_twice(document, path, discriminator(value), discriminator(value));
        }
    }
}

/// The name is one reference token of a JSON Pointer as it stands.
pub open spec fn is_plain(name: Seq<char>) -> bool {
    forall|i: int| 0 <= i < name.len() ==> name[i] != '/' && name[i] != '~'
}

/// The path of a schema's `object` property.
pub open spec fn object_property_path(schema: Seq<char>) -> Seq<Seq<char>> {
    seq!["components"@, "schemas"@, schema, "properties"@, "object"@]
}

/// The two paths share a beginning and then part.
pub open spec fn part_ways(a: Seq<Seq<char>>, b: Seq<Seq<char>>) -> bool {
    exists|k: int| parts_at(a, b, k)
}

/// The two paths agree before position `k` and differ there.
pub open spec fn parts_at(a: Seq<Seq<char>>, b: Seq<Seq<char>>, k: int) -> bool {
    &&& 0 <= k < a.len()
    &&& k < b.len()
    &&& a[k] != b[k]
    &&& forall|i: int| 0 <= i < k ==> a[i] == b[i]
}

/// The pieces of a text that ends in a slash and a name without slashes.
proof fn lemma_between_slashes_push(text: Seq<char>, name: Seq<char>)
    requires
        is_plain(name),
    ensures
        between_slashes(text.push('/') + name) == between_slashes(text).push(name),
    decreases name.len(),
{
    let whole = text.push('/') + name;
    if name.len() == 0 {
        assert(whole =~= text.push('/'));
        assert(text.push('/').drop_last() =~= text);
        assert(name =~= Seq::empty());
    } else {
        let shorter = name.drop_last();
        assert forall|i: int| 0 <= i < shorter.len() implies shorter[i] != '/' && shorter[i]
            != '~' by {
            assert(shorter[i] == name[i]);
        }
        lemma_between_slashes_push(text, shorter);
        assert(whole.drop_last() =~= text.push('/') + shorter);
        assert(whole.last() == name.last());
        let pieces = between_slashes(text).push(shorter);
        assert(pieces.drop_last() =~= between_slashes(text));
        assert(shorter.push(name.last()) =~= name);
        assert(name[name.len() - 1] != '/');
    }
}

/// A plain name reads as itself.
proof fn lemma_plain_unescaped(name: Seq<char>)
    requires
        is_plain(name),
    ensures
        unescaped(name) == name,
    decreases name.len(),
{
    if name.len() > 0 {
        let rest = name.skip(1);
        assert(name[0] != '~');
        assert forall|i: int| 0 <= i < rest.len() implies rest[i] != '/' && rest[i] != '~' by {
            assert(rest[i] == name[i + 1]);
        }
        lemma_plain_unescaped(rest);
        assert(seq![name[0]] + rest =~= name);
    } else {
        assert(name =~= Seq::empty());
    }
}

/// The pointer of a schema's `object` property spells the property's path.
pub proof fn lemma_object_property_path(schema: Seq<char>)
    requires
        is_plain(schema),
    ensures
        pointer_path(object_property_pointer(schema)) == Some(object_property_path(schema)),
{
    reveal_strlit("/components/schemas/");
    reveal_strlit("/properties/object");
    reveal_strlit("components");
    reveal_strlit("schemas");
    reveal_strlit("properties");
    reveal_strlit("object");
    let components = "components"@;
    let schemas = "schemas"@;
    let properties = "properties"@;
    let object = "object"@;
    let empty = Seq::<char>::empty();
    let one = empty.push('/') + components;
    let two = one.push('/') + schemas;
    let three = two.push('/') + schema;
    let four = three.push('/') + properties;
    let five = four.push('/') + object;
    lemma_between_slashes_push(empty, components);
    lemma_between_slashes_push(one, schemas);
    lemma_between_slashes_push(two, schema);
    lemma_between_slashes_push(three, properties);
    lemma_between_slashes_push(four, object);
    assert("/components/schemas/"@ =~= two.push('/'));
    assert("/properties/object"@ =~= (empty.push('/') + properties).push('/') + object);
    assert(object_property_pointer(schema) =~= five);
    assert(five[0] == '/');
    assert(between_slashes(empty) =~= seq![empty]);
    let pieces = between_slashes(five);
    assert(pieces =~= seq![empty, components, schemas, schema, properties, object]);
    lemma_plain_unescaped(components);
    lemma_plain_unescaped(schemas);
    lemma_plain_unescaped(schema);
    lemma_plain_unescaped(properties);
    lemma_plain_unescaped(object);
    assert(pieces.skip(1).map_values(|token: Seq<char>| unescaped(token))
        =~= object_property_path(schema));
}

/// Replacing one child leaves a child at another token as it is.
proof fn lemma_other_child(json: Json, token: Seq<char>, other: Seq<char>, replacement: Json)
    requires
        token != other,
        child(json, token) is Some,
    ensures
        child(with_child(json, token, replacement), other) == child(json, other),
{
    if let Json::Array(items) = json {
        let i = array_position(token, items.len())->0;
        if let Some(j) = array_position(other, items.len()) {
            assert(crate::text::decimal(i) == token);
            assert(crate::text::decimal(j) == other);
            assert(i != j);
        }
    }
}

/// A replacement along one path leaves what another path leads to as it is.
proof fn lemma_other_path(
    json: Json,
    path: Seq<Seq<char>>,
    other: Seq<Seq<char>>,
    k: int,
    replacement: Json,
)
    requires
        parts_at(path, other, k),
    ensures
        at_path(with_path(json, path, replacement), other) == at_path(json, other),
    decreases path.len(),
{
    if let Some(next) = child(json, path[0]) {
        let changed = with_path(next, path.skip(1), replacement);
        if k == 0 {
            lemma_other_child(json, path[0], other[0], changed);
        } else {
            assert(path[0] == other[0]);
            assert forall|i: int| 0 <= i < k - 1 implies path.skip(1)[i] == other.skip(1)[i] by {
                assert(path[i + 1] == other[i + 1]);
            }
            lemma_other_path(next, path.skip(1), other.skip(1), k - 1, replacement);
            assert(child(with_child(json, path[0], changed), path[0]) == Some(changed));
        }
    }
}

/// Normalizing one schema touches nothing off the path of its `object` property.
pub proof fn law_normalizing_touches_one_property(
    document: Json,
    schema: Seq<char>,
    value: Seq<char>,
    other: Seq<Seq<char>>,
)
    requires
        is_plain(schema),
        part_ways(object_property_path(schema), other),
    ensures
        at_path(normalized(document, schema, value), other) == at_path(document, other),
{
    lemma_object_property_path(schema);
    let path = object_property_path(schema);
    let k = choose|k: int| parts_at(path, other, k);
    lemma_other_path(document, path, other, k, discriminator(value));
}

/// Schemas of different names have `object` properties at paths that part.
proof fn lemma_schemas_part(a: Seq<char>, b: Seq<char>)
    requires
        a != b,
    ensures
        part_ways(object_property_path(a), object_property_path(b)),
{
    assert(parts_at(object_property_path(a), object_property_path(b), 2));
}

/// The names of the normalized schemas are plain and differ.
proof fn lemma_schema_names()
    ensures
        is_plain("ConversationResource"@),
        is_plain("DeletedConversationResource"@),
        is_plain("ConversationItemList"@),
        "ConversationResource"@ != "DeletedConversationResource"@,
        "ConversationResource"@ != "ConversationItemList"@,
        "DeletedConversationResource"@ != "ConversationItemList"@,
{
    reveal_strlit("ConversationResource");
    reveal_strlit("DeletedConversationResource");
    reveal_strlit("ConversationItemList");
    assert("ConversationResource"@[0] == 'C');
    assert("DeletedConversationResource"@[0] == 'D');
    assert("ConversationItemList"@[0] == 'C');
    assert("ConversationResource"@[12] == 'R');
    assert("ConversationItemList"@[12] == 'I');
}

/// In the implementation document every resource whose `object` property was an
/// object has its discriminator in inline form.
pub proof fn law_implementation_discriminators(document: Json)
    ensures
        at_path(document, object_property_path("ConversationResource"@)) matches Some(
            Json::Object(_),
        ) ==> at_path(
            implementation_document(document),
            object_property_path("ConversationResource"@),
        ) == Some(discriminator("conversation"@)),
        at_path(document, object_property_path("DeletedConversationResource"@)) matches Some(
            Json::Object(_),
        ) ==> at_path(
            implementation_document(document),
            object_property_path("DeletedConversationResource"@),
        ) == Some(discriminator("conversation.deleted"@)),
        at_path(document, object_property_path("ConversationItemList"@)) matches Some(
            Json::Object(_),
        ) ==> at_path(
            implementation_document(document),
            object_property_path("ConversationItemList"@),
        ) == Some(discriminator("list"@)),
{
    lemma_schema_names();
    let conversation = "ConversationResource"@;
    let deleted = "DeletedConversationResource"@;
    let list = "ConversationItemList"@;
    lemma_object_property_path(conversation);
    lemma_object_property_path(deleted);
    lemma_object_property_path(list);
    lemma_schemas_part(conversation, deleted);
    lemma_schemas_part(conversation, list);
    lemma_schemas_part(deleted, conversation);
    lemma_schemas_part(deleted, list);
    lemma_schemas_part(list, conversation);
    lemma_schemas_part(list, deleted);
    let first = normalized(document, conversation, "conversation"@);
    let second = normalized(first, deleted, "conversation.deleted"@);
    law_normalized_property(document, conversation, "conversation"@);
    law_normalized_property(first, deleted, "conversation.deleted"@);
    law_normalized_property(second, list, "list"@);
    let at_conversation = object_property_path(conversation);
    let at_deleted = object_property_path(deleted);
    let at_list = object_property_path(list);
    law_normalizing_touches_one_property(document, conversation, "conversation"@, at_deleted);
    law_normalizing_touches_one_property(document, conversation, "conversation"@, at_list);
    law_normalizing_touches_one_property(first, deleted, "conversation.deleted"@, at_conversation);
    law_normalizing_touches_one_property(first, deleted, "conversation.deleted"@, at_list);
    law_normalizing_touches_one_property(second, list, "list"@, at_conversation);
    law_normalizing_touches_one_property(second, list, "list"@, at_deleted);
}

/// The implementation document differs from the generated one in the `object`
/// properties of the three resources only.
pub proof fn law_implementation_touches_discriminators_only(
    document: Json,
    other: Seq<Seq<char>>,
)
    requires
        part_ways(object_property_path("ConversationResource"@), other),
        part_ways(object_property_path("DeletedConversationResource"@), other),
        part_ways(object_property_path("ConversationItemList"@), other),
    ensures
        at_path(implementation_document(document), other) == at_path(document, other),
{
    lemma_schema_names();
    let first = normalized(document, "ConversationResource"@, "conversation"@);
    let second = normalized(first, "DeletedConversationResource"@, "conversation.deleted"@);
    law_normalizing_touches_one_property(
        document,
        "ConversationResource"@,
        "conversation"@,
        other,
    );
    law_normalizing_touches_one_property(
        first,
        "DeletedConversationResource"@,
        "conversation.deleted"@,
        other,
    );
    law_normalizing_touches_one_property(second, "ConversationItemList"@, "list"@, other);
}

/// The property of a schema is addressed by the schema's name as it stands.
pub proof fn law_property_pointer_holds_the_schema_name(schema: Seq<char>)
    ensures
        object_property_pointer(schema) == "/components/schemas/"@ + schema
            + "/properties/object"@,
{
}

/// Normalizing a schema, whatever its name, touches nothing off the path that its
/// pointer spells.
pub proof fn law_normalizing_touches_one_place(
    document: Json,
    schema: Seq<char>,
    value: Seq<char>,
    path: Seq<Seq<char>>,
    other: Seq<Seq<char>>,
)
    requires
        pointer_path("/components/schemas/"@ + schema + "/properties/object"@) == Some(path),
        part_ways(path, other),
    ensures
        at_path(normalized(document, schema, value), other) == at_path(document, other),
{
    let k = choose|k: int| parts_at(path, other, k);
    lemma_other_path(document, path, other, k, discriminator(value));
}

} // verus!
