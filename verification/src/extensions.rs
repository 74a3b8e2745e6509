//! Extension events: tag sets attached to propositions and directory
//! entries attached to actors, read back from their JSON documents.

use vstd::prelude::*;
use crate::error::Error;
use crate::json::{JsonValue, field, field_of, id_value, is_object, lemma_member_found, parse_object_id_text, text_value};
use crate::ids::{uuid_hyphenated_text, uuid_text_value};
use crate::text::same_text;

verus! {

/// A tag event for a proposition: the tags it lists replace the earlier
/// ones.
#[derive(Clone, Debug, PartialEq, Eq)]
pub struct TagExtensionEventInput {
    pub event_id: u128,
    pub ledger_id: u128,
    pub proposition_id: u128,
    pub actor_id: u128,
    pub signing_key_id: u128,
    pub operation: String,
    pub tags: Vec<String>,
    pub created_at: String,
}

/// Mathematical form of [`TagExtensionEventInput`].
pub struct TagEventModel {
    pub event_id: u128,
    pub ledger_id: u128,
    pub proposition_id: u128,
    pub actor_id: u128,
    pub signing_key_id: u128,
    pub operation: Seq<char>,
    pub tags: Seq<Seq<char>>,
    pub created_at: Seq<char>,
}

impl TagExtensionEventInput {
    pub open spec fn model(&self) -> TagEventModel {
        TagEventModel {
            event_id: self.event_id,
            ledger_id: self.ledger_id,
            proposition_id: self.proposition_id,
            actor_id: self.actor_id,
            signing_key_id: self.signing_key_id,
            operation: self.operation@,
            tags: string_views(self.tags@),
            created_at: self.created_at@,
        }
    }
}

/// The texts of a list of strings.
pub open spec fn string_views(items: Seq<String>) -> Seq<Seq<char>> {
    items.map_values(|s: String| s@)
}

/// Every item is a JSON string.
pub open spec fn all_texts(items: Seq<JsonValue>) -> bool {
    forall|i: int| 0 <= i < items.len() ==> #[trigger] items[i] is Text
}

/// The texts of the JSON strings among `items`, in order.
pub open spec fn texts(items: Seq<JsonValue>) -> Seq<Seq<char>> {
    items.map_values(
        |x: JsonValue|
            match x {
                JsonValue::Text(s) => s@,
                _ => Seq::empty(),
            },
    )
}

/// The tags a document's body lists: `None` unless `body.tags` is an
/// array of strings.
pub open spec fn body_tags(v: JsonValue) -> Option<Seq<Seq<char>>> {
    match field_of(field(v, "body"@), "tags"@) {
        Some(JsonValue::Array(items)) => if all_texts(items@) {
            Some(texts(items@))
        } else {
            None
        },
        _ => None,
    }
}

/// The member `key` of `v` is the string `expected`.
pub open spec fn has_text(v: JsonValue, key: Seq<char>, expected: Seq<char>) -> bool {
    text_value(field(v, key)) == Some(expected)
}

/// The member `key` of `v` is a string that names an identifier.
pub open spec fn has_id(v: JsonValue, key: Seq<char>) -> bool {
    id_value(field(v, key)) is Some
}

/// The identifier named by the member `key` of `v`.
pub open spec fn id_of(v: JsonValue, key: Seq<char>) -> u128 {
    id_value(field(v, key))->0
}

/// The text of the member `key` of `v`.
pub open spec fn text_of(v: JsonValue, key: Seq<char>) -> Seq<char> {
    text_value(field(v, key))->0
}

/// The header every extension event carries, for the given extension and
/// target type.
pub open spec fn event_header_ok(v: JsonValue, extension: Seq<char>, target_type: Seq<char>) -> bool {
    &&& has_text(v, "schema"@, "facts-extension-event-v0"@)
    &&& has_text(v, "extension"@, extension)
    &&& has_text(v, "target_type"@, target_type)
}

/// The tag event a document holds, `None` when it is not one.
pub open spec fn tag_event_spec(v: JsonValue) -> Option<TagEventModel> {
    if event_header_ok(v, "fact.tags"@, "proposition"@) && body_tags(v) is Some && has_id(
        v,
        "event_id"@,
    ) && has_id(v, "ledger_id"@) && has_id(v, "target_id"@) && has_id(v, "actor_id"@) && has_id(
        v,
        "signing_key_id"@,
    ) && text_value(field(v, "event_type"@)) is Some && text_value(field(v, "created_at"@)) is Some {
        Some(
            TagEventModel {
                event_id: id_of(v, "event_id"@),
                ledger_id: id_of(v, "ledger_id"@),
                proposition_id: id_of(v, "target_id"@),
                actor_id: id_of(v, "actor_id"@),
                signing_key_id: id_of(v, "signing_key_id"@),
                operation: text_of(v, "event_type"@),
                tags: body_tags(v)->0,
                created_at: text_of(v, "created_at"@),
            },
        )
    } else {
        None
    }
}

/// The text of the member `key` of `v`, when it is a string.
fn text_member<'a>(v: &'a JsonValue, key: &str) -> (r: Option<&'a str>)
    ensures
        match r {
            Some(s) => text_value(field(*v, key@)) == Some(s@),
            None => text_value(field(*v, key@)) is None,
        },
{
    match v.get(key) {
        Some(x) => x.as_text(),
        None => None,
    }
}

/// Whether the member `key` of `v` is the string `expected`.
fn has_member_text(v: &JsonValue, key: &str, expected: &str) -> (r: bool)
    ensures
        r == has_text(*v, key@, expected@),
{
    match text_member(v, key) {
        Some(s) => same_text(s, expected),
        None => false,
    }
}

/// The identifier named by the member `key` of `v`.
fn id_member(v: &JsonValue, key: &str) -> (r: Option<u128>)
    ensures
        r == id_value(field(*v, key@)),
{
    parse_object_id_text(v.get(key))
}

/// The tags listed by a document's body, `None` unless `body.tags` is an
/// array of strings.
pub fn body_tag_list(v: &JsonValue) -> (r: Option<Vec<String>>)
    ensures
        match r {
            Some(tags) => body_tags(*v) == Some(string_views(tags@)),
            None => body_tags(*v) is None,
        },
{
    let body = match v.get("body") {
        Some(b) => b,
        None => return None,
    };
    let items = match body.get("tags") {
        Some(JsonValue::Array(items)) => items,
        _ => return None,
    };
    assert(field_of(field(*v, "body"@), "tags"@) == Some(JsonValue::Array(*items)));
    let mut out: Vec<String> = Vec::new();
    let mut i: usize = 0;
    while i < items.len()
        invariant
            i <= items@.len(),
            out@.len() == i,
            field_of(field(*v, "body"@), "tags"@) == Some(JsonValue::Array(*items)),
            forall|j: int| 0 <= j < i ==> #[trigger] items@[j] is Text,
            forall|j: int| 0 <= j < i ==> (#[trigger] out@[j])@ == texts(items@)[j],
        decreases items@.len() - i,
    {
        match &items[i] {
            JsonValue::Text(s) => {
                out.push(s.as_str().to_owned());
            },
            _ => {
                assert(!all_texts(items@));
                return None;
            },
        }
        i = i + 1;
    }
    assert(string_views(out@) =~= texts(items@));
    Some(out)
}

/// Reads a tag event from its document.
pub fn parse_tag_extension_event_payload(value: &JsonValue) -> (r: Result<
    TagExtensionEventInput,
    Error,
>)
    ensures
        match r {
            Ok(event) => tag_event_spec(*value) == Some(event.model()),
            Err(e) => tag_event_spec(*value) is None && e == Error::Metadata,
        },
{
    if !has_member_text(value, "schema", "facts-extension-event-v0") || !has_member_text(
        value,
        "extension",
        "fact.tags",
    ) || !has_member_text(value, "target_type", "proposition") {
        return Err(Error::Metadata);
    }
    let tags = match body_tag_list(value) {
        Some(t) => t,
        None => return Err(Error::Metadata),
    };
    let event_id = match id_member(value, "event_id") {
        Some(x) => x,
        None => return Err(Error::Metadata),
    };
    let ledger_id = match id_member(value, "ledger_id") {
        Some(x) => x,
        None => return Err(Error::Metadata),
    };
    let proposition_id = match id_member(value, "target_id") {
        Some(x) => x,
        None => return Err(Error::Metadata),
    };
    let actor_id = match id_member(value, "actor_id") {
        Some(x) => x,
        None => return Err(Error::Metadata),
    };
    let signing_key_id = match id_member(value, "signing_key_id") {
        Some(x) => x,
        None => return Err(Error::Metadata),
    };
    let operation = match text_member(value, "event_type") {
        Some(s) => s.to_owned(),
        None => return Err(Error::Metadata),
    };
    let created_at = match text_member(value, "created_at") {
        Some(s) => s.to_owned(),
        None => return Err(Error::Metadata),
    };
    Ok(
        TagExtensionEventInput {
            event_id,
            ledger_id,
            proposition_id,
            actor_id,
            signing_key_id,
            operation,
            tags,
            created_at,
        },
    )
}

/// A directory event for an actor: the entry it describes replaces the
/// earlier one, and a removal clears it.
#[derive(Clone, Debug, PartialEq, Eq)]
pub struct DirectoryExtensionEventInput {
    pub event_id: u128,
    pub ledger_id: u128,
    pub actor_id: u128,
    pub signing_key_id: u128,
    pub target_actor_id: u128,
    pub target_key_id: Option<u128>,
    pub operation: String,
    pub display_name: Option<String>,
    pub alias: Option<String>,
    pub actor_type: Option<String>,
    pub role: Option<String>,
    pub source: Option<String>,
    pub verified_by: Option<String>,
    pub created_at: String,
}

/// Mathematical form of [`DirectoryExtensionEventInput`].
pub struct DirectoryEventModel {
    pub event_id: u128,
    pub ledger_id: u128,
    pub actor_id: u128,
    pub signing_key_id: u128,
    pub target_actor_id: u128,
    pub target_key_id: Option<u128>,
    pub operation: Seq<char>,
    pub display_name: Option<Seq<char>>,
    pub alias: Option<Seq<char>>,
    pub actor_type: Option<Seq<char>>,
    pub role: Option<Seq<char>>,
    pub source: Option<Seq<char>>,
    pub verified_by: Option<Seq<char>>,
    pub created_at: Seq<char>,
}

/// The text of an optional string.
pub open spec fn opt_text(o: Option<String>) -> Option<Seq<char>> {
    match o {
        Some(s) => Some(s@),
        None => None,
    }
}

impl DirectoryExtensionEventInput {
    pub open spec fn model(&self) -> DirectoryEventModel {
        DirectoryEventModel {
            event_id: self.event_id,
            ledger_id: self.ledger_id,
            actor_id: self.actor_id,
            signing_key_id: self.signing_key_id,
            target_actor_id: self.target_actor_id,
            target_key_id: self.target_key_id,
            operation: self.operation@,
            display_name: opt_text(self.display_name),
            alias: opt_text(self.alias),
            actor_type: opt_text(self.actor_type),
            role: opt_text(self.role),
            source: opt_text(self.source),
            verified_by: opt_text(self.verified_by),
            created_at: self.created_at@,
        }
    }
}

/// An optional identifier member is readable: absent, not a string, or a
/// string that names an identifier.
pub open spec fn optional_id_readable(v: Option<JsonValue>) -> bool {
    match v {
        Some(JsonValue::Text(s)) => uuid_text_value(s@) is Some,
        _ => true,
    }
}

/// The directory event a document holds, `None` when it is not one. The
/// optional members of the body count as absent unless they are strings.
pub open spec fn directory_event_spec(v: JsonValue) -> Option<DirectoryEventModel> {
    let body = field(v, "body"@);
    if event_header_ok(v, "fact.directory"@, "actor"@) && is_object(body) && has_id(v, "event_id"@)
        && has_id(v, "ledger_id"@) && has_id(v, "actor_id"@) && has_id(v, "signing_key_id"@)
        && has_id(v, "target_id"@) && optional_id_readable(field_of(body, "key_id"@)) && text_value(
        field(v, "event_type"@),
    ) is Some && text_value(field(v, "created_at"@)) is Some {
        Some(
            DirectoryEventModel {
                event_id: id_of(v, "event_id"@),
                ledger_id: id_of(v, "ledger_id"@),
                actor_id: id_of(v, "actor_id"@),
                signing_key_id: id_of(v, "signing_key_id"@),
                target_actor_id: id_of(v, "target_id"@),
                target_key_id: id_value(field_of(body, "key_id"@)),
                operation: text_of(v, "event_type"@),
                display_name: text_value(field_of(body, "display_name"@)),
                alias: text_value(field_of(body, "alias"@)),
                actor_type: text_value(field_of(body, "actor_type"@)),
                role: text_value(field_of(body, "role"@)),
                source: text_value(field_of(body, "source"@)),
                verified_by: text_value(field_of(body, "verified_by"@)),
                created_at: text_of(v, "created_at"@),
            },
        )
    } else {
        None
    }
}

/// An optional string member, copied.
fn optional_text(v: &JsonValue, key: &str) -> (r: Option<String>)
    ensures
        opt_text(r) == text_value(field(*v, key@)),
{
    match text_member(v, key) {
        Some(s) => Some(s.to_owned()),
        None => None,
    }
}

/// Reads a directory event from its document.
pub fn parse_directory_extension_event_payload(value: &JsonValue) -> (r: Result<
    DirectoryExtensionEventInput,
    Error,
>)
    ensures
        match r {
            Ok(event) => directory_event_spec(*value) == Some(event.model()),
            Err(e) => directory_event_spec(*value) is None && e == Error::Metadata,
        },
{
    if !has_member_text(value, "schema", "facts-extension-event-v0") || !has_member_text(
        value,
        "extension",
        "fact.directory",
    ) || !has_member_text(value, "target_type", "actor") {
        return Err(Error::Metadata);
    }
    let body = match value.get("body") {
        Some(b) => b,
        None => return Err(Error::Metadata),
    };
    if !body.is_object() {
        return Err(Error::Metadata);
    }
    let event_id = match id_member(value, "event_id") {
        Some(x) => x,
        None => return Err(Error::Metadata),
    };
    let ledger_id = match id_member(value, "ledger_id") {
        Some(x) => x,
        None => return Err(Error::Metadata),
    };
    let actor_id = match id_member(value, "actor_id") {
        Some(x) => x,
        None => return Err(Error::Metadata),
    };
    let signing_key_id = match id_member(value, "signing_key_id") {
        Some(x) => x,
        None => return Err(Error::Metadata),
    };
    let target_actor_id = match id_member(value, "target_id") {
        Some(x) => x,
        None => return Err(Error::Metadata),
    };
    let target_key_id = match text_member(body, "key_id") {
        Some(text) => match crate::ids::parse_uuid_text(text) {
            Some(id) => Some(id),
            None => return Err(Error::Metadata),
        },
        None => None,
    };
    let operation = match text_member(value, "event_type") {
        Some(s) => s.to_owned(),
        None => return Err(Error::Metadata),
    };
    let created_at = match text_member(value, "created_at") {
        Some(s) => s.to_owned(),
        None => return Err(Error::Metadata),
    };
    Ok(
        DirectoryExtensionEventInput {
            event_id,
            ledger_id,
            actor_id,
            signing_key_id,
            target_actor_id,
            target_key_id,
            operation,
            display_name: optional_text(body, "display_name"),
            alias: optional_text(body, "alias"),
            actor_type: optional_text(body, "actor_type"),
            role: optional_text(body, "role"),
            source: optional_text(body, "source"),
            verified_by: optional_text(body, "verified_by"),
            created_at,
        },
    )
}

/// The display name the directory shows for an actor after its latest
/// event: nothing after a removal; otherwise the event must name the actor.
pub fn projected_display_name(event: &DirectoryExtensionEventInput) -> (r: Result<
    Option<String>,
    Error,
>)
    ensures
        event.operation@ == "remove"@ ==> r == Ok::<Option<String>, Error>(None),
        event.operation@ != "remove"@ ==> match event.display_name {
            Some(name) => r matches Ok(Some(shown)) && shown@ == name@,
            None => r == Err::<Option<String>, Error>(Error::Metadata),
        },
{
    if same_text(event.operation.as_str(), "remove") {
        return Ok(None);
    }
    match &event.display_name {
        Some(name) => Ok(Some(name.as_str().to_owned())),
        None => Err(Error::Metadata),
    }
}

/// A JSON string member.
fn text_member_of(key: &str, value: &str) -> (m: (String, JsonValue))
    ensures
        m.0@ == key@,
        m.1 == JsonValue::Text(m.1->Text_0),
        text_value(Some(m.1)) == Some(value@),
{
    (key.to_owned(), JsonValue::Text(value.to_owned()))
}

/// A JSON string member holding the text form of an identifier.
fn id_member_of(key: &str, id: u128) -> (m: (String, JsonValue))
    ensures
        m.0@ == key@,
        id_value(Some(m.1)) == Some(id),
{
    (key.to_owned(), JsonValue::Text(uuid_hyphenated_text(id)))
}

/// The document of a tag event, as the store writes it: the extension
/// header, and the tags in the body. Reading it back gives the event.
pub fn tag_extension_document(input: &TagExtensionEventInput) -> (doc: JsonValue)
    ensures
        tag_event_spec(doc) == Some(input.model()),
{
    let mut tags: Vec<JsonValue> = Vec::new();
    let mut i: usize = 0;
    while i < input.tags.len()
        invariant
            i <= input.tags@.len(),
            tags@.len() == i,
            forall|k: int|
                0 <= k < i ==> (#[trigger] tags@[k] matches JsonValue::Text(t) && t@ == input.tags@[k]@),
        decreases input.tags@.len() - i,
    {
        tags.push(JsonValue::Text(input.tags[i].as_str().to_owned()));
        i = i + 1;
    }
    let ghost tag_items = tags@;
    let body_members = vec![("tags".to_owned(), JsonValue::Array(tags))];
    let ghost bm = body_members@;
    let body = JsonValue::Object(body_members);
    let members = vec![
        text_member_of("schema", "facts-extension-event-v0"),
        text_member_of("extension", "fact.tags"),
        id_member_of("event_id", input.event_id),
        id_member_of("ledger_id", input.ledger_id),
        text_member_of("target_type", "proposition"),
        id_member_of("target_id", input.proposition_id),
        text_member_of("event_type", input.operation.as_str()),
        id_member_of("actor_id", input.actor_id),
        id_member_of("signing_key_id", input.signing_key_id),
        text_member_of("created_at", input.created_at.as_str()),
        ("body".to_owned(), body),
    ];
    let doc = JsonValue::Object(members);
    proof {
        let m = members@;
        reveal_strlit("schema");
        reveal_strlit("extension");
        reveal_strlit("event_id");
        reveal_strlit("ledger_id");
        reveal_strlit("target_type");
        reveal_strlit("target_id");
        reveal_strlit("event_type");
        reveal_strlit("actor_id");
        reveal_strlit("signing_key_id");
        reveal_strlit("created_at");
        reveal_strlit("body");
        reveal_strlit("tags");
        assert("schema"@.len() == 6);
        assert("extension"@.len() == 9);
        assert("event_id"@.len() == 8);
        assert("ledger_id"@.len() == 9);
        assert("target_type"@.len() == 11);
        assert("target_id"@.len() == 9);
        assert("event_type"@.len() == 10);
        assert("actor_id"@.len() == 8);
        assert("signing_key_id"@.len() == 14);
        assert("created_at"@.len() == 10);
        assert("body"@.len() == 4);
        assert(m[0].0@ != "extension"@);
        assert(m[0].0@ != "event_id"@);
        assert(m[1].0@ != "event_id"@);
        assert(m[0].0@ != "ledger_id"@);
        assert("extension"@[0] != "ledger_id"@[0]);
        assert(m[1].0@ != "ledger_id"@);
        assert(m[2].0@ != "ledger_id"@);
        assert(m[0].0@ != "target_type"@);
        assert(m[1].0@ != "target_type"@);
        assert(m[2].0@ != "target_type"@);
        assert(m[3].0@ != "target_type"@);
        assert(m[0].0@ != "target_id"@);
        assert("extension"@[0] != "target_id"@[0]);
        assert(m[1].0@ != "target_id"@);
        assert(m[2].0@ != "target_id"@);
        assert("ledger_id"@[0] != "target_id"@[0]);
        assert(m[3].0@ != "target_id"@);
        assert(m[4].0@ != "target_id"@);
        assert(m[0].0@ != "event_type"@);
        assert(m[1].0@ != "event_type"@);
        assert(m[2].0@ != "event_type"@);
        assert(m[3].0@ != "event_type"@);
        assert(m[4].0@ != "event_type"@);
        assert(m[5].0@ != "event_type"@);
        assert(m[0].0@ != "actor_id"@);
        assert(m[1].0@ != "actor_id"@);
        assert("event_id"@[0] != "actor_id"@[0]);
        assert(m[2].0@ != "actor_id"@);
        assert(m[3].0@ != "actor_id"@);
        assert(m[4].0@ != "actor_id"@);
        assert(m[5].0@ != "actor_id"@);
        assert(m[6].0@ != "actor_id"@);
        assert(m[0].0@ != "signing_key_id"@);
        assert(m[1].0@ != "signing_key_id"@);
        assert(m[2].0@ != "signing_key_id"@);
        assert(m[3].0@ != "signing_key_id"@);
        assert(m[4].0@ != "signing_key_id"@);
        assert(m[5].0@ != "signing_key_id"@);
        assert(m[6].0@ != "signing_key_id"@);
        assert(m[7].0@ != "signing_key_id"@);
        assert(m[0].0@ != "created_at"@);
        assert(m[1].0@ != "created_at"@);
        assert(m[2].0@ != "created_at"@);
        assert(m[3].0@ != "created_at"@);
        assert(m[4].0@ != "created_at"@);
        assert(m[5].0@ != "created_at"@);
        assert("event_type"@[0] != "created_at"@[0]);
        assert(m[6].0@ != "created_at"@);
        assert(m[7].0@ != "created_at"@);
        assert(m[8].0@ != "created_at"@);
        assert(m[0].0@ != "body"@);
        assert(m[1].0@ != "body"@);
        assert(m[2].0@ != "body"@);
        assert(m[3].0@ != "body"@);
        assert(m[4].0@ != "body"@);
        assert(m[5].0@ != "body"@);
        assert(m[6].0@ != "body"@);
        assert(m[7].0@ != "body"@);
        assert(m[8].0@ != "body"@);
        assert(m[9].0@ != "body"@);
        lemma_member_found(m, "schema"@, 0);
        lemma_member_found(m, "extension"@, 1);
        lemma_member_found(m, "event_id"@, 2);
        lemma_member_found(m, "ledger_id"@, 3);
        lemma_member_found(m, "target_type"@, 4);
        lemma_member_found(m, "target_id"@, 5);
        lemma_member_found(m, "event_type"@, 6);
        lemma_member_found(m, "actor_id"@, 7);
        lemma_member_found(m, "signing_key_id"@, 8);
        lemma_member_found(m, "created_at"@, 9);
        lemma_member_found(m, "body"@, 10);
        lemma_member_found(bm, "tags"@, 0);
        assert(all_texts(tag_items));
        assert(texts(tag_items) =~= string_views(input.tags@));
    }
    doc
}

/// A JSON member holding an optional string, `null` for none.
fn optional_text_member_of(key: &str, value: &Option<String>) -> (m: (String, JsonValue))
    ensures
        m.0@ == key@,
        text_value(Some(m.1)) == opt_text(*value),
{
    match value {
        Some(v) => (key.to_owned(), JsonValue::Text(v.as_str().to_owned())),
        None => (key.to_owned(), JsonValue::Null),
    }
}

/// A JSON member holding an optional identifier, `null` for none.
fn optional_id_member_of(key: &str, id: Option<u128>) -> (m: (String, JsonValue))
    ensures
        m.0@ == key@,
        id_value(Some(m.1)) == id,
        optional_id_readable(Some(m.1)),
{
    match id {
        Some(v) => (key.to_owned(), JsonValue::Text(uuid_hyphenated_text(v))),
        None => (key.to_owned(), JsonValue::Null),
    }
}

/// The document of a directory event, as the store writes it: the
/// extension header, and the entry in the body. Reading it back gives the
/// event.
pub fn directory_extension_document(input: &DirectoryExtensionEventInput) -> (doc: JsonValue)
    ensures
        directory_event_spec(doc) == Some(input.model()),
{
    let body_members = vec![
        id_member_of("actor_id", input.target_actor_id),
        optional_id_member_of("key_id", input.target_key_id),
        optional_text_member_of("display_name", &input.display_name),
        optional_text_member_of("alias", &input.alias),
        optional_text_member_of("actor_type", &input.actor_type),
        optional_text_member_of("role", &input.role),
        optional_text_member_of("source", &input.source),
        optional_text_member_of("verified_by", &input.verified_by),
        text_member_of("updated_at", input.created_at.as_str()),
    ];
    let ghost bm = body_members@;
    let members = vec![
        text_member_of("schema", "facts-extension-event-v0"),
        text_member_of("extension", "fact.directory"),
        id_member_of("event_id", input.event_id),
        id_member_of("ledger_id", input.ledger_id),
        text_member_of("target_type", "actor"),
        id_member_of("target_id", input.target_actor_id),
        text_member_of("event_type", input.operation.as_str()),
        id_member_of("actor_id", input.actor_id),
        id_member_of("signing_key_id", input.signing_key_id),
        text_member_of("created_at", input.created_at.as_str()),
        ("body".to_owned(), JsonValue::Object(body_members)),
    ];
    let doc = JsonValue::Object(members);
    proof {
        let m = members@;
        reveal_strlit("actor_id");
        reveal_strlit("actor_type");
        reveal_strlit("alias");
        reveal_strlit("body");
        reveal_strlit("created_at");
        reveal_strlit("display_name");
        reveal_strlit("event_id");
        reveal_strlit("event_type");
        reveal_strlit("extension");
        reveal_strlit("key_id");
        reveal_strlit("ledger_id");
        reveal_strlit("role");
        reveal_strlit("schema");
        reveal_strlit("signing_key_id");
        reveal_strlit("source");
        reveal_strlit("target_id");
        reveal_strlit("target_type");
        reveal_strlit("updated_at");
        reveal_strlit("verified_by");
        assert("schema"@.len() == 6);
        assert("extension"@.len() == 9);
        assert("event_id"@.len() == 8);
        assert("ledger_id"@.len() == 9);
        assert("target_type"@.len() == 11);
        assert("target_id"@.len() == 9);
        assert("event_type"@.len() == 10);
        assert("actor_id"@.len() == 8);
        assert("signing_key_id"@.len() == 14);
        assert("created_at"@.len() == 10);
        assert("body"@.len() == 4);
        assert(m[0].0@ != "extension"@);
        assert(m[0].0@ != "event_id"@);
        assert(m[1].0@ != "event_id"@);
        assert(m[0].0@ != "ledger_id"@);
        assert("extension"@[0] != "ledger_id"@[0]);
        assert(m[1].0@ != "ledger_id"@);
        assert(m[2].0@ != "ledger_id"@);
        assert(m[0].0@ != "target_type"@);
        assert(m[1].0@ != "target_type"@);
        assert(m[2].0@ != "target_type"@);
        assert(m[3].0@ != "target_type"@);
        assert(m[0].0@ != "target_id"@);
        assert("extension"@[0] != "target_id"@[0]);
        assert(m[1].0@ != "target_id"@);
        assert(m[2].0@ != "target_id"@);
        assert("ledger_id"@[0] != "target_id"@[0]);
        assert(m[3].0@ != "target_id"@);
        assert(m[4].0@ != "target_id"@);
        assert(m[0].0@ != "event_type"@);
        assert(m[1].0@ != "event_type"@);
        assert(m[2].0@ != "event_type"@);
        assert(m[3].0@ != "event_type"@);
        assert(m[4].0@ != "event_type"@);
        assert(m[5].0@ != "event_type"@);
        assert(m[0].0@ != "actor_id"@);
        assert(m[1].0@ != "actor_id"@);
        assert("event_id"@[0] != "actor_id"@[0]);
        assert(m[2].0@ != "actor_id"@);
        assert(m[3].0@ != "actor_id"@);
        assert(m[4].0@ != "actor_id"@);
        assert(m[5].0@ != "actor_id"@);
        assert(m[6].0@ != "actor_id"@);
        assert(m[0].0@ != "signing_key_id"@);
        assert(m[1].0@ != "signing_key_id"@);
        assert(m[2].0@ != "signing_key_id"@);
        assert(m[3].0@ != "signing_key_id"@);
        assert(m[4].0@ != "signing_key_id"@);
        assert(m[5].0@ != "signing_key_id"@);
        assert(m[6].0@ != "signing_key_id"@);
        assert(m[7].0@ != "signing_key_id"@);
        assert(m[0].0@ != "created_at"@);
        assert(m[1].0@ != "created_at"@);
        assert(m[2].0@ != "created_at"@);
        assert(m[3].0@ != "created_at"@);
        assert(m[4].0@ != "created_at"@);
        assert(m[5].0@ != "created_at"@);
        assert("event_type"@[0] != "created_at"@[0]);
        assert(m[6].0@ != "created_at"@);
        assert(m[7].0@ != "created_at"@);
        assert(m[8].0@ != "created_at"@);
        assert(m[0].0@ != "body"@);
        assert(m[1].0@ != "body"@);
        assert(m[2].0@ != "body"@);
        assert(m[3].0@ != "body"@);
        assert(m[4].0@ != "body"@);
        assert(m[5].0@ != "body"@);
        assert(m[6].0@ != "body"@);
        assert(m[7].0@ != "body"@);
        assert(m[8].0@ != "body"@);
        assert(m[9].0@ != "body"@);
        lemma_member_found(m, "schema"@, 0);
        lemma_member_found(m, "extension"@, 1);
        lemma_member_found(m, "event_id"@, 2);
        lemma_member_found(m, "ledger_id"@, 3);
        lemma_member_found(m, "target_type"@, 4);
        lemma_member_found(m, "target_id"@, 5);
        lemma_member_found(m, "event_type"@, 6);
        lemma_member_found(m, "actor_id"@, 7);
        lemma_member_found(m, "signing_key_id"@, 8);
        lemma_member_found(m, "created_at"@, 9);
        lemma_member_found(m, "body"@, 10);
        assert("actor_id"@.len() == 8);
        assert("key_id"@.len() == 6);
        assert("display_name"@.len() == 12);
        assert("alias"@.len() == 5);
        assert("actor_type"@.len() == 10);
        assert("role"@.len() == 4);
        assert("source"@.len() == 6);
        assert("verified_by"@.len() == 11);
        assert("updated_at"@.len() == 10);
        assert(bm[0].0@ != "key_id"@);
        assert(bm[0].0@ != "display_name"@);
        assert(bm[1].0@ != "display_name"@);
        assert(bm[0].0@ != "alias"@);
        assert(bm[1].0@ != "alias"@);
        assert(bm[2].0@ != "alias"@);
        assert(bm[0].0@ != "actor_type"@);
        assert(bm[1].0@ != "actor_type"@);
        assert(bm[2].0@ != "actor_type"@);
        assert(bm[3].0@ != "actor_type"@);
        assert(bm[0].0@ != "role"@);
        assert(bm[1].0@ != "role"@);
        assert(bm[2].0@ != "role"@);
        assert(bm[3].0@ != "role"@);
        assert(bm[4].0@ != "role"@);
        assert(bm[0].0@ != "source"@);
        assert("key_id"@[0] != "source"@[0]);
        assert(bm[1].0@ != "source"@);
        assert(bm[2].0@ != "source"@);
        assert(bm[3].0@ != "source"@);
        assert(bm[4].0@ != "source"@);
        assert(bm[5].0@ != "source"@);
        assert(bm[0].0@ != "verified_by"@);
        assert(bm[1].0@ != "verified_by"@);
        assert(bm[2].0@ != "verified_by"@);
        assert(bm[3].0@ != "verified_by"@);
        assert(bm[4].0@ != "verified_by"@);
        assert(bm[5].0@ != "verified_by"@);
        assert(bm[6].0@ != "verified_by"@);
        assert(bm[0].0@ != "updated_at"@);
        assert(bm[1].0@ != "updated_at"@);
        assert(bm[2].0@ != "updated_at"@);
        assert(bm[3].0@ != "updated_at"@);
        assert("actor_type"@[0] != "updated_at"@[0]);
        assert(bm[4].0@ != "updated_at"@);
        assert(bm[5].0@ != "updated_at"@);
        assert(bm[6].0@ != "updated_at"@);
        assert(bm[7].0@ != "updated_at"@);
        lemma_member_found(bm, "actor_id"@, 0);
        lemma_member_found(bm, "key_id"@, 1);
        lemma_member_found(bm, "display_name"@, 2);
        lemma_member_found(bm, "alias"@, 3);
        lemma_member_found(bm, "actor_type"@, 4);
        lemma_member_found(bm, "role"@, 5);
        lemma_member_found(bm, "source"@, 6);
        lemma_member_found(bm, "verified_by"@, 7);
        lemma_member_found(bm, "updated_at"@, 8);
    }
    doc
}

} // verus!
