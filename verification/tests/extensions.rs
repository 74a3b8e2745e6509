use fact_store::error::Error;
use fact_store::extensions::{
    body_tag_list, directory_extension_document, parse_directory_extension_event_payload,
    parse_tag_extension_event_payload, projected_display_name, tag_extension_document,
    DirectoryExtensionEventInput, TagExtensionEventInput,
};
use fact_store::json::JsonValue;

fn text(s: &str) -> JsonValue {
    JsonValue::Text(s.to_string())
}

fn id(v: u128) -> JsonValue {
    text(&uuid::Uuid::from_u128(v).to_string())
}

fn obj(members: Vec<(&str, JsonValue)>) -> JsonValue {
    JsonValue::Object(members.into_iter().map(|(k, v)| (k.to_string(), v)).collect())
}

fn tag_event(schema: &str, tags: JsonValue) -> JsonValue {
    obj(vec![
        ("schema", text(schema)),
        ("extension", text("fact.tags")),
        ("event_id", id(1)),
        ("ledger_id", id(2)),
        ("target_type", text("proposition")),
        ("target_id", id(3)),
        ("event_type", text("set")),
        ("actor_id", id(4)),
        ("signing_key_id", id(5)),
        ("created_at", text("2026-07-27T12:00:00.000Z")),
        ("body", obj(vec![("tags", tags)])),
    ])
}

fn directory_event(body: JsonValue) -> JsonValue {
    obj(vec![
        ("schema", text("facts-extension-event-v0")),
        ("extension", text("fact.directory")),
        ("event_id", id(11)),
        ("ledger_id", id(12)),
        ("target_type", text("actor")),
        ("target_id", id(13)),
        ("event_type", text("upsert")),
        ("actor_id", id(14)),
        ("signing_key_id", id(15)),
        ("created_at", text("2026-07-27T12:00:01.000Z")),
        ("body", body),
    ])
}

#[test]
fn tag_event_reads_every_field() {
    let doc = tag_event(
        "facts-extension-event-v0",
        JsonValue::Array(vec![text("alpha"), text("beta")]),
    );
    let event = parse_tag_extension_event_payload(&doc).unwrap();
    assert_eq!(event.event_id, 1);
    assert_eq!(event.ledger_id, 2);
    assert_eq!(event.proposition_id, 3);
    assert_eq!(event.actor_id, 4);
    assert_eq!(event.signing_key_id, 5);
    assert_eq!(event.operation, "set");
    assert_eq!(event.tags, vec!["alpha".to_string(), "beta".to_string()]);
    assert_eq!(event.created_at, "2026-07-27T12:00:00.000Z");
}

#[test]
fn tag_event_refuses_wrong_schema_and_non_string_tags() {
    let wrong_schema = tag_event("facts-extension-event-v1", JsonValue::Array(vec![]));
    assert_eq!(parse_tag_extension_event_payload(&wrong_schema), Err(Error::Metadata));
    let numeric_tag = tag_event(
        "facts-extension-event-v0",
        JsonValue::Array(vec![text("alpha"), JsonValue::Number("7".to_string())]),
    );
    assert_eq!(parse_tag_extension_event_payload(&numeric_tag), Err(Error::Metadata));
    assert_eq!(body_tag_list(&numeric_tag), None);
    let not_array = tag_event("facts-extension-event-v0", text("alpha"));
    assert_eq!(parse_tag_extension_event_payload(&not_array), Err(Error::Metadata));
}

#[test]
fn tag_event_refuses_bad_identifier() {
    let mut doc = tag_event("facts-extension-event-v0", JsonValue::Array(vec![]));
    if let JsonValue::Object(members) = &mut doc {
        members[2].1 = text("not-a-uuid");
    }
    assert_eq!(parse_tag_extension_event_payload(&doc), Err(Error::Metadata));
}

#[test]
fn empty_tag_list_is_an_event() {
    let doc = tag_event("facts-extension-event-v0", JsonValue::Array(vec![]));
    let event = parse_tag_extension_event_payload(&doc).unwrap();
    assert!(event.tags.is_empty());
    assert_eq!(body_tag_list(&doc), Some(vec![]));
}

#[test]
fn directory_event_reads_optional_members() {
    let doc = directory_event(obj(vec![
        ("actor_id", id(13)),
        ("key_id", id(16)),
        ("display_name", text("Ada")),
        ("alias", JsonValue::Null),
        ("actor_type", JsonValue::Number("1".to_string())),
        ("role", text("editor")),
    ]));
    let event = parse_directory_extension_event_payload(&doc).unwrap();
    assert_eq!(
        event,
        DirectoryExtensionEventInput {
            event_id: 11,
            ledger_id: 12,
            actor_id: 14,
            signing_key_id: 15,
            target_actor_id: 13,
            target_key_id: Some(16),
            operation: "upsert".to_string(),
            display_name: Some("Ada".to_string()),
            alias: None,
            actor_type: None,
            role: Some("editor".to_string()),
            source: None,
            verified_by: None,
            created_at: "2026-07-27T12:00:01.000Z".to_string(),
        }
    );
    assert_eq!(projected_display_name(&event), Ok(Some("Ada".to_string())));
}

#[test]
fn directory_event_refuses_unreadable_key_and_missing_body() {
    let bad_key = directory_event(obj(vec![("key_id", text("nope"))]));
    assert_eq!(parse_directory_extension_event_payload(&bad_key), Err(Error::Metadata));
    let numeric_key = directory_event(obj(vec![("key_id", JsonValue::Number("3".to_string()))]));
    assert_eq!(
        parse_directory_extension_event_payload(&numeric_key).unwrap().target_key_id,
        None
    );
    let no_body = directory_event(JsonValue::Array(vec![]));
    assert_eq!(parse_directory_extension_event_payload(&no_body), Err(Error::Metadata));
}

#[test]
fn directory_projection_follows_the_latest_event() {
    let doc = directory_event(obj(vec![]));
    let mut event = parse_directory_extension_event_payload(&doc).unwrap();
    assert_eq!(projected_display_name(&event), Err(Error::Metadata));
    event.operation = "remove".to_string();
    assert_eq!(projected_display_name(&event), Ok(None));
}

#[test]
fn written_tag_event_reads_back() {
    let input = TagExtensionEventInput {
        event_id: uuid::Uuid::now_v7().as_u128(),
        ledger_id: 2,
        proposition_id: 3,
        actor_id: 4,
        signing_key_id: 5,
        operation: "set".to_string(),
        tags: vec!["one".to_string(), "two".to_string(), "one".to_string()],
        created_at: "2026-07-27T12:00:00.000Z".to_string(),
    };
    let document = tag_extension_document(&input);
    assert_eq!(parse_tag_extension_event_payload(&document), Ok(input));
}

#[test]
fn written_directory_event_reads_back() {
    let mut input = DirectoryExtensionEventInput {
        event_id: 11,
        ledger_id: 12,
        actor_id: 14,
        signing_key_id: 15,
        target_actor_id: 13,
        target_key_id: Some(u128::MAX),
        operation: "upsert".to_string(),
        display_name: Some("Ada".to_string()),
        alias: None,
        actor_type: Some("agent".to_string()),
        role: None,
        source: Some("import".to_string()),
        verified_by: None,
        created_at: "2026-07-27T12:00:01.000Z".to_string(),
    };
    let document = directory_extension_document(&input);
    assert_eq!(parse_directory_extension_event_payload(&document), Ok(input.clone()));
    input.target_key_id = None;
    input.display_name = None;
    let document = directory_extension_document(&input);
    assert_eq!(parse_directory_extension_event_payload(&document), Ok(input));
}
