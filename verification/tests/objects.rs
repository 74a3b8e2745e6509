use fact_store::error::Error;
use fact_store::ids::object_id_from_bytes;
use fact_store::json::JsonValue;
use fact_store::objects::{bootstrap_cycle_ids, dependency_ref, uuid_bytes, CycleObject, DependencyRef};

fn text(s: &str) -> JsonValue {
    JsonValue::Text(s.to_string())
}

fn obj(members: Vec<(&str, JsonValue)>) -> JsonValue {
    JsonValue::Object(members.into_iter().map(|(k, v)| (k.to_string(), v)).collect())
}

const V7: &str = "01900000-0000-7000-8000-000000000001";
const V7_VALUE: u128 = 0x01900000_0000_7000_8000_000000000001;

#[test]
fn uuid_member_must_be_canonical_version_seven() {
    let object = obj(vec![("id", text(V7))]);
    assert_eq!(uuid_bytes(&object, "id"), Ok(V7_VALUE));
    let upper = obj(vec![("id", text("01900000-0000-7000-8000-00000000000A"))]);
    assert_eq!(uuid_bytes(&upper, "id"), Err(Error::InvalidUuid("id")));
    let simple = obj(vec![("id", text("01900000000070008000000000000001"))]);
    assert_eq!(uuid_bytes(&simple, "id"), Err(Error::InvalidUuid("id")));
    let version_four = obj(vec![("id", text("01900000-0000-4000-8000-000000000001"))]);
    assert_eq!(uuid_bytes(&version_four, "id"), Err(Error::InvalidUuid("id")));
    let other_variant = obj(vec![("id", text("01900000-0000-7000-c000-000000000001"))]);
    assert_eq!(uuid_bytes(&other_variant, "id"), Err(Error::InvalidUuid("id")));
    assert_eq!(uuid_bytes(&object, "ledger_id"), Err(Error::InvalidUuid("ledger_id")));
    let number = obj(vec![("id", JsonValue::Number("1".to_string()))]);
    assert_eq!(uuid_bytes(&number, "id"), Err(Error::InvalidUuid("id")));
}

fn dependency(id: &str, role: &str) -> JsonValue {
    obj(vec![
        ("object_id", text(id)),
        ("content_hash", text("sha256:00")),
        ("role", text(role)),
    ])
}

#[test]
fn dependency_entry_is_checked_in_order() {
    let entry = dependency(V7, "required-dependency");
    assert_eq!(
        dependency_ref(&entry, 7, &vec![]),
        Ok(DependencyRef {
            object_id: V7_VALUE,
            content_hash: "sha256:00".to_string(),
            role: "required-dependency".to_string(),
        })
    );
    assert_eq!(dependency_ref(&entry, 7, &vec![V7_VALUE]), Err(Error::InvalidDependency));
    assert_eq!(dependency_ref(&entry, V7_VALUE, &vec![]), Err(Error::InvalidDependency));
    let bad_role = dependency(V7, "Required");
    assert_eq!(dependency_ref(&bad_role, 7, &vec![]), Err(Error::InvalidDependency));
    let bad_id = dependency("not-a-uuid", "required-dependency");
    assert_eq!(dependency_ref(&bad_id, 7, &vec![]), Err(Error::InvalidUuid("object_id")));
    let extra = obj(vec![("object_id", text(V7)), ("note", text("x"))]);
    assert_eq!(dependency_ref(&extra, 7, &vec![]), Err(Error::InvalidDependency));
    assert_eq!(dependency_ref(&text(V7), 7, &vec![]), Err(Error::InvalidDependency));
}

fn cycle_object(id: u128, object_type: &str, dependencies: Vec<u128>, document: JsonValue) -> CycleObject {
    CycleObject { id, object_type: object_type.to_string(), dependencies, document }
}

fn genesis_document(root_grant: u128) -> JsonValue {
    obj(vec![(
        "body",
        obj(vec![("root_grant", text(&uuid::Uuid::from_u128(root_grant).to_string()))]),
    )])
}

#[test]
fn bootstrap_cycle_takes_genesis_dependencies_and_root_grant() {
    let objects = vec![
        cycle_object(1, "actor", vec![], JsonValue::Null),
        cycle_object(2, "key", vec![], JsonValue::Null),
        cycle_object(3, "proposition", vec![], JsonValue::Null),
        cycle_object(4, "authorization_grant", vec![], JsonValue::Null),
        cycle_object(5, "genesis", vec![1, 2, 3, 9], genesis_document(4)),
        cycle_object(6, "revision", vec![1], JsonValue::Null),
    ];
    let mut ids = bootstrap_cycle_ids(&objects).unwrap();
    ids.sort();
    assert_eq!(ids, vec![1, 2, 4, 5]);
}

#[test]
fn bootstrap_cycle_reports_bad_genesis_bodies() {
    let no_body = vec![cycle_object(5, "genesis", vec![], obj(vec![]))];
    assert_eq!(bootstrap_cycle_ids(&no_body), Err(Error::Metadata));
    let bad_root = vec![cycle_object(
        5,
        "genesis",
        vec![],
        obj(vec![("body", obj(vec![("root_grant", text("nope"))]))]),
    )];
    assert_eq!(bootstrap_cycle_ids(&bad_root), Err(Error::InvalidLineage));
    let no_genesis = vec![cycle_object(1, "actor", vec![], JsonValue::Null)];
    assert_eq!(bootstrap_cycle_ids(&no_genesis), Ok(vec![]));
}

#[test]
fn stored_identifier_needs_sixteen_bytes() {
    let bytes: Vec<u8> = (1..=16).collect();
    assert_eq!(object_id_from_bytes(&bytes), Ok(0x0102030405060708090a0b0c0d0e0f10));
    assert_eq!(object_id_from_bytes(&bytes[..15]), Err(Error::InvalidUuid("object_id")));
    assert_eq!(object_id_from_bytes(&[]), Err(Error::InvalidUuid("object_id")));
}
