use std::collections::HashMap;

use fact_store::error::Error;
use fact_store::json::JsonValue;
use fact_store::semantics::{
    actor_key_binding_check, actor_lifecycle_check, authorization_grant_check, authorization_reference_check,
    authorization_revocation_check, delegation_check, delegation_revocation_check, deliberation_target_check,
    key_lifecycle_check, namespace_assertion_check, proposition_check, recovery_policy_check, revision_lineage_check,
    settlement_target_check, cross_object_check, CheckContext, StoredObject,
};

const ACTOR: u128 = 0x0190_0000_0000_7000_8000_0000_0000_0001;
const OTHER: u128 = 0x0190_0000_0000_7000_8000_0000_0000_0002;
const KEY: u128 = 0x0190_0000_0000_7000_8000_0000_0000_0003;
const GRANT: u128 = 0x0190_0000_0000_7000_8000_0000_0000_0004;
const PROP: u128 = 0x0190_0000_0000_7000_8000_0000_0000_0005;
const REV: u128 = 0x0190_0000_0000_7000_8000_0000_0000_0006;
const DELIB: u128 = 0x0190_0000_0000_7000_8000_0000_0000_0007;
const REV2: u128 = 0x0190_0000_0000_7000_8000_0000_0000_0008;
const LEDGER: u128 = 0x0190_0000_0000_7000_8000_0000_0000_0009;
const POLICY: u128 = 0x0190_0000_0000_7000_8000_0000_0000_000a;
const NEWKEY: u128 = 0x0190_0000_0000_7000_8000_0000_0000_000b;
const MISSING: u128 = 0x0190_0000_0000_7000_8000_0000_0000_00ff;

fn id(x: u128) -> JsonValue {
    JsonValue::Text(uuid::Uuid::from_u128(x).to_string())
}

fn text(s: &str) -> JsonValue {
    JsonValue::Text(s.to_string())
}

fn obj(members: Vec<(&str, JsonValue)>) -> JsonValue {
    JsonValue::Object(members.into_iter().map(|(k, v)| (k.to_string(), v)).collect())
}

fn stored(object_type: &str, body: JsonValue) -> StoredObject {
    StoredObject { object_type: object_type.to_string(), body }
}

fn context(objects: Vec<(u128, StoredObject)>, closure: Vec<u128>, dependencies: Vec<u128>) -> CheckContext {
    CheckContext {
        objects: objects.into_iter().collect::<HashMap<_, _>>(),
        closure,
        dependencies,
        actor: ACTOR,
        signing_key: KEY,
        ledger: LEDGER,
        recovery_bindings: vec![(OTHER, NEWKEY)],
    }
}

fn actors() -> Vec<(u128, StoredObject)> {
    vec![(ACTOR, stored("actor", obj(vec![]))), (OTHER, stored("actor", obj(vec![])))]
}

#[test]
fn grant_needs_actors_signed_by_the_granter() {
    let body = obj(vec![("granting_actor_id", id(ACTOR)), ("receiving_actor_id", id(OTHER))]);
    let ctx = context(actors(), vec![], vec![]);
    assert_eq!(authorization_grant_check(&body, &ctx), Ok(()));
    let reversed = obj(vec![("granting_actor_id", id(OTHER)), ("receiving_actor_id", id(ACTOR))]);
    assert_eq!(authorization_grant_check(&reversed, &ctx), Err(Error::InvalidLineage));
    let missing = obj(vec![("granting_actor_id", id(ACTOR)), ("receiving_actor_id", id(MISSING))]);
    assert_eq!(authorization_grant_check(&missing, &ctx), Err(Error::MissingDependency));
    let bad = obj(vec![("granting_actor_id", text("not-an-id")), ("receiving_actor_id", id(OTHER))]);
    assert_eq!(authorization_grant_check(&bad, &ctx), Err(Error::InvalidLineage));
}

#[test]
fn grant_predecessor_must_be_a_causal_grant_of_the_same_granter() {
    let body = obj(vec![
        ("granting_actor_id", id(ACTOR)),
        ("receiving_actor_id", id(OTHER)),
        ("predecessor_grant_id", id(GRANT)),
    ]);
    let mut objects = actors();
    objects.push((GRANT, stored("authorization_grant", obj(vec![("granting_actor_id", id(ACTOR))]))));
    assert_eq!(authorization_grant_check(&body, &context(objects, vec![GRANT], vec![])), Ok(()));
    let mut objects = actors();
    objects.push((GRANT, stored("authorization_grant", obj(vec![("granting_actor_id", id(ACTOR))]))));
    assert_eq!(authorization_grant_check(&body, &context(objects, vec![], vec![])), Err(Error::InvalidLineage));
    let mut objects = actors();
    objects.push((GRANT, stored("authorization_grant", text("not an object"))));
    assert_eq!(authorization_grant_check(&body, &context(objects, vec![GRANT], vec![])), Err(Error::Metadata));
    let null_predecessor = obj(vec![
        ("granting_actor_id", id(ACTOR)),
        ("receiving_actor_id", id(OTHER)),
        ("predecessor_grant_id", JsonValue::Null),
    ]);
    assert_eq!(authorization_grant_check(&null_predecessor, &context(actors(), vec![], vec![])), Ok(()));
}

#[test]
fn revocations_and_authorization_references() {
    let mut objects = actors();
    objects.push((GRANT, stored("authorization_grant", obj(vec![]))));
    let body = obj(vec![("revoked_grant_id", id(GRANT)), ("authorization_ref", id(GRANT))]);
    let ctx = context(objects, vec![GRANT], vec![GRANT]);
    assert_eq!(authorization_revocation_check(&body, &ctx), Ok(()));
    assert_eq!(authorization_reference_check(&body, &ctx), Ok(()));
    assert_eq!(delegation_revocation_check(&obj(vec![("revoked_delegation_id", id(GRANT))]), &ctx), Err(Error::InvalidLineage));
    let indirect = CheckContext { dependencies: vec![], ..ctx };
    assert_eq!(authorization_reference_check(&body, &indirect), Err(Error::InvalidLineage));
    assert_eq!(authorization_reference_check(&obj(vec![("authorization_ref", JsonValue::Null)]), &indirect), Ok(()));
}

#[test]
fn delegation_and_actor_retirement() {
    let ctx = context(actors(), vec![], vec![]);
    assert_eq!(delegation_check(&obj(vec![("delegator_actor_id", id(ACTOR)), ("delegatee_actor_id", id(OTHER))]), &ctx), Ok(()));
    assert_eq!(
        delegation_check(&obj(vec![("delegator_actor_id", id(ACTOR)), ("delegatee_actor_id", id(ACTOR))]), &ctx),
        Err(Error::InvalidLineage)
    );
    assert_eq!(actor_lifecycle_check(&obj(vec![("affected_actor_id", id(OTHER)), ("operation", text("retire"))]), &ctx), Ok(()));
    assert_eq!(
        actor_lifecycle_check(&obj(vec![("affected_actor_id", id(OTHER)), ("operation", text("revive"))]), &ctx),
        Err(Error::InvalidLineage)
    );
}

fn proposition_objects(parent: JsonValue, deliberation_revision: u128) -> Vec<(u128, StoredObject)> {
    vec![
        (PROP, stored("proposition", obj(vec![("purpose", text("knowledge"))]))),
        (REV, stored("revision", obj(vec![("proposition_id", id(PROP)), ("parent_revision_id", parent), ("content", obj(vec![("hash", text("aa"))]))]))),
        (DELIB, stored("deliberation", obj(vec![("proposition_id", id(PROP)), ("revision_id", id(deliberation_revision))]))),
    ]
}

#[test]
fn proposition_starts_with_a_parentless_revision_and_its_deliberation() {
    let body = obj(vec![
        ("proposition_id", id(PROP)),
        ("initial_revision_id", id(REV)),
        ("initial_deliberation_id", id(DELIB)),
    ]);
    assert_eq!(proposition_check(&body, &context(proposition_objects(JsonValue::Null, REV), vec![], vec![])), Ok(()));
    assert_eq!(
        proposition_check(&body, &context(proposition_objects(id(REV2), REV), vec![], vec![])),
        Err(Error::InvalidLineage)
    );
    assert_eq!(
        proposition_check(&body, &context(proposition_objects(JsonValue::Null, REV2), vec![], vec![])),
        Err(Error::InvalidLineage)
    );
}

#[test]
fn revision_parent_must_change_the_content() {
    let objects = proposition_objects(JsonValue::Null, REV);
    let same = obj(vec![
        ("proposition_id", id(PROP)),
        ("parent_revision_id", id(REV)),
        ("reconciliation_manifest", JsonValue::Null),
        ("content", obj(vec![("hash", text("aa"))])),
    ]);
    assert_eq!(revision_lineage_check(&same, &context(objects, vec![], vec![])), Err(Error::InvalidLineage));
    let changed = obj(vec![
        ("proposition_id", id(PROP)),
        ("parent_revision_id", id(REV)),
        ("content", obj(vec![("hash", text("bb"))])),
    ]);
    let objects = proposition_objects(JsonValue::Null, REV);
    assert_eq!(revision_lineage_check(&changed, &context(objects, vec![], vec![])), Ok(()));
    let with_manifest = obj(vec![("proposition_id", id(PROP)), ("reconciliation_manifest", obj(vec![]))]);
    let objects = proposition_objects(JsonValue::Null, REV);
    assert_eq!(revision_lineage_check(&with_manifest, &context(objects, vec![], vec![])), Err(Error::InvalidLineage));
}

#[test]
fn deliberation_and_settlement_targets() {
    let objects = proposition_objects(JsonValue::Null, REV);
    let ctx = context(objects, vec![], vec![]);
    assert_eq!(deliberation_target_check(&obj(vec![("proposition_id", id(PROP)), ("revision_id", id(REV))]), &ctx), Ok(()));
    assert_eq!(
        deliberation_target_check(
            &obj(vec![("proposition_id", id(PROP)), ("revision_id", id(REV)), ("roster_governance", obj(vec![]))]),
            &ctx
        ),
        Err(Error::InvalidLineage)
    );
    assert_eq!(settlement_target_check(&obj(vec![("deliberation_id", id(DELIB)), ("revision_id", id(REV))]), &ctx), Ok(()));
    assert_eq!(
        settlement_target_check(&obj(vec![("deliberation_id", id(DELIB)), ("revision_id", id(REV2))]), &ctx),
        Err(Error::InvalidLineage)
    );
}

fn key_objects() -> Vec<(u128, StoredObject)> {
    let mut objects = actors();
    objects.push((KEY, stored("key", obj(vec![("purpose", text("signing"))]))));
    objects.push((NEWKEY, stored("key", obj(vec![("purpose", text("signing"))]))));
    objects.push((POLICY, stored("recovery_policy", obj(vec![("actor_id", id(OTHER)), ("recovery_key_id", id(KEY))]))));
    objects
}

#[test]
fn key_lifecycle_operations() {
    let rotate = obj(vec![
        ("affected_actor_id", id(OTHER)),
        ("old_key_id", id(KEY)),
        ("operation", text("rotate")),
        ("new_key_id", id(NEWKEY)),
    ]);
    assert_eq!(key_lifecycle_check(&rotate, &context(key_objects(), vec![], vec![])), Ok(()));
    let revoke_with_key = obj(vec![
        ("affected_actor_id", id(OTHER)),
        ("old_key_id", id(KEY)),
        ("operation", text("revoke")),
        ("new_key_id", id(NEWKEY)),
    ]);
    assert_eq!(key_lifecycle_check(&revoke_with_key, &context(key_objects(), vec![], vec![])), Err(Error::InvalidLineage));
    let recover = obj(vec![
        ("affected_actor_id", id(OTHER)),
        ("old_key_id", id(KEY)),
        ("operation", text("recover")),
        ("new_key_id", id(NEWKEY)),
    ]);
    assert_eq!(key_lifecycle_check(&recover, &context(key_objects(), vec![POLICY], vec![])), Ok(()));
    assert_eq!(key_lifecycle_check(&recover, &context(key_objects(), vec![], vec![])), Err(Error::InvalidLineage));
}

#[test]
fn key_binding_purpose_and_namespace_supersession() {
    let mut objects = key_objects();
    objects.push((GRANT, stored("namespace_assertion", obj(vec![
        ("namespace", text("example.test")),
        ("target_type", text("ledger")),
        ("target_id", id(LEDGER)),
    ]))));
    let ctx = context(objects, vec![GRANT], vec![]);
    let binding = obj(vec![("actor_id", id(ACTOR)), ("key_id", id(KEY)), ("permitted_purpose", text("signing"))]);
    assert_eq!(actor_key_binding_check(&binding, &ctx), Ok(()));
    let wrong = obj(vec![("actor_id", id(ACTOR)), ("key_id", id(KEY)), ("permitted_purpose", text("recovery"))]);
    assert_eq!(actor_key_binding_check(&wrong, &ctx), Err(Error::InvalidLineage));
    let assertion = obj(vec![
        ("naming_authority_actor_id", id(ACTOR)),
        ("namespace", text("example.test")),
        ("target_type", text("ledger")),
        ("target_id", id(LEDGER)),
        ("supersedes", JsonValue::Array(vec![id(GRANT)])),
    ]);
    assert_eq!(namespace_assertion_check(&assertion, &ctx), Ok(()));
    let other_namespace = obj(vec![
        ("naming_authority_actor_id", id(ACTOR)),
        ("namespace", text("other.test")),
        ("target_type", text("ledger")),
        ("target_id", id(LEDGER)),
        ("supersedes", JsonValue::Array(vec![id(GRANT)])),
    ]);
    assert_eq!(namespace_assertion_check(&other_namespace, &ctx), Err(Error::InvalidLineage));
    let other_ledger = obj(vec![
        ("naming_authority_actor_id", id(ACTOR)),
        ("namespace", text("example.test")),
        ("target_type", text("ledger")),
        ("target_id", id(PROP)),
    ]);
    assert_eq!(namespace_assertion_check(&other_ledger, &ctx), Err(Error::InvalidLineage));
}

#[test]
fn recovery_policy_succession() {
    let mut objects = key_objects();
    objects.retain(|(id, _)| *id != NEWKEY);
    objects.push((NEWKEY, stored("key", obj(vec![("purpose", text("recovery"))]))));
    let first = obj(vec![("actor_id", id(OTHER)), ("recovery_key_id", id(NEWKEY)), ("predecessor_policy_id", JsonValue::Null)]);
    // POLICY (an earlier policy of OTHER) is in the closure, so a first policy is refused
    let ctx = context(objects, vec![POLICY], vec![]);
    assert_eq!(recovery_policy_check(&first, &ctx), Err(Error::InvalidLineage));
    let next = obj(vec![("actor_id", id(OTHER)), ("recovery_key_id", id(NEWKEY)), ("predecessor_policy_id", id(POLICY))]);
    assert_eq!(recovery_policy_check(&next, &ctx), Ok(()));
    let empty_closure = CheckContext { closure: vec![], ..ctx };
    assert_eq!(recovery_policy_check(&first, &empty_closure), Ok(()));
    let unbound = obj(vec![("actor_id", id(ACTOR)), ("recovery_key_id", id(NEWKEY))]);
    assert_eq!(recovery_policy_check(&unbound, &empty_closure), Err(Error::InvalidLineage));
}

#[test]
fn cross_object_rules_by_type() {
    let ctx = context(actors(), vec![], vec![]);
    let delegation = obj(vec![("delegator_actor_id", id(ACTOR)), ("delegatee_actor_id", id(ACTOR))]);
    assert_eq!(cross_object_check("delegation", &delegation, &ctx), Some(Err(Error::InvalidLineage)));
    assert_eq!(cross_object_check("application_relationship", &obj(vec![("shared", JsonValue::Bool(false))]), &ctx), Some(Err(Error::PolicyRejected)));
    assert_eq!(cross_object_check("application_relationship", &obj(vec![("shared", JsonValue::Bool(true))]), &ctx), Some(Ok(())));
    assert_eq!(cross_object_check("actor", &obj(vec![]), &ctx), Some(Ok(())));
    assert_eq!(cross_object_check("decision", &obj(vec![]), &ctx), None);
}

#[test]
fn purposes_compare_as_json_values() {
    let mut objects = key_objects();
    objects.retain(|(id, _)| *id != KEY);
    let purpose = obj(vec![("b", JsonValue::Number("1".to_string())), ("a", JsonValue::Array(vec![text("x")]))]);
    objects.push((KEY, stored("key", obj(vec![("purpose", purpose)]))));
    let ctx = context(objects, vec![], vec![]);
    let same = obj(vec![("a", JsonValue::Array(vec![text("x")])), ("b", JsonValue::Number("1".to_string()))]);
    let binding = obj(vec![("actor_id", id(ACTOR)), ("key_id", id(KEY)), ("permitted_purpose", same)]);
    assert_eq!(actor_key_binding_check(&binding, &ctx), Ok(()));
    let other = obj(vec![("a", JsonValue::Array(vec![text("y")])), ("b", JsonValue::Number("1".to_string()))]);
    let binding = obj(vec![("actor_id", id(ACTOR)), ("key_id", id(KEY)), ("permitted_purpose", other)]);
    assert_eq!(actor_key_binding_check(&binding, &ctx), Err(Error::InvalidLineage));
}
