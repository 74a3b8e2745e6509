use std::collections::HashMap;

use fact_store::authority::{action_descriptor, parse_capability, parse_scope, selection_authority_check, Capability, Scope, Target};
use fact_store::error::Error;
use fact_store::json::JsonValue;

fn text(s: &str) -> JsonValue {
    JsonValue::Text(s.to_string())
}

fn id(v: u128) -> JsonValue {
    text(&uuid::Uuid::from_u128(v).to_string())
}

fn obj(members: Vec<(&str, JsonValue)>) -> JsonValue {
    JsonValue::Object(members.into_iter().map(|(k, v)| (k.to_string(), v)).collect())
}

fn fresh() -> u128 {
    uuid::Uuid::now_v7().as_u128()
}

#[test]
fn action_descriptor_separates_comments_and_participant_changes() {
    let ledger = fresh();
    let proposition = fresh();
    let revision = fresh();
    let deliberation = fresh();
    let actor = fresh();
    let action = fresh();
    let deliberation_value = obj(vec![(
        "body",
        obj(vec![("proposition_id", id(proposition)), ("revision_id", id(revision))]),
    )]);
    let mut closure = HashMap::new();
    closure.insert(deliberation, deliberation_value);

    let comment = obj(vec![("id", id(action)), ("body", obj(vec![("deliberation_id", id(deliberation))]))]);
    let (capability, _, _) = action_descriptor("deliberation_comment", &comment, &closure, ledger)
        .unwrap()
        .unwrap();
    assert_eq!(capability, Capability::Comment);

    let self_join = obj(vec![
        ("id", id(action)),
        ("actor_id", id(actor)),
        (
            "body",
            obj(vec![
                ("deliberation_id", id(deliberation)),
                ("participant_actor_id", id(actor)),
                ("operation", text("join")),
                ("authorization_ref", JsonValue::Null),
            ]),
        ),
    ]);
    assert!(action_descriptor("deliberation_participant_change", &self_join, &closure, ledger)
        .unwrap()
        .is_none());

    let structural = obj(vec![
        ("id", id(action)),
        ("actor_id", id(actor)),
        (
            "body",
            obj(vec![
                ("deliberation_id", id(deliberation)),
                ("participant_actor_id", id(actor)),
                ("operation", text("leave")),
                ("authorization_ref", id(fresh())),
            ]),
        ),
    ]);
    let (capability, target, _) =
        action_descriptor("deliberation_participant_change", &structural, &closure, ledger)
            .unwrap()
            .unwrap();
    assert_eq!(capability, Capability::Deliberate);
    assert!(matches!(target, Target::Deliberation { .. }));
}

#[test]
fn action_descriptor_targets_and_errors() {
    let ledger = 1;
    let closure = HashMap::new();
    let proposition = obj(vec![("id", id(9)), ("body", obj(vec![]))]);
    assert_eq!(
        action_descriptor("proposition", &proposition, &closure, ledger).unwrap(),
        Some((Capability::Propose, Target::Ledger(1), false))
    );
    let revision = obj(vec![
        ("id", id(9)),
        ("body", obj(vec![("proposition_id", id(2)), ("revision_id", id(3))])),
    ]);
    assert_eq!(
        action_descriptor("revision", &revision, &closure, ledger).unwrap(),
        Some((Capability::Propose, Target::Revision { ledger: 1, proposition: 2, revision: 3 }, false))
    );
    assert_eq!(
        action_descriptor("deliberation", &revision, &closure, ledger).unwrap(),
        Some((Capability::Deliberate, Target::Revision { ledger: 1, proposition: 2, revision: 3 }, false))
    );
    let grant = obj(vec![("id", id(9)), ("body", obj(vec![]))]);
    assert_eq!(
        action_descriptor("delegation", &grant, &closure, ledger).unwrap(),
        Some((Capability::Admin, Target::Administration { ledger: 1, capability: Capability::Admin }, true))
    );
    assert_eq!(action_descriptor("genesis", &grant, &closure, ledger).unwrap(), None);
    let lifecycle = obj(vec![
        ("id", id(9)),
        ("body", obj(vec![("operation", text("archive")), ("proposition_id", id(2))])),
    ]);
    assert_eq!(
        action_descriptor("proposition_lifecycle", &lifecycle, &closure, ledger).unwrap(),
        Some((Capability::Archive, Target::Proposition { ledger: 1, proposition: 2 }, false))
    );
    let namespace = obj(vec![("id", id(9)), ("body", obj(vec![("namespace", text("example.test"))]))]);
    assert_eq!(
        action_descriptor("namespace_assertion", &namespace, &closure, ledger).unwrap(),
        Some((Capability::Admin, Target::Namespace("example.test".to_string()), true))
    );
    let retire_self = obj(vec![
        ("id", id(9)),
        ("actor_id", id(4)),
        ("body", obj(vec![("affected_actor_id", id(4)), ("authorization_ref", JsonValue::Null)])),
    ]);
    assert_eq!(action_descriptor("actor_lifecycle", &retire_self, &closure, ledger).unwrap(), None);
    let retire_other = obj(vec![
        ("id", id(9)),
        ("actor_id", id(5)),
        ("body", obj(vec![("affected_actor_id", id(4)), ("authorization_ref", JsonValue::Null)])),
    ]);
    assert_eq!(
        action_descriptor("actor_lifecycle", &retire_other, &closure, ledger).unwrap(),
        Some((Capability::Admin, Target::Actor { ledger: 1, actor: 4 }, true))
    );
    let decline = obj(vec![("id", id(9)), ("body", obj(vec![("operation", text("decline"))]))]);
    assert_eq!(action_descriptor("invitation_lifecycle", &decline, &closure, ledger).unwrap(), None);

    // errors
    let no_body = obj(vec![("id", id(9))]);
    assert_eq!(action_descriptor("proposition", &no_body, &closure, ledger), Err(Error::Metadata));
    let bad_id = obj(vec![("id", text("nope")), ("body", obj(vec![]))]);
    assert_eq!(action_descriptor("proposition", &bad_id, &closure, ledger), Err(Error::InvalidLineage));
    let bad_value = obj(vec![
        ("id", id(9)),
        ("body", obj(vec![("deliberation_id", id(6)), ("value", text("maybe"))])),
    ]);
    assert_eq!(action_descriptor("decision", &bad_value, &closure, ledger), Err(Error::InvalidLineage));
    let missing_deliberation = obj(vec![
        ("id", id(9)),
        ("body", obj(vec![("deliberation_id", id(6)), ("value", text("accepted"))])),
    ]);
    assert_eq!(
        action_descriptor("decision", &missing_deliberation, &closure, ledger),
        Err(Error::InvalidLineage)
    );
}

#[test]
fn capabilities_and_scopes_parse() {
    assert_eq!(parse_capability(&text("propose")), Ok(Capability::Propose));
    assert_eq!(parse_capability(&text("admin")), Ok(Capability::Admin));
    assert_eq!(parse_capability(&text("rule")), Err(Error::InvalidLineage));
    assert_eq!(parse_capability(&JsonValue::Null), Err(Error::InvalidLineage));

    let ledger = obj(vec![("type", text("ledger"))]);
    assert_eq!(parse_scope(Some(&ledger), None), Ok(Scope::Ledger));
    let ns = obj(vec![("type", text("namespace")), ("name", text("a.b"))]);
    assert_eq!(parse_scope(Some(&ns), None), Ok(Scope::Namespace("a.b".to_string())));
    let class = obj(vec![("type", text("capability_class")), ("capability", text("invite"))]);
    assert_eq!(parse_scope(Some(&class), None), Ok(Scope::CapabilityClass(Capability::Invite)));

    let rev = obj(vec![("type", text("revision")), ("id", id(3))]);
    assert_eq!(parse_scope(Some(&rev), None), Ok(Scope::Revision(3)));
    let mut closure = HashMap::new();
    closure.insert(3u128, obj(vec![("body", obj(vec![("proposition_id", id(2))]))]));
    closure.insert(6u128, obj(vec![("body", obj(vec![("proposition_id", id(2)), ("revision_id", id(3))]))]));
    assert_eq!(parse_scope(Some(&rev), Some(&closure)), Ok(Scope::RevisionIn { revision: 3, proposition: 2 }));
    let del = obj(vec![("type", text("deliberation")), ("id", id(6))]);
    assert_eq!(
        parse_scope(Some(&del), Some(&closure)),
        Ok(Scope::DeliberationIn { deliberation: 6, proposition: 2, revision: 3 })
    );
    let unknown = obj(vec![("type", text("galaxy"))]);
    assert_eq!(parse_scope(Some(&unknown), None), Err(Error::InvalidLineage));
    assert_eq!(parse_scope(None, None), Err(Error::InvalidLineage));
}

#[test]
fn roster_selection_authority_needs_deliberate_in_scope() {
    let grant = obj(vec![
        ("receiving_actor_id", id(7)),
        ("capabilities", JsonValue::Array(vec![text("propose"), text("deliberate")])),
        ("scope", obj(vec![("type", text("proposition")), ("id", id(2))])),
    ]);
    assert_eq!(selection_authority_check(7, "authorization_grant", &grant, 2, 3, 4), Ok(()));
    assert_eq!(selection_authority_check(8, "authorization_grant", &grant, 2, 3, 4), Err(Error::Unauthorized));
    assert_eq!(selection_authority_check(7, "authorization_grant", &grant, 5, 3, 4), Err(Error::Unauthorized));
    assert_eq!(selection_authority_check(7, "revision", &grant, 2, 3, 4), Err(Error::InvalidLineage));
    let delegation = obj(vec![
        ("delegatee_actor_id", id(7)),
        ("capability", text("deliberate")),
        ("scope", obj(vec![("type", text("ledger"))])),
    ]);
    assert_eq!(selection_authority_check(7, "delegation", &delegation, 2, 3, 4), Ok(()));
    let no_scope = obj(vec![("delegatee_actor_id", id(7)), ("capability", text("deliberate"))]);
    assert_eq!(selection_authority_check(7, "delegation", &no_scope, 2, 3, 4), Err(Error::InvalidLineage));
    let wrong_capability = obj(vec![
        ("delegatee_actor_id", id(7)),
        ("capability", text("comment")),
        ("scope", obj(vec![("type", text("ledger"))])),
    ]);
    assert_eq!(selection_authority_check(7, "delegation", &wrong_capability, 2, 3, 4), Err(Error::Unauthorized));
}
