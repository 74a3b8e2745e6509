use fact_store::consensus::{
    consensus_object, decision_of, deliberation_changes, deliberation_decisions, deliberation_settlements, initial_participants_of, participant_change_of,
    settlement_counts_match, settlement_outcome_of, settlement_refs_of, ConsensusObject, DecisionInput, DecisionValue,
    ParticipantChange, ParticipantOperation, SettlementDecisionRef,
};
use fact_store::effective::SettledOutcome;
use fact_store::error::Error;
use fact_store::json::JsonValue;

fn text(s: &str) -> JsonValue {
    JsonValue::Text(s.to_string())
}

fn id(v: u128) -> JsonValue {
    text(&uuid::Uuid::from_u128(v).to_string())
}

fn obj(members: Vec<(&str, JsonValue)>) -> JsonValue {
    JsonValue::Object(members.into_iter().map(|(k, v)| (k.to_string(), v)).collect())
}

#[test]
fn participant_change_reads_predecessor_when_named() {
    let body = obj(vec![
        ("deliberation_id", id(1)),
        ("participant_actor_id", id(2)),
        ("operation", text("leave")),
        ("predecessor_change_id", id(3)),
    ]);
    assert_eq!(
        participant_change_of(9, &body, Error::InvalidLineage),
        Ok((
            1,
            ParticipantChange {
                id: 9,
                actor: 2,
                operation: ParticipantOperation::Leave,
                predecessors: vec![3],
            }
        ))
    );
    let null_predecessor = obj(vec![
        ("deliberation_id", id(1)),
        ("participant_actor_id", id(2)),
        ("operation", text("join")),
        ("predecessor_change_id", JsonValue::Null),
    ]);
    let (_, change) = participant_change_of(9, &null_predecessor, Error::StateProjected).unwrap();
    assert!(change.predecessors.is_empty());
    assert_eq!(change.operation, ParticipantOperation::Join);
}

#[test]
fn participant_change_refusals_use_the_given_error() {
    let bad_operation = obj(vec![
        ("deliberation_id", id(1)),
        ("participant_actor_id", id(2)),
        ("operation", text("pause")),
    ]);
    assert_eq!(participant_change_of(9, &bad_operation, Error::InvalidLineage), Err(Error::InvalidLineage));
    assert_eq!(participant_change_of(9, &bad_operation, Error::StateProjected), Err(Error::StateProjected));
    let bad_predecessor = obj(vec![
        ("deliberation_id", id(1)),
        ("participant_actor_id", id(2)),
        ("operation", text("join")),
        ("predecessor_change_id", text("x")),
    ]);
    assert_eq!(participant_change_of(9, &bad_predecessor, Error::InvalidLineage), Err(Error::InvalidLineage));
}

#[test]
fn decision_reads_superseded_decisions() {
    let body = obj(vec![
        ("deliberation_id", id(1)),
        ("participant_actor_id", id(2)),
        ("value", text("accepted")),
        ("supersedes_decision_ids", JsonValue::Array(vec![id(4), id(5)])),
    ]);
    assert_eq!(
        decision_of(8, &body, Error::StateProjected),
        Ok((
            1,
            DecisionInput { id: 8, participant: 2, value: DecisionValue::Accepted, supersedes: vec![4, 5] }
        ))
    );
    let missing_list = obj(vec![
        ("deliberation_id", id(1)),
        ("participant_actor_id", id(2)),
        ("value", text("rejected")),
    ]);
    assert_eq!(decision_of(8, &missing_list, Error::StateProjected), Err(Error::StateProjected));
}

#[test]
fn settlement_members_are_read() {
    let body = obj(vec![
        ("outcome", text("rejected")),
        (
            "decision_refs",
            JsonValue::Array(vec![obj(vec![
                ("decision_id", id(6)),
                ("participant_actor_id", id(2)),
                ("content_hash", text("sha256:ab")),
            ])]),
        ),
    ]);
    assert_eq!(settlement_outcome_of(&body, Error::InvalidLineage), Ok(SettledOutcome::Rejected));
    assert_eq!(
        settlement_refs_of(&body, Error::InvalidLineage),
        Ok(vec![SettlementDecisionRef { decision_id: 6, participant: 2, content_hash: "sha256:ab".to_string() }])
    );
    let bad = obj(vec![("outcome", text("maybe")), ("decision_refs", JsonValue::Array(vec![id(6)]))]);
    assert_eq!(settlement_outcome_of(&bad, Error::InvalidLineage), Err(Error::InvalidLineage));
    assert_eq!(settlement_refs_of(&bad, Error::InvalidLineage), Err(Error::InvalidLineage));
}

#[test]
fn consensus_object_reads_deliberations_and_refuses_other_types() {
    let document = obj(vec![(
        "body",
        obj(vec![
            ("deliberation_id", id(1)),
            ("proposition_id", id(2)),
            ("revision_id", id(3)),
            (
                "initial_participants",
                JsonValue::Array(vec![obj(vec![("actor_id", id(4))]), obj(vec![("actor_id", id(5))])]),
            ),
        ]),
    )]);
    assert_eq!(
        consensus_object(1, "deliberation", &document),
        Ok(ConsensusObject::Deliberation { deliberation: 1, proposition: 2, revision: 3, participants: vec![4, 5] })
    );
    assert_eq!(consensus_object(1, "revision", &document), Err(Error::StateProjected));
    let no_body = obj(vec![]);
    assert_eq!(consensus_object(1, "deliberation", &no_body), Err(Error::StateProjected));
    let body = match &document {
        JsonValue::Object(members) => &members[0].1,
        _ => unreachable!(),
    };
    assert_eq!(initial_participants_of(body, Error::InvalidLineage), Ok(vec![4, 5]));
}

#[test]
fn settlement_counts_are_compared_with_the_witness() {
    let number = |n: &str| JsonValue::Number(n.to_string());
    let body = obj(vec![
        ("participant_count", number("3")),
        ("decided_count", number("2")),
        ("accepted_count", number("2")),
        ("rejected_count", number("0")),
    ]);
    assert!(settlement_counts_match(&body, 3, 2, 2, 0));
    assert!(!settlement_counts_match(&body, 3, 2, 1, 1));
    let fractional = obj(vec![
        ("participant_count", number("3.0")),
        ("decided_count", number("2")),
        ("accepted_count", number("2")),
        ("rejected_count", number("0")),
    ]);
    assert!(!settlement_counts_match(&fractional, 3, 2, 2, 0));
    assert!(!settlement_counts_match(&obj(vec![]), 0, 0, 0, 0));
}

#[test]
fn consensus_inputs_are_grouped_by_deliberation() {
    let change = |id: u128, d: u128| ConsensusObject::ParticipantChange {
        deliberation: d,
        change: ParticipantChange { id, actor: 7, operation: ParticipantOperation::Join, predecessors: vec![] },
    };
    let decision = |id: u128, d: u128| ConsensusObject::Decision {
        deliberation: d,
        decision: DecisionInput { id, participant: 7, value: DecisionValue::Accepted, supersedes: vec![1] },
    };
    let settlement = |id: u128, d: u128, r: u128| ConsensusObject::Settlement {
        id,
        deliberation: d,
        revision: r,
        outcome: SettledOutcome::Accepted,
        refs: vec![SettlementDecisionRef { decision_id: 3, participant: 7, content_hash: "h".to_string() }],
    };
    let objects = vec![
        change(1, 100),
        decision(2, 100),
        change(3, 200),
        settlement(4, 100, 50),
        decision(5, 100),
        settlement(6, 100, 51),
        change(7, 100),
    ];
    let ids: Vec<u128> = deliberation_changes(&objects, 100).iter().map(|c| c.id).collect();
    assert_eq!(ids, vec![1, 7]);
    let ids: Vec<u128> = deliberation_decisions(&objects, 100).iter().map(|d| d.id).collect();
    assert_eq!(ids, vec![2, 5]);
    assert_eq!(deliberation_decisions(&objects, 100)[0].supersedes, vec![1]);
    let settled = deliberation_settlements(&objects, 100, 50);
    assert_eq!(settled.len(), 1);
    assert_eq!(settled[0].0, 4);
    assert_eq!(settled[0].2[0].content_hash, "h");
    assert!(deliberation_settlements(&objects, 200, 50).is_empty());
}
