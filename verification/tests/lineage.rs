use fact_store::error::Error;
use fact_store::lifecycle::LifecycleTransition;
use fact_store::json::JsonValue;
use fact_store::lineage::{
    authorization_ref_of, standing_change_intent, standing_change_rule, AuthorizationRef, StandingChange,
    dimension_operation_valid, key_lifecycle_operation, manifest_matches_purpose, policy_succession_valid,
    proposition_lifecycle_predecessors_valid, KeyLifecycleOperation,
};

#[test]
fn key_lifecycle_operations_and_new_keys() {
    assert_eq!(key_lifecycle_operation("rotate", Some(1)), Ok(KeyLifecycleOperation::Rotate));
    assert_eq!(key_lifecycle_operation("recover", Some(1)), Ok(KeyLifecycleOperation::Recover));
    assert_eq!(key_lifecycle_operation("revoke", None), Ok(KeyLifecycleOperation::Revoke));
    assert_eq!(key_lifecycle_operation("rotate", None), Err(Error::InvalidLineage));
    assert_eq!(key_lifecycle_operation("revoke", Some(1)), Err(Error::InvalidLineage));
    assert_eq!(key_lifecycle_operation("retire", None), Err(Error::InvalidLineage));
}

#[test]
fn recovery_policies_form_a_chain() {
    assert!(policy_succession_valid(&vec![], None, &vec![]));
    assert!(!policy_succession_valid(&vec![], Some(1), &vec![1]));
    let priors = vec![(1, None), (2, Some(1))];
    assert!(policy_succession_valid(&priors, Some(2), &vec![1, 2]));
    assert!(!policy_succession_valid(&priors, Some(2), &vec![1]));
    assert!(!policy_succession_valid(&priors, Some(1), &vec![1, 2]));
    assert!(!policy_succession_valid(&priors, None, &vec![1, 2]));
    let forked = vec![(1, None), (2, Some(1)), (3, Some(1))];
    assert!(!policy_succession_valid(&forked, Some(2), &vec![1, 2, 3]));
}

#[test]
fn lifecycle_dimensions_have_their_operations() {
    assert!(dimension_operation_valid("withdrawal", "withdraw"));
    assert!(dimension_operation_valid("withdrawal", "restore"));
    assert!(dimension_operation_valid("archival", "unarchive"));
    assert!(!dimension_operation_valid("archival", "withdraw"));
    assert!(!dimension_operation_valid("visibility", "archive"));
}

#[test]
fn proposition_lifecycle_step_names_the_tips() {
    let earlier = [LifecycleTransition { id: 1, operation: "withdraw".to_string(), predecessors: vec![] }];
    assert!(proposition_lifecycle_predecessors_valid(&earlier, &vec![1], &vec![1]));
    assert!(!proposition_lifecycle_predecessors_valid(&earlier, &vec![], &vec![1]));
    assert!(proposition_lifecycle_predecessors_valid(&[], &vec![], &vec![]));
}

#[test]
fn manifests_belong_to_reconciliations() {
    assert!(manifest_matches_purpose("reconciliation", true));
    assert!(manifest_matches_purpose("knowledge", false));
    assert!(!manifest_matches_purpose("knowledge", true));
    assert!(!manifest_matches_purpose("reconciliation", false));
}

fn change(id: u128, predecessor: Option<u128>, operation: &str) -> StandingChange {
    StandingChange { id, predecessor, operation: operation.to_string() }
}

#[test]
fn standing_changes_alternate_join_and_leave() {
    let none: Vec<StandingChange> = vec![];
    assert_eq!(standing_change_rule(&none, "join", None, &vec![], 5, 5, Some(AuthorizationRef::Null)), Ok(None));
    assert_eq!(standing_change_rule(&none, "leave", None, &vec![], 5, 5, Some(AuthorizationRef::Null)), Err(Error::InvalidLineage));
    let joined = vec![change(1, None, "join")];
    assert_eq!(standing_change_rule(&joined, "leave", Some(1), &vec![1], 5, 5, Some(AuthorizationRef::Null)), Ok(None));
    assert_eq!(standing_change_rule(&joined, "join", Some(1), &vec![1], 5, 5, Some(AuthorizationRef::Null)), Err(Error::InvalidLineage));
    assert_eq!(standing_change_rule(&joined, "leave", None, &vec![1], 5, 5, Some(AuthorizationRef::Null)), Err(Error::InvalidLineage));
    assert_eq!(standing_change_rule(&joined, "leave", Some(1), &vec![], 5, 5, Some(AuthorizationRef::Null)), Err(Error::InvalidLineage));
    let forked = vec![change(1, None, "join"), change(2, Some(1), "leave"), change(3, Some(1), "leave")];
    assert_eq!(standing_change_rule(&forked, "join", Some(2), &vec![1, 2, 3], 5, 5, Some(AuthorizationRef::Null)), Err(Error::InvalidLineage));
}

#[test]
fn standing_changes_by_others_need_an_authorization() {
    let none: Vec<StandingChange> = vec![];
    assert_eq!(standing_change_rule(&none, "join", None, &vec![], 5, 5, Some(AuthorizationRef::Absent)), Err(Error::InvalidLineage));
    assert_eq!(standing_change_rule(&none, "join", None, &vec![], 6, 5, Some(AuthorizationRef::Null)), Err(Error::Unauthorized));
    assert_eq!(standing_change_rule(&none, "join", None, &vec![9], 6, 5, Some(AuthorizationRef::Named(9))), Ok(Some(9)));
    assert_eq!(standing_change_rule(&none, "join", None, &vec![], 6, 5, Some(AuthorizationRef::Named(9))), Err(Error::InvalidLineage));
    assert_eq!(standing_change_rule(&none, "join", None, &vec![], 6, 5, None), Err(Error::InvalidLineage));
}

#[test]
fn standing_change_bodies_are_read() {
    let body = JsonValue::Object(vec![
        ("operation".to_string(), JsonValue::Text("leave".to_string())),
        ("predecessor_change_id".to_string(), JsonValue::Text(uuid::Uuid::from_u128(3).to_string())),
        ("authorization_ref".to_string(), JsonValue::Null),
    ]);
    assert_eq!(standing_change_intent(&body), Ok(("leave".to_string(), Some(3))));
    assert_eq!(authorization_ref_of(&body), Some(AuthorizationRef::Null));
    let bare = JsonValue::Object(vec![("operation".to_string(), JsonValue::Text("join".to_string()))]);
    assert_eq!(standing_change_intent(&bare), Ok(("join".to_string(), None)));
    assert_eq!(authorization_ref_of(&bare), Some(AuthorizationRef::Absent));
    assert_eq!(standing_change_intent(&JsonValue::Null), Err(Error::InvalidLineage));
}
