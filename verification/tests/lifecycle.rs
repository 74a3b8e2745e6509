use fact_store::json::JsonValue;
use fact_store::error::Error;
use fact_store::lifecycle::{invitation_operation_check, lifecycle_entry_of, lifecycle_predecessors_valid, lifecycle_state, lifecycle_transition_of, LifecycleColumn, LifecycleReason, LifecycleStatus, LifecycleTransition};

fn t(id: u128, op: &str, preds: &[u128]) -> LifecycleTransition {
    LifecycleTransition { id, operation: op.to_string(), predecessors: preds.to_vec() }
}

#[test]
fn single_withdraw_withdraws() {
    let s = lifecycle_state("withdrawal", &[t(1, "withdraw", &[])]).unwrap();
    assert_eq!(s.column, LifecycleColumn::Withdrawal);
    assert_eq!(s.status, LifecycleStatus::Withdrawn);
    assert_eq!(s.reason, LifecycleReason::Withdraw);
    assert_eq!((s.column.as_str(), s.status.as_str(), s.reason.as_str()), ("withdrawal_status", "withdrawn", "lifecycle-withdraw"));
}

#[test]
fn the_tip_of_the_chain_decides() {
    let s = lifecycle_state("withdrawal", &[t(2, "restore", &[1]), t(1, "withdraw", &[])]).unwrap();
    assert_eq!(s.status, LifecycleStatus::Active);
    assert_eq!(s.reason, LifecycleReason::Restore);
    let s = lifecycle_state("archival", &[t(1, "archive", &[]), t(2, "unarchive", &[1]), t(3, "archive", &[2])]).unwrap();
    assert_eq!(s.column, LifecycleColumn::Archival);
    assert_eq!(s.status, LifecycleStatus::Archived);
    let s = lifecycle_state("archival", &[t(1, "archive", &[]), t(2, "unarchive", &[1])]).unwrap();
    assert_eq!(s.status.as_str(), "visible");
}

#[test]
fn several_tips_conflict() {
    let s = lifecycle_state("withdrawal", &[t(1, "withdraw", &[]), t(2, "restore", &[]), ]).unwrap();
    assert_eq!(s.status, LifecycleStatus::Conflict);
    assert_eq!(s.reason, LifecycleReason::MultipleLifecycleTips);
    assert_eq!(s.reason.as_str(), "multiple-lifecycle-tips");
    let s = lifecycle_state("archival", &[]).unwrap();
    assert_eq!(s.status, LifecycleStatus::Conflict);
}

#[test]
fn invalid_lifecycle_chains_are_refused() {
    assert!(lifecycle_state("withdrawal", &[t(2, "restore", &[1])]).is_none());
    assert!(lifecycle_state("visibility", &[t(1, "withdraw", &[])]).is_none());
    assert!(lifecycle_state("withdrawal", &[t(1, "archive", &[])]).is_none());
    assert!(lifecycle_state("archival", &[t(1, "restore", &[])]).is_none());
}

fn lifecycle_document(body: fact_store::json::JsonValue) -> fact_store::json::JsonValue {
    fact_store::json::JsonValue::Object(vec![("body".to_string(), body)])
}

fn id_text(v: u128) -> fact_store::json::JsonValue {
    fact_store::json::JsonValue::Text(uuid::Uuid::from_u128(v).to_string())
}

#[test]
fn lifecycle_entry_reads_target_dimension_and_chain() {
    let body = JsonValue::Object(vec![
        ("proposition_id".to_string(), id_text(40)),
        ("dimension".to_string(), JsonValue::Text("archival".to_string())),
        ("operation".to_string(), JsonValue::Text("archive".to_string())),
        ("predecessor_ids".to_string(), JsonValue::Array(vec![id_text(41)])),
    ]);
    let (proposition, dimension, transition) = lifecycle_entry_of(42, &lifecycle_document(body)).unwrap();
    assert_eq!(proposition, 40);
    assert_eq!(dimension, "archival");
    assert_eq!(transition.id, 42);
    assert_eq!(transition.operation, "archive");
    assert_eq!(transition.predecessors, vec![41]);
}

#[test]
fn lifecycle_transition_needs_predecessor_list() {
    let body = JsonValue::Object(vec![("operation".to_string(), JsonValue::Text("withdraw".to_string()))]);
    assert_eq!(lifecycle_transition_of(1, &lifecycle_document(body)).err(), Some(Error::StateProjected));
    let not_object = lifecycle_document(JsonValue::Null);
    assert_eq!(lifecycle_transition_of(1, &not_object).err(), Some(Error::StateProjected));
}

#[test]
fn invitation_decline_is_for_the_invited_actor() {
    assert_eq!(invitation_operation_check("decline", 5, 5), Ok(()));
    assert_eq!(invitation_operation_check("decline", 4, 5), Err(Error::Unauthorized));
    assert_eq!(invitation_operation_check("revoke", 4, 5), Ok(()));
    assert_eq!(invitation_operation_check("supersede", 4, 5), Ok(()));
    assert_eq!(invitation_operation_check("accept", 5, 5), Err(Error::InvalidLineage));
}

#[test]
fn lifecycle_step_names_exactly_the_tips() {
    let earlier = [t(1, "supersede", &[]), t(2, "supersede", &[1]), t(3, "supersede", &[1])];
    let closure = vec![1, 2, 3];
    assert!(lifecycle_predecessors_valid(&earlier, &vec![3, 2], &closure));
    assert!(!lifecycle_predecessors_valid(&earlier, &vec![2], &closure));
    assert!(!lifecycle_predecessors_valid(&earlier, &vec![1, 2, 3], &closure));
    assert!(!lifecycle_predecessors_valid(&earlier, &vec![2, 3], &vec![1, 2]));
    assert!(lifecycle_predecessors_valid(&[], &vec![], &vec![]));
}

#[test]
fn each_step_on_the_tip_decides_the_dimension() {
    let mut chain = vec![t(1, "withdraw", &[])];
    assert_eq!(lifecycle_state("withdrawal", &chain).unwrap().status, LifecycleStatus::Withdrawn);
    chain.push(t(2, "restore", &[1]));
    assert_eq!(lifecycle_state("withdrawal", &chain).unwrap().status, LifecycleStatus::Active);
    chain.push(t(3, "withdraw", &[2]));
    assert_eq!(lifecycle_state("withdrawal", &chain).unwrap().status, LifecycleStatus::Withdrawn);
    chain.push(t(4, "restore", &[2]));
    assert_eq!(lifecycle_state("withdrawal", &chain).unwrap().status, LifecycleStatus::Conflict);
}
