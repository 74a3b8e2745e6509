use std::collections::HashMap;

use fact_store::activity::{ConsensusRecord, DeliberationLink, RevisionLink};
use fact_store::propositions::{
    indexed_proposition_rows_match, initial_deliberation_id, initial_revision_id, proposition_list_row,
    push_page_values, EffectiveProjected, PropositionListProjected,
};

fn row() -> PropositionListProjected {
    PropositionListProjected {
        proposition_id: 1,
        status: "accepted".to_string(),
        revision_id: Some(2),
        deliberation_id: Some(3),
        settlement_id: None,
        effective_status: "accepted".to_string(),
        latest_revision_id: Some(2),
        latest_revision_status: "accepted".to_string(),
        pending_revision_id: None,
        pending_deliberation_id: None,
        pending_participant_count: 0,
        current_actor_pending: false,
        has_pending_revision: false,
        summary_text: Some("summary".to_string()),
        summary_revision_payload: None,
        withdrawal_status: "active".to_string(),
        archival_status: "active".to_string(),
    }
}

#[test]
fn rows_match_ignores_identity_and_summary() {
    let indexed = row();
    let mut legacy = row();
    legacy.proposition_id = 9;
    legacy.summary_text = None;
    legacy.summary_revision_payload = Some(vec![1, 2]);
    assert!(indexed_proposition_rows_match(&indexed, &legacy));
}

#[test]
fn rows_match_notices_each_compared_field() {
    let indexed = row();
    let mut legacy = row();
    legacy.settlement_id = Some(4);
    assert!(!indexed_proposition_rows_match(&indexed, &legacy));
    let mut legacy = row();
    legacy.pending_participant_count = 2;
    assert!(!indexed_proposition_rows_match(&indexed, &legacy));
    let mut legacy = row();
    legacy.archival_status = "archived".to_string();
    assert!(!indexed_proposition_rows_match(&indexed, &legacy));
    let mut legacy = row();
    legacy.current_actor_pending = true;
    assert!(!indexed_proposition_rows_match(&indexed, &legacy));
}

#[test]
fn page_values_follow_the_limit() {
    let mut values = vec![7];
    push_page_values(&mut values, 20, None);
    assert_eq!(values, vec![7]);
    push_page_values(&mut values, 20, Some(10));
    assert_eq!(values, vec![7, 10, 20]);
    let mut values = Vec::new();
    push_page_values(&mut values, usize::MAX, Some(usize::MAX));
    assert_eq!(values, vec![i64::MAX, i64::MAX]);
}

#[test]
fn initial_revision_prefers_the_first_root() {
    let revisions = [
        RevisionLink { revision_id: 9, parent_revision_id: Some(4) },
        RevisionLink { revision_id: 4, parent_revision_id: None },
        RevisionLink { revision_id: 5, parent_revision_id: None },
    ];
    assert_eq!(initial_revision_id(&revisions), Some(4));
    let no_root = [
        RevisionLink { revision_id: 9, parent_revision_id: Some(4) },
        RevisionLink { revision_id: 6, parent_revision_id: Some(9) },
    ];
    assert_eq!(initial_revision_id(&no_root), Some(6));
    assert_eq!(initial_revision_id(&[]), None);
    let deliberations = [
        DeliberationLink { deliberation_id: 30, revision_id: 9, settled: false },
        DeliberationLink { deliberation_id: 31, revision_id: 4, settled: true },
        DeliberationLink { deliberation_id: 32, revision_id: 4, settled: false },
    ];
    assert_eq!(initial_deliberation_id(&deliberations, 4), Some(31));
    assert_eq!(initial_deliberation_id(&deliberations, 5), None);
}

#[test]
fn list_row_without_state_uses_defaults_and_initial_objects() {
    let revisions = [RevisionLink { revision_id: 4, parent_revision_id: None }];
    let deliberations = [DeliberationLink { deliberation_id: 31, revision_id: 4, settled: false }];
    let consensus: HashMap<u128, ConsensusRecord> = HashMap::new();
    let active: HashMap<u128, Vec<u128>> = HashMap::new();
    let decisions: HashMap<u128, Vec<u128>> = HashMap::new();
    let mut payloads = HashMap::new();
    payloads.insert(4u128, vec![1u8, 2, 3]);
    let row = proposition_list_row(1, None, &revisions, &deliberations, &consensus, &active, &decisions, None, &payloads);
    assert_eq!(row.status, "pending");
    assert_eq!(row.effective_status, "pending");
    assert_eq!(row.revision_id, Some(4));
    assert_eq!(row.deliberation_id, Some(31));
    assert_eq!(row.settlement_id, None);
    assert_eq!(row.withdrawal_status, "active");
    assert_eq!(row.archival_status, "visible");
    assert_eq!(row.summary_revision_payload, Some(vec![1, 2, 3]));
    assert_eq!(row.summary_text, None);
}

#[test]
fn list_row_follows_the_effective_state() {
    let revisions = [
        RevisionLink { revision_id: 4, parent_revision_id: None },
        RevisionLink { revision_id: 5, parent_revision_id: Some(4) },
    ];
    let deliberations = [
        DeliberationLink { deliberation_id: 31, revision_id: 4, settled: true },
        DeliberationLink { deliberation_id: 32, revision_id: 5, settled: true },
    ];
    let state = EffectiveProjected {
        proposition_id: 1,
        status: "accepted".to_string(),
        revision_id: Some(5),
        deliberation_id: Some(32),
        settlement_id: Some(40),
        withdrawal_status: "withdrawn".to_string(),
        archival_status: "archived".to_string(),
        reason: "settled-accepted".to_string(),
    };
    let consensus: HashMap<u128, ConsensusRecord> = HashMap::new();
    let active: HashMap<u128, Vec<u128>> = HashMap::new();
    let decisions: HashMap<u128, Vec<u128>> = HashMap::new();
    let payloads: HashMap<u128, Vec<u8>> = HashMap::new();
    let row = proposition_list_row(1, Some(&state), &revisions, &deliberations, &consensus, &active, &decisions, None, &payloads);
    assert_eq!(row.status, "accepted");
    assert_eq!(row.revision_id, Some(5));
    assert_eq!(row.deliberation_id, Some(32));
    assert_eq!(row.settlement_id, Some(40));
    assert_eq!(row.withdrawal_status, "withdrawn");
    assert_eq!(row.archival_status, "archived");
    assert_eq!(row.summary_revision_payload, None);
}
