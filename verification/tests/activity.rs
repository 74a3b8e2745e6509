use std::collections::HashMap;

use fact_store::activity::{proposition_activity_from_projecteds, ConsensusRecord, DeliberationLink, RevisionLink};

fn rev(id: u128, parent: Option<u128>) -> RevisionLink {
    RevisionLink { revision_id: id, parent_revision_id: parent }
}

fn del(id: u128, revision: u128, settled: bool) -> DeliberationLink {
    DeliberationLink { deliberation_id: id, revision_id: revision, settled }
}

#[test]
fn unsettled_deliberation_is_pending_for_undecided_participants() {
    let revisions = [rev(1, None), rev(2, Some(1))];
    let deliberations = [del(10, 1, true), del(20, 2, false)];
    let consensus = HashMap::new();
    let mut active = HashMap::new();
    active.insert(20, vec![100, 101, 102]);
    let mut decided = HashMap::new();
    decided.insert(20, vec![101]);
    let (a, summary) = proposition_activity_from_projecteds(
        &revisions, &deliberations, &consensus, &active, &decided, Some(100), None,
    );
    assert_eq!(a.latest_revision_id, Some(2));
    assert_eq!(a.latest_revision_status, "pending");
    assert_eq!(a.pending_revision_id, Some(2));
    assert_eq!(a.pending_deliberation_id, Some(20));
    assert_eq!(a.pending_participant_count, 2);
    assert!(a.current_actor_pending);
    assert!(a.has_pending_revision);
    assert_eq!(summary, Some(2));

    let (a, summary) = proposition_activity_from_projecteds(
        &revisions, &deliberations, &consensus, &active, &decided, Some(101), Some(1),
    );
    assert!(!a.current_actor_pending);
    assert_eq!(summary, Some(1));
}

#[test]
fn tip_without_deliberation_awaits_one() {
    let revisions = [rev(1, None)];
    let empty = HashMap::new();
    let (a, _) = proposition_activity_from_projecteds(&revisions, &[], &HashMap::new(), &empty, &empty, Some(5), None);
    assert_eq!(a.latest_revision_status, "awaiting-deliberation");
    assert_eq!(a.pending_revision_id, Some(1));
    assert_eq!(a.pending_deliberation_id, None);
    assert!(a.current_actor_pending);
    assert!(a.has_pending_revision);
    let (a, _) = proposition_activity_from_projecteds(&revisions, &[], &HashMap::new(), &empty, &empty, None, None);
    assert!(!a.current_actor_pending);
}

#[test]
fn settled_tip_reports_its_consensus() {
    let revisions = [rev(1, None)];
    let deliberations = [del(10, 1, true)];
    let mut consensus = HashMap::new();
    consensus.insert(10, ConsensusRecord { revision_id: 1, consensus: "accepted".to_string() });
    let empty = HashMap::new();
    let (a, _) = proposition_activity_from_projecteds(&revisions, &deliberations, &consensus, &empty, &empty, None, None);
    assert_eq!(a.latest_revision_status, "accepted");
    assert_eq!(a.pending_revision_id, None);
    assert!(!a.has_pending_revision);
    let (a, _) = proposition_activity_from_projecteds(&revisions, &deliberations, &HashMap::new(), &empty, &empty, None, None);
    assert_eq!(a.latest_revision_status, "settled");
    let twice = [del(10, 1, true), del(11, 1, false)];
    let (a, _) = proposition_activity_from_projecteds(&revisions, &twice, &consensus, &empty, &empty, None, None);
    assert_eq!(a.latest_revision_status, "ambiguous");
}

#[test]
fn several_tips_leave_no_latest_revision() {
    let revisions = [rev(1, None), rev(2, Some(1)), rev(3, Some(1))];
    let deliberations = [del(20, 2, false)];
    let mut active = HashMap::new();
    active.insert(20, vec![100]);
    let empty = HashMap::new();
    let (a, summary) = proposition_activity_from_projecteds(&revisions, &deliberations, &HashMap::new(), &active, &empty, Some(100), None);
    assert_eq!(a.latest_revision_id, None);
    assert_eq!(a.latest_revision_status, "ambiguous");
    assert_eq!(a.pending_revision_id, None);
    assert_eq!(a.pending_deliberation_id, None);
    assert_eq!(a.pending_participant_count, 0);
    assert!(!a.current_actor_pending);
    assert!(a.has_pending_revision);
    assert_eq!(summary, None);
    let (a, _) = proposition_activity_from_projecteds(&[], &[], &HashMap::new(), &empty, &empty, None, None);
    assert_eq!(a.latest_revision_status, "missing");
    assert!(!a.has_pending_revision);
}

#[test]
fn a_revision_listed_twice_is_one_tip() {
    let revisions = [rev(1, None), rev(1, None)];
    let deliberations = [del(10, 1, true)];
    let mut consensus = HashMap::new();
    consensus.insert(10, ConsensusRecord { revision_id: 1, consensus: "accepted".to_string() });
    let empty = HashMap::new();
    let (a, summary) =
        proposition_activity_from_projecteds(&revisions, &deliberations, &consensus, &empty, &empty, None, None);
    assert_eq!(a.latest_revision_id, Some(1));
    assert_eq!(a.latest_revision_status, "accepted");
    assert!(!a.has_pending_revision);
    assert_eq!(summary, Some(1));
}
