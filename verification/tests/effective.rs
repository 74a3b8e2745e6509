use std::collections::HashMap;

use fact_store::ancestry::{revision_chain_ends, revision_depth, revision_is_ancestor};
use fact_store::effective::{
    effective_resolution,
    effective_from_candidates, last_common_settled_ancestor, maximal_settled_candidates,
    EffectiveReason, EffectiveStatus, SettledCandidate, SettledOutcome,
};

// revision tree: 1 <- 2 <- 3, 2 <- 4, 5 (separate root)
fn tree() -> HashMap<u128, Option<u128>> {
    let mut parents = HashMap::new();
    parents.insert(1, None);
    parents.insert(2, Some(1));
    parents.insert(3, Some(2));
    parents.insert(4, Some(2));
    parents.insert(5, None);
    parents
}

fn cand(outcome: SettledOutcome, revision: u128, n: u128) -> SettledCandidate {
    SettledCandidate { outcome, revision, deliberation: 100 + n, settlement: 200 + n }
}

#[test]
fn ancestry_walks_parents() {
    let parents = tree();
    assert!(revision_is_ancestor(&parents, 1, 3));
    assert!(revision_is_ancestor(&parents, 2, 4));
    assert!(!revision_is_ancestor(&parents, 3, 3));
    assert!(!revision_is_ancestor(&parents, 3, 4));
    assert!(!revision_is_ancestor(&parents, 4, 1));
    assert!(!revision_is_ancestor(&parents, 1, 9));
    assert_eq!(revision_depth(&parents, 1), 0);
    assert_eq!(revision_depth(&parents, 3), 2);
    assert_eq!(revision_depth(&parents, 9), 0);
}

#[test]
fn single_settlement_is_effective() {
    let parents = tree();
    let r = effective_from_candidates(&parents, &[cand(SettledOutcome::Accepted, 3, 1)]);
    assert_eq!(r.status, EffectiveStatus::Accepted);
    assert_eq!(r.revision, Some(3));
    assert_eq!(r.deliberation, Some(101));
    assert_eq!(r.settlement, Some(201));
    assert_eq!(r.reason, EffectiveReason::ValidSettlement);
    assert_eq!(r.status.as_str(), "accepted");
    assert_eq!(r.reason.as_str(), "valid-settlement");
}

#[test]
fn later_settlement_supersedes_its_ancestor() {
    let parents = tree();
    let cands = [cand(SettledOutcome::Accepted, 1, 1), cand(SettledOutcome::Rejected, 3, 2)];
    let r = effective_from_candidates(&parents, &cands);
    assert_eq!(r.status, EffectiveStatus::Rejected);
    assert_eq!(r.revision, Some(3));
    assert_eq!(r.reason, EffectiveReason::ValidSettlement);
}

#[test]
fn parallel_settlements_on_one_revision_agree() {
    let parents = tree();
    let cands = [cand(SettledOutcome::Accepted, 3, 1), cand(SettledOutcome::Accepted, 3, 2)];
    let r = effective_from_candidates(&parents, &cands);
    assert_eq!(r.status, EffectiveStatus::Accepted);
    assert_eq!(r.revision, Some(3));
    assert_eq!(r.deliberation, Some(101));
    assert_eq!(r.reason, EffectiveReason::CompatibleParallelSettlements);
}

#[test]
fn diverging_branches_conflict_on_the_common_ancestor() {
    let parents = tree();
    let cands = [
        cand(SettledOutcome::Accepted, 1, 1),
        cand(SettledOutcome::Accepted, 2, 2),
        cand(SettledOutcome::Accepted, 3, 3),
        cand(SettledOutcome::Rejected, 4, 4),
    ];
    let maximal = maximal_settled_candidates(&parents, &cands);
    assert_eq!(maximal, vec![cands[2], cands[3]]);
    assert_eq!(last_common_settled_ancestor(&parents, &cands, &maximal), Some(cands[1]));
    let r = effective_from_candidates(&parents, &cands);
    assert_eq!(r.status, EffectiveStatus::Conflict);
    assert_eq!(r.revision, Some(2));
    assert_eq!(r.deliberation, Some(102));
    assert_eq!(r.settlement, Some(202));
    assert_eq!(r.reason, EffectiveReason::MultipleSettledOutcomes);
    assert_eq!(r.reason.as_str(), "multiple-settled-outcomes");
}

#[test]
fn unrelated_roots_conflict_without_ancestor() {
    let parents = tree();
    let cands = [cand(SettledOutcome::Accepted, 3, 1), cand(SettledOutcome::Accepted, 5, 2)];
    let r = effective_from_candidates(&parents, &cands);
    assert_eq!(r.status, EffectiveStatus::Conflict);
    assert_eq!(r.revision, None);
    assert_eq!(r.deliberation, None);
    assert_eq!(r.settlement, None);
}

#[test]
fn common_ancestor_prefers_the_last_of_equal_depth() {
    let parents = tree();
    let cands = [
        cand(SettledOutcome::Accepted, 2, 1),
        cand(SettledOutcome::Rejected, 2, 2),
        cand(SettledOutcome::Accepted, 3, 3),
        cand(SettledOutcome::Accepted, 4, 4),
    ];
    let r = effective_from_candidates(&parents, &cands);
    assert_eq!(r.status, EffectiveStatus::Conflict);
    assert_eq!(r.deliberation, Some(102));
}

#[test]
fn a_parent_cycle_has_no_resolution() {
    let mut parents = HashMap::new();
    parents.insert(1, None);
    parents.insert(2, Some(1));
    parents.insert(3, Some(4));
    parents.insert(4, Some(3));
    assert!(revision_chain_ends(&parents, 2));
    assert!(revision_chain_ends(&parents, 9));
    assert!(!revision_chain_ends(&parents, 3));
    let accepted = [cand(SettledOutcome::Accepted, 2, 1)];
    let resolution = effective_resolution(&parents, &accepted).unwrap();
    assert_eq!(resolution.revision, Some(2));
    let cyclic = [cand(SettledOutcome::Accepted, 2, 1), cand(SettledOutcome::Accepted, 3, 2)];
    assert!(effective_resolution(&parents, &cyclic).is_none());
}
