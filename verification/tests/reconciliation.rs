use fact_store::effective::{SettledCandidate, SettledOutcome};
use fact_store::reconciliation::{reconciliation_effect, ReconciliationEffect, ReconciliationReason, ReconciliationRow};

fn row(mode: &str, selected: Option<u128>, result: Option<u128>, ancestor: u128) -> ReconciliationRow {
    ReconciliationRow {
        common_ancestor: ancestor,
        resolution_mode: mode.to_string(),
        selected_revision: selected,
        result_revision: result,
    }
}

fn cands() -> Vec<SettledCandidate> {
    vec![
        SettledCandidate { outcome: SettledOutcome::Rejected, revision: 7, deliberation: 70, settlement: 700 },
        SettledCandidate { outcome: SettledOutcome::Accepted, revision: 7, deliberation: 71, settlement: 701 },
        SettledCandidate { outcome: SettledOutcome::Accepted, revision: 8, deliberation: 80, settlement: 800 },
        SettledCandidate { outcome: SettledOutcome::Accepted, revision: 1, deliberation: 10, settlement: 100 },
    ]
}

#[test]
fn select_makes_the_selected_revision_effective() {
    let e = reconciliation_effect(&[row("select", Some(7), None, 1)], &cands());
    assert_eq!(
        e,
        ReconciliationEffect::Accepted { revision: 7, deliberation: 71, settlement: 701, reason: ReconciliationReason::Select }
    );
}

#[test]
fn derive_and_reject_all_targets() {
    let e = reconciliation_effect(&[row("derive", Some(7), Some(8), 1)], &cands());
    assert_eq!(
        e,
        ReconciliationEffect::Accepted { revision: 8, deliberation: 80, settlement: 800, reason: ReconciliationReason::Derive }
    );
    let e = reconciliation_effect(&[row("reject-all", None, None, 1), row("reject-all", None, None, 1)], &cands());
    assert_eq!(
        e,
        ReconciliationEffect::Accepted { revision: 1, deliberation: 10, settlement: 100, reason: ReconciliationReason::RejectAll }
    );
    assert_eq!(ReconciliationReason::RejectAll.as_str(), "reconciliation-reject-all");
}

#[test]
fn disagreeing_reconciliations_conflict() {
    let e = reconciliation_effect(&[row("select", Some(7), None, 1), row("select", Some(8), None, 1)], &cands());
    assert_eq!(e, ReconciliationEffect::Conflict);
    let e = reconciliation_effect(&[row("select", Some(7), None, 1), row("derive", Some(7), None, 1)], &cands());
    assert_eq!(e, ReconciliationEffect::Conflict);
}

#[test]
fn reconciliation_without_accepted_target_changes_nothing() {
    assert_eq!(reconciliation_effect(&[], &cands()), ReconciliationEffect::Unchanged);
    assert_eq!(reconciliation_effect(&[row("select", Some(9), None, 1)], &cands()), ReconciliationEffect::Unchanged);
    assert_eq!(reconciliation_effect(&[row("select", None, None, 1)], &cands()), ReconciliationEffect::Unchanged);
    assert_eq!(reconciliation_effect(&[row("merge", Some(7), None, 1)], &cands()), ReconciliationEffect::Unchanged);
}
