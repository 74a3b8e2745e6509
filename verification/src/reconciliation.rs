//! Accepted reconciliations: a reconciling revision that was accepted can
//! move the effective state of the proposition it reconciles.

use vstd::prelude::*;
use crate::effective::{SettledCandidate, SettledOutcome};
use crate::text::same_text;

verus! {

/// An accepted reconciliation that names the proposition being resolved.
pub struct ReconciliationRow {
    pub common_ancestor: u128,
    pub resolution_mode: String,
    pub selected_revision: Option<u128>,
    pub result_revision: Option<u128>,
}

/// How the reconciliation resolved the conflict.
#[derive(Clone, Copy, Debug, PartialEq, Eq, Structural)]
pub enum ReconciliationReason {
    Select,
    Derive,
    RejectAll,
}

impl ReconciliationReason {
    /// The stored text of the reason.
    pub fn as_str(&self) -> (r: &'static str)
        ensures
            r@ == match self {
                ReconciliationReason::Select => "reconciliation-select"@,
                ReconciliationReason::Derive => "reconciliation-derive"@,
                ReconciliationReason::RejectAll => "reconciliation-reject-all"@,
            },
    {
        match self {
            ReconciliationReason::Select => "reconciliation-select",
            ReconciliationReason::Derive => "reconciliation-derive",
            ReconciliationReason::RejectAll => "reconciliation-reject-all",
        }
    }
}

/// What the accepted reconciliations do to the effective state of the
/// proposition they resolve.
#[derive(Clone, Copy, Debug, PartialEq, Eq, Structural)]
pub enum ReconciliationEffect {
    /// The effective state stays as it is.
    Unchanged,
    /// Reconciliations disagree: the status becomes `conflict` with reason
    /// `multiple-reconciliation-outcomes`.
    Conflict,
    /// The status becomes `accepted` on this settled revision.
    Accepted {
        revision: u128,
        deliberation: u128,
        settlement: u128,
        reason: ReconciliationReason,
    },
}

/// Two reconciliations resolve the conflict in the same way.
pub open spec fn same_outcome(a: ReconciliationRow, b: ReconciliationRow) -> bool {
    &&& a.resolution_mode@ == b.resolution_mode@
    &&& a.selected_revision == b.selected_revision
    &&& a.result_revision == b.result_revision
    &&& a.common_ancestor == b.common_ancestor
}

/// The revision a reconciliation makes effective, with the reason.
pub open spec fn reconciliation_target(row: ReconciliationRow) -> Option<(u128, ReconciliationReason)> {
    if row.resolution_mode@ == "select"@ {
        match row.selected_revision {
            Some(r) => Some((r, ReconciliationReason::Select)),
            None => None,
        }
    } else if row.resolution_mode@ == "derive"@ {
        match row.result_revision {
            Some(r) => Some((r, ReconciliationReason::Derive)),
            None => None,
        }
    } else if row.resolution_mode@ == "reject-all"@ {
        Some((row.common_ancestor, ReconciliationReason::RejectAll))
    } else {
        None
    }
}

/// Candidate `i` is the first accepted candidate on revision `t`.
pub open spec fn is_first_accepted_on(cands: Seq<SettledCandidate>, t: u128, i: int) -> bool {
    &&& 0 <= i < cands.len()
    &&& cands[i].outcome == SettledOutcome::Accepted
    &&& cands[i].revision == t
    &&& forall|j: int|
        0 <= j < i ==> !((#[trigger] cands[j]).outcome == SettledOutcome::Accepted
            && cands[j].revision == t)
}

/// The effect of a proposition's accepted reconciliations, given its
/// settled candidates.
pub open spec fn reconciliation_spec(
    rows: Seq<ReconciliationRow>,
    cands: Seq<SettledCandidate>,
) -> ReconciliationEffect {
    if rows.len() == 0 {
        ReconciliationEffect::Unchanged
    } else if exists|k: int| 0 <= k < rows.len() && !same_outcome(#[trigger] rows[k], rows[0]) {
        ReconciliationEffect::Conflict
    } else {
        match reconciliation_target(rows[0]) {
            None => ReconciliationEffect::Unchanged,
            Some((t, reason)) => if exists|i: int| is_first_accepted_on(cands, t, i) {
                let i = choose|i: int| is_first_accepted_on(cands, t, i);
                ReconciliationEffect::Accepted {
                    revision: cands[i].revision,
                    deliberation: cands[i].deliberation,
                    settlement: cands[i].settlement,
                    reason,
                }
            } else {
                ReconciliationEffect::Unchanged
            },
        }
    }
}

fn same_row_outcome(a: &ReconciliationRow, b: &ReconciliationRow) -> (r: bool)
    ensures
        r == same_outcome(*a, *b),
{
    same_text(a.resolution_mode.as_str(), b.resolution_mode.as_str())
        && a.selected_revision == b.selected_revision && a.result_revision == b.result_revision
        && a.common_ancestor == b.common_ancestor
}

fn target_of(row: &ReconciliationRow) -> (r: Option<(u128, ReconciliationReason)>)
    ensures
        r == reconciliation_target(*row),
{
    let mode = row.resolution_mode.as_str();
    if same_text(mode, "select") {
        match row.selected_revision {
            Some(r) => Some((r, ReconciliationReason::Select)),
            None => None,
        }
    } else if same_text(mode, "derive") {
        match row.result_revision {
            Some(r) => Some((r, ReconciliationReason::Derive)),
            None => None,
        }
    } else if same_text(mode, "reject-all") {
        Some((row.common_ancestor, ReconciliationReason::RejectAll))
    } else {
        None
    }
}

/// Decides what accepted reconciliations do to a proposition's effective
/// state: disagreeing reconciliations make it a conflict; an agreed one
/// whose target revision has an accepted settlement makes that revision
/// effective; anything else leaves it unchanged.
pub fn reconciliation_effect(
    reconciliations: &[ReconciliationRow],
    candidates: &[SettledCandidate],
) -> (r: ReconciliationEffect)
    ensures
        r == reconciliation_spec(reconciliations@, candidates@),
{
    let ghost rows = reconciliations@;
    let ghost cs = candidates@;
    if reconciliations.len() == 0 {
        return ReconciliationEffect::Unchanged;
    }
    let first = &reconciliations[0];
    let mut k: usize = 0;
    while k < reconciliations.len()
        invariant
            rows == reconciliations@,
            rows.len() > 0,
            *first == rows[0],
            k <= rows.len(),
            forall|j: int| 0 <= j < k ==> same_outcome(#[trigger] rows[j], rows[0]),
        decreases rows.len() - k,
    {
        if !same_row_outcome(&reconciliations[k], first) {
            return ReconciliationEffect::Conflict;
        }
        k = k + 1;
    }
    assert(!exists|k: int| 0 <= k < rows.len() && !same_outcome(#[trigger] rows[k], rows[0]));
    let (target, reason) = match target_of(first) {
        Some(t) => t,
        None => {
            return ReconciliationEffect::Unchanged;
        },
    };
    let mut i: usize = 0;
    while i < candidates.len()
        invariant
            cs == candidates@,
            rows == reconciliations@,
            rows.len() > 0,
            reconciliation_target(rows[0]) == Some((target, reason)),
            forall|j: int| 0 <= j < rows.len() ==> same_outcome(#[trigger] rows[j], rows[0]),
            i <= cs.len(),
            forall|j: int|
                0 <= j < i ==> !((#[trigger] cs[j]).outcome == SettledOutcome::Accepted
                    && cs[j].revision == target),
        decreases cs.len() - i,
    {
        let c = candidates[i];
        if c.outcome == SettledOutcome::Accepted && c.revision == target {
            proof {
                assert(is_first_accepted_on(cs, target, i as int));
                let w = choose|w: int| is_first_accepted_on(cs, target, w);
                if w < i {
                } else if w > i {
                    assert(!((cs[i as int]).outcome == SettledOutcome::Accepted
                        && cs[i as int].revision == target));
                }
                assert(w == i);
                assert(reconciliation_target(rows[0]) == Some((target, reason)));
            }
            return ReconciliationEffect::Accepted {
                revision: c.revision,
                deliberation: c.deliberation,
                settlement: c.settlement,
                reason,
            };
        }
        i = i + 1;
    }
    ReconciliationEffect::Unchanged
}

/// Law: when two accepted reconciliations of a proposition resolve it
/// differently (another mode, selected revision, result revision or common
/// ancestor), the effect is a conflict.
pub proof fn law_disagreeing_reconciliations_conflict(
    rows: Seq<ReconciliationRow>,
    cands: Seq<SettledCandidate>,
    i: int,
    j: int,
)
    requires
        0 <= i < rows.len(),
        0 <= j < rows.len(),
        rows[i].resolution_mode@ != rows[j].resolution_mode@ || rows[i].selected_revision
            != rows[j].selected_revision || rows[i].result_revision != rows[j].result_revision
            || rows[i].common_ancestor != rows[j].common_ancestor,
    ensures
        reconciliation_spec(rows, cands) == ReconciliationEffect::Conflict,
{
    if same_outcome(rows[i], rows[0]) {
        assert(!same_outcome(rows[j], rows[0]));
    }
}

/// Law: reconciliations that all resolve the proposition the same way never
/// conflict; and with none the effective state is unchanged.
pub proof fn law_agreeing_reconciliations_settle(rows: Seq<ReconciliationRow>, cands: Seq<SettledCandidate>)
    requires
        forall|i: int, j: int|
            0 <= i < rows.len() && 0 <= j < rows.len() ==> (#[trigger] rows[i]).resolution_mode@
                == (#[trigger] rows[j]).resolution_mode@ && rows[i].selected_revision
                == rows[j].selected_revision && rows[i].result_revision == rows[j].result_revision
                && rows[i].common_ancestor == rows[j].common_ancestor,
    ensures
        reconciliation_spec(rows, cands) != ReconciliationEffect::Conflict,
        rows.len() == 0 ==> reconciliation_spec(rows, cands) == ReconciliationEffect::Unchanged,
{
    if rows.len() > 0 {
        assert forall|k: int| 0 <= k < rows.len() implies same_outcome(#[trigger] rows[k], rows[0]) by {
            assert(rows[k].resolution_mode@ == rows[0].resolution_mode@);
        }
    }
}

/// The revision a resolution mode points at, as a table: `select` the
/// selected revision, `derive` the result revision, `reject-all` the common
/// ancestor.
pub open spec fn mode_target_table(row: ReconciliationRow, t: u128, reason: ReconciliationReason) -> bool {
    ||| row.resolution_mode@ == "select"@ && row.selected_revision == Some(t) && reason
        == ReconciliationReason::Select
    ||| row.resolution_mode@ == "derive"@ && row.result_revision == Some(t) && reason
        == ReconciliationReason::Derive
    ||| row.resolution_mode@ == "reject-all"@ && row.common_ancestor == t && reason
        == ReconciliationReason::RejectAll
}

/// Law: when all accepted reconciliations agree, the revision their mode
/// points at becomes effective with the first accepted candidate settled
/// on it; without such a candidate the effective state is unchanged.
pub proof fn law_reconciliation_takes_its_target(
    rows: Seq<ReconciliationRow>,
    cands: Seq<SettledCandidate>,
    t: u128,
    reason: ReconciliationReason,
)
    requires
        rows.len() > 0,
        forall|k: int| 0 <= k < rows.len() ==> #[trigger] rows[k] == rows[0],
        mode_target_table(rows[0], t, reason),
    ensures
        forall|c: int|
            0 <= c < cands.len() && cands[c].outcome == SettledOutcome::Accepted && cands[c].revision == t
                && (forall|k: int|
                0 <= k < c ==> !((#[trigger] cands[k]).outcome == SettledOutcome::Accepted
                    && cands[k].revision == t)) ==> reconciliation_spec(rows, cands) == (
            ReconciliationEffect::Accepted {
                revision: t,
                deliberation: #[trigger] cands[c].deliberation,
                settlement: cands[c].settlement,
                reason,
            }),
        (forall|c: int|
            0 <= c < cands.len() ==> !((#[trigger] cands[c]).outcome == SettledOutcome::Accepted
                && cands[c].revision == t)) ==> reconciliation_spec(rows, cands)
            == ReconciliationEffect::Unchanged,
{
    reveal_strlit("select");
    reveal_strlit("derive");
    reveal_strlit("reject-all");
    assert("select"@.len() == 6 && "select"@[0] == 's');
    assert("derive"@.len() == 6 && "derive"@[0] == 'd');
    assert("reject-all"@.len() == 10);
    assert forall|k: int| 0 <= k < rows.len() implies same_outcome(#[trigger] rows[k], rows[0]) by {
        assert(rows[k] == rows[0]);
    }
    assert(reconciliation_target(rows[0]) == Some((t, reason)));
    assert forall|c: int|
        0 <= c < cands.len() && cands[c].outcome == SettledOutcome::Accepted && cands[c].revision == t
            && (forall|k: int|
            0 <= k < c ==> !((#[trigger] cands[k]).outcome == SettledOutcome::Accepted
                && cands[k].revision == t)) implies reconciliation_spec(rows, cands) == (
        ReconciliationEffect::Accepted {
            revision: t,
            deliberation: #[trigger] cands[c].deliberation,
            settlement: cands[c].settlement,
            reason,
        }) by {
        assert(is_first_accepted_on(cands, t, c));
        let i = choose|i: int| is_first_accepted_on(cands, t, i);
        if i < c {
            assert(!(cands[i].outcome == SettledOutcome::Accepted && cands[i].revision == t));
        }
        if c < i {
            assert(!(cands[c].outcome == SettledOutcome::Accepted && cands[c].revision == t));
        }
    }
}

} // verus!
