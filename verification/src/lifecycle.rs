//! Withdrawal and archival of propositions: the lifecycle transitions of
//! one dimension form a chain of predecessors whose single tip decides the
//! status.

use vstd::prelude::*;
use crate::text::same_text;
use crate::consensus::{id_list_of, member_ids};
use crate::error::Error;
use crate::json::{JsonValue, field, id_value, is_object, text_value};

verus! {

/// One `proposition_lifecycle` object: its id, its operation, and the
/// lifecycle objects it supersedes.
pub struct LifecycleTransition {
    pub id: u128,
    pub operation: String,
    pub predecessors: Vec<u128>,
}

/// The stored column a lifecycle dimension updates.
#[derive(Clone, Copy, Debug, PartialEq, Eq, Structural)]
pub enum LifecycleColumn {
    /// `withdrawal_status`
    Withdrawal,
    /// `archival_status`
    Archival,
}

/// The lifecycle status of one dimension.
#[derive(Clone, Copy, Debug, PartialEq, Eq, Structural)]
pub enum LifecycleStatus {
    Withdrawn,
    Active,
    Archived,
    Visible,
    Conflict,
}

/// Why the lifecycle status is what it is.
#[derive(Clone, Copy, Debug, PartialEq, Eq, Structural)]
pub enum LifecycleReason {
    MultipleLifecycleTips,
    Withdraw,
    Restore,
    Archive,
    Unarchive,
}

/// The decided state of one lifecycle dimension.
#[derive(Clone, Copy, Debug, PartialEq, Eq, Structural)]
pub struct LifecycleState {
    pub column: LifecycleColumn,
    pub status: LifecycleStatus,
    pub reason: LifecycleReason,
}

impl LifecycleColumn {
    /// The stored column name.
    pub fn as_str(&self) -> (r: &'static str)
        ensures
            r@ == match self {
                LifecycleColumn::Withdrawal => "withdrawal_status"@,
                LifecycleColumn::Archival => "archival_status"@,
            },
    {
        match self {
            LifecycleColumn::Withdrawal => "withdrawal_status",
            LifecycleColumn::Archival => "archival_status",
        }
    }
}

impl LifecycleStatus {
    /// The stored text of the status.
    pub fn as_str(&self) -> (r: &'static str)
        ensures
            r@ == match self {
                LifecycleStatus::Withdrawn => "withdrawn"@,
                LifecycleStatus::Active => "active"@,
                LifecycleStatus::Archived => "archived"@,
                LifecycleStatus::Visible => "visible"@,
                LifecycleStatus::Conflict => "conflict"@,
            },
    {
        match self {
            LifecycleStatus::Withdrawn => "withdrawn",
            LifecycleStatus::Active => "active",
            LifecycleStatus::Archived => "archived",
            LifecycleStatus::Visible => "visible",
            LifecycleStatus::Conflict => "conflict",
        }
    }
}

impl LifecycleReason {
    /// The stored text of the reason.
    pub fn as_str(&self) -> (r: &'static str)
        ensures
            r@ == match self {
                LifecycleReason::MultipleLifecycleTips => "multiple-lifecycle-tips"@,
                LifecycleReason::Withdraw => "lifecycle-withdraw"@,
                LifecycleReason::Restore => "lifecycle-restore"@,
                LifecycleReason::Archive => "lifecycle-archive"@,
                LifecycleReason::Unarchive => "lifecycle-unarchive"@,
            },
    {
        match self {
            LifecycleReason::MultipleLifecycleTips => "multiple-lifecycle-tips",
            LifecycleReason::Withdraw => "lifecycle-withdraw",
            LifecycleReason::Restore => "lifecycle-restore",
            LifecycleReason::Archive => "lifecycle-archive",
            LifecycleReason::Unarchive => "lifecycle-unarchive",
        }
    }
}

/// Some transition names `x` as a predecessor.
pub open spec fn is_referenced(ts: Seq<LifecycleTransition>, x: u128) -> bool {
    exists|j: int, p: int|
        0 <= j < ts.len() && 0 <= p < ts[j].predecessors@.len() && #[trigger] ts[j].predecessors@[p]
            == x
}

/// Every predecessor named is one of the transitions.
pub open spec fn predecessors_known(ts: Seq<LifecycleTransition>) -> bool {
    forall|j: int, p: int|
        0 <= j < ts.len() && 0 <= p < ts[j].predecessors@.len() ==> exists|i: int|
            0 <= i < ts.len() && ts[i].id == #[trigger] ts[j].predecessors@[p]
}

pub open spec fn tip_pred(ts: Seq<LifecycleTransition>) -> spec_fn(LifecycleTransition) -> bool {
    |t: LifecycleTransition| !is_referenced(ts, t.id)
}

/// The transitions no other transition supersedes.
pub open spec fn lifecycle_tips(ts: Seq<LifecycleTransition>) -> Seq<LifecycleTransition> {
    ts.filter(tip_pred(ts))
}

/// The status a single tip's operation gives in a dimension; `None` for an
/// operation the dimension does not have.
pub open spec fn tip_state(column: LifecycleColumn, op: Seq<char>) -> Option<LifecycleState> {
    match column {
        LifecycleColumn::Withdrawal => if op == "withdraw"@ {
            Some(
                LifecycleState {
                    column,
                    status: LifecycleStatus::Withdrawn,
                    reason: LifecycleReason::Withdraw,
                },
            )
        } else if op == "restore"@ {
            Some(
                LifecycleState {
                    column,
                    status: LifecycleStatus::Active,
                    reason: LifecycleReason::Restore,
                },
            )
        } else {
            None
        },
        LifecycleColumn::Archival => if op == "archive"@ {
            Some(
                LifecycleState {
                    column,
                    status: LifecycleStatus::Archived,
                    reason: LifecycleReason::Archive,
                },
            )
        } else if op == "unarchive"@ {
            Some(
                LifecycleState {
                    column,
                    status: LifecycleStatus::Visible,
                    reason: LifecycleReason::Unarchive,
                },
            )
        } else {
            None
        },
    }
}

/// The column of a dimension name.
pub open spec fn dimension_column(dimension: Seq<char>) -> Option<LifecycleColumn> {
    if dimension == "withdrawal"@ {
        Some(LifecycleColumn::Withdrawal)
    } else if dimension == "archival"@ {
        Some(LifecycleColumn::Archival)
    } else {
        None
    }
}

/// The state of a lifecycle dimension; `None` when the transitions name an
/// unknown predecessor, the dimension is unknown, or the single tip has an
/// operation the dimension does not have.
pub open spec fn lifecycle_spec(
    dimension: Seq<char>,
    ts: Seq<LifecycleTransition>,
) -> Option<LifecycleState> {
    if !predecessors_known(ts) {
        None
    } else {
        match dimension_column(dimension) {
            None => None,
            Some(column) => {
                let tips = lifecycle_tips(ts);
                if tips.len() != 1 {
                    Some(
                        LifecycleState {
                            column,
                            status: LifecycleStatus::Conflict,
                            reason: LifecycleReason::MultipleLifecycleTips,
                        },
                    )
                } else {
                    tip_state(column, tips[0].operation@)
                }
            },
        }
    }
}

/// Whether some transition names `x` as a predecessor.
fn referenced(transitions: &[LifecycleTransition], x: u128) -> (r: bool)
    ensures
        r == is_referenced(transitions@, x),
{
    let ghost ts = transitions@;
    let mut j: usize = 0;
    while j < transitions.len()
        invariant
            ts == transitions@,
            j <= ts.len(),
            forall|jj: int, p: int|
                0 <= jj < j && 0 <= p < ts[jj].predecessors@.len() ==> #[trigger] ts[jj].predecessors@[p]
                    != x,
        decreases ts.len() - j,
    {
        let preds = &transitions[j].predecessors;
        let mut p: usize = 0;
        while p < preds.len()
            invariant
                ts == transitions@,
                j < ts.len(),
                *preds == ts[j as int].predecessors,
                p <= preds@.len(),
                forall|q: int| 0 <= q < p ==> #[trigger] preds@[q] != x,
            decreases preds@.len() - p,
        {
            if preds[p] == x {
                return true;
            }
            p = p + 1;
        }
        j = j + 1;
    }
    false
}

/// Whether some transition has id `x`.
fn known(transitions: &[LifecycleTransition], x: u128) -> (r: bool)
    ensures
        r == exists|i: int| 0 <= i < transitions@.len() && transitions@[i].id == x,
{
    let mut i: usize = 0;
    while i < transitions.len()
        invariant
            i <= transitions@.len(),
            forall|k: int| 0 <= k < i ==> transitions@[k].id != x,
        decreases transitions@.len() - i,
    {
        if transitions[i].id == x {
            return true;
        }
        i = i + 1;
    }
    false
}

fn all_predecessors_known(transitions: &[LifecycleTransition]) -> (r: bool)
    ensures
        r == predecessors_known(transitions@),
{
    let ghost ts = transitions@;
    let mut j: usize = 0;
    while j < transitions.len()
        invariant
            ts == transitions@,
            j <= ts.len(),
            forall|jj: int, p: int|
                0 <= jj < j && 0 <= p < ts[jj].predecessors@.len() ==> exists|i: int|
                    0 <= i < ts.len() && ts[i].id == #[trigger] ts[jj].predecessors@[p],
        decreases ts.len() - j,
    {
        let preds = &transitions[j].predecessors;
        let mut p: usize = 0;
        while p < preds.len()
            invariant
                ts == transitions@,
                j < ts.len(),
                *preds == ts[j as int].predecessors,
                p <= preds@.len(),
                forall|jj: int, q: int|
                    0 <= jj < j && 0 <= q < ts[jj].predecessors@.len() ==> exists|i: int|
                        0 <= i < ts.len() && ts[i].id == #[trigger] ts[jj].predecessors@[q],
                forall|q: int|
                    0 <= q < p ==> exists|i: int|
                        0 <= i < ts.len() && ts[i].id == #[trigger] preds@[q],
            decreases preds@.len() - p,
        {
            if !known(transitions, preds[p]) {
                return false;
            }
            p = p + 1;
        }
        j = j + 1;
    }
    true
}

/// Decides the state of one lifecycle dimension (`"withdrawal"` or
/// `"archival"`) of a proposition from its lifecycle transitions. `None`
/// means the stored projection is invalid: a predecessor is unknown, the
/// dimension is unknown, or the tip's operation does not belong to the
/// dimension.
pub fn lifecycle_state(dimension: &str, transitions: &[LifecycleTransition]) -> (r: Option<
    LifecycleState,
>)
    ensures
        r == lifecycle_spec(dimension@, transitions@),
{
    let ghost ts = transitions@;
    if !all_predecessors_known(transitions) {
        return None;
    }
    let column = if same_text(dimension, "withdrawal") {
        LifecycleColumn::Withdrawal
    } else if same_text(dimension, "archival") {
        LifecycleColumn::Archival
    } else {
        return None;
    };
    let ghost pred = tip_pred(ts);
    let mut tip_count: usize = 0;
    let mut first_tip: usize = 0;
    let mut i: usize = 0;
    while i < transitions.len()
        invariant
            ts == transitions@,
            pred == tip_pred(ts),
            i <= ts.len(),
            tip_count == ts.take(i as int).filter(pred).len(),
            tip_count <= i,
            tip_count > 0 ==> first_tip < i && ts.take(i as int).filter(pred)[0] == ts[first_tip as int],
        decreases ts.len() - i,
    {
        let is_tip = !referenced(transitions, transitions[i].id);
        proof {
            reveal(Seq::filter);
            assert(ts.take(i + 1).drop_last() =~= ts.take(i as int));
            assert(ts.take(i + 1).last() == ts[i as int]);
            assert(pred(ts[i as int]) == is_tip);
            if tip_count > 0 {
                assert(ts.take(i + 1).filter(pred)[0] == ts.take(i as int).filter(pred)[0]);
            }
        }
        if is_tip {
            if tip_count == 0 {
                first_tip = i;
            }
            tip_count = tip_count + 1;
        }
        i = i + 1;
    }
    assert(ts.take(ts.len() as int) =~= ts);
    if tip_count != 1 {
        return Some(
            LifecycleState {
                column,
                status: LifecycleStatus::Conflict,
                reason: LifecycleReason::MultipleLifecycleTips,
            },
        );
    }
    let op = transitions[first_tip].operation.as_str();
    match column {
        LifecycleColumn::Withdrawal => {
            if same_text(op, "withdraw") {
                Some(
                    LifecycleState {
                        column,
                        status: LifecycleStatus::Withdrawn,
                        reason: LifecycleReason::Withdraw,
                    },
                )
            } else if same_text(op, "restore") {
                Some(
                    LifecycleState {
                        column,
                        status: LifecycleStatus::Active,
                        reason: LifecycleReason::Restore,
                    },
                )
            } else {
                None
            }
        },
        LifecycleColumn::Archival => {
            if same_text(op, "archive") {
                Some(
                    LifecycleState {
                        column,
                        status: LifecycleStatus::Archived,
                        reason: LifecycleReason::Archive,
                    },
                )
            } else if same_text(op, "unarchive") {
                Some(
                    LifecycleState {
                        column,
                        status: LifecycleStatus::Visible,
                        reason: LifecycleReason::Unarchive,
                    },
                )
            } else {
                None
            }
        },
    }
}

/// The operation and predecessors a lifecycle body gives, `None` when it
/// lacks either.
pub open spec fn transition_spec(body: JsonValue) -> Option<(Seq<char>, Seq<u128>)> {
    let operation = text_value(field(body, "operation"@));
    let predecessors = id_list_of(body, "predecessor_ids"@, None);
    if operation is Some && predecessors is Some {
        Some((operation->0, predecessors->0))
    } else {
        None
    }
}

/// The body of a document, when it is an object.
pub open spec fn object_body(document: JsonValue) -> Option<JsonValue> {
    if is_object(field(document, "body"@)) {
        field(document, "body"@)
    } else {
        None
    }
}

/// Reads the lifecycle transition `id` from its document. A document that
/// does not give one is a broken projection.
pub fn lifecycle_transition_of(id: u128, document: &JsonValue) -> (r: Result<LifecycleTransition, Error>)
    ensures
        match r {
            Ok(t) => t.id == id && (object_body(*document) matches Some(body) && transition_spec(body)
                == Some((t.operation@, t.predecessors@))),
            Err(e) => e == Error::StateProjected && (object_body(*document) matches Some(body)
                ==> transition_spec(body) is None),
        },
{
    let body = match document.get("body") {
        Some(b) => b,
        None => return Err(Error::StateProjected),
    };
    if !body.is_object() {
        return Err(Error::StateProjected);
    }
    let operation = match body.get("operation") {
        Some(JsonValue::Text(t)) => t.as_str().to_owned(),
        _ => return Err(Error::StateProjected),
    };
    let predecessors = match member_ids(body, "predecessor_ids", None) {
        Some(ids) => ids,
        None => return Err(Error::StateProjected),
    };
    Ok(LifecycleTransition { id, operation, predecessors })
}

/// Reads the lifecycle transition `id` with the proposition and the
/// dimension it applies to. A document that does not give them is a broken
/// projection.
pub fn lifecycle_entry_of(id: u128, document: &JsonValue) -> (r: Result<
    (u128, String, LifecycleTransition),
    Error,
>)
    ensures
        match r {
            Ok((proposition, dimension, t)) => t.id == id && (object_body(*document) matches Some(body)
                && transition_spec(body) == Some((t.operation@, t.predecessors@)) && id_value(
                field(body, "proposition_id"@),
            ) == Some(proposition) && text_value(field(body, "dimension"@)) == Some(dimension@)),
            Err(e) => e == Error::StateProjected && (object_body(*document) matches Some(body)
                ==> (transition_spec(body) is None || id_value(field(body, "proposition_id"@)) is None
                || text_value(field(body, "dimension"@)) is None)),
        },
{
    let transition = lifecycle_transition_of(id, document)?;
    let body = match document.get("body") {
        Some(b) => b,
        None => return Err(Error::StateProjected),
    };
    let proposition = match crate::json::parse_object_id_text(body.get("proposition_id")) {
        Some(p) => p,
        None => return Err(Error::StateProjected),
    };
    let dimension = match body.get("dimension") {
        Some(JsonValue::Text(t)) => t.as_str().to_owned(),
        _ => return Err(Error::StateProjected),
    };
    Ok((proposition, dimension, transition))
}

/// `x` is the identifier of a transition that no transition supersedes.
pub open spec fn is_tip_id(ts: Seq<LifecycleTransition>, x: u128) -> bool {
    (exists|i: int| 0 <= i < ts.len() && #[trigger] ts[i].id == x) && !is_referenced(ts, x)
}

/// Whether an invitation lifecycle operation may be performed by `actor`
/// on an invitation to `invited`: anyone may revoke or supersede, only the
/// invited actor may decline, and nothing else is an operation.
pub open spec fn invitation_operation_spec(operation: Seq<char>, actor: u128, invited: u128) -> Result<
    (),
    Error,
> {
    if operation == "decline"@ {
        if actor != invited {
            Err(Error::Unauthorized)
        } else {
            Ok(())
        }
    } else if operation == "revoke"@ || operation == "supersede"@ {
        Ok(())
    } else {
        Err(Error::InvalidLineage)
    }
}

/// Checks an invitation lifecycle operation against who performs it.
pub fn invitation_operation_check(operation: &str, actor: u128, invited: u128) -> (r: Result<
    (),
    Error,
>)
    ensures
        r == invitation_operation_spec(operation@, actor, invited),
{
    if same_text(operation, "decline") {
        if actor != invited {
            Err(Error::Unauthorized)
        } else {
            Ok(())
        }
    } else if same_text(operation, "revoke") || same_text(operation, "supersede") {
        Ok(())
    } else {
        Err(Error::InvalidLineage)
    }
}

/// Whether `x` is the identifier of a tip.
fn tip_id(transitions: &[LifecycleTransition], x: u128) -> (r: bool)
    ensures
        r == is_tip_id(transitions@, x),
{
    known(transitions, x) && !referenced(transitions, x)
}

/// Whether `x` occurs in `ids`.
fn listed(ids: &Vec<u128>, x: u128) -> (r: bool)
    ensures
        r == ids@.contains(x),
{
    let mut i: usize = 0;
    while i < ids.len()
        invariant
            i <= ids@.len(),
            forall|k: int| 0 <= k < i ==> ids@[k] != x,
        decreases ids@.len() - i,
    {
        if ids[i] == x {
            assert(ids@[i as int] == x);
            return true;
        }
        i = i + 1;
    }
    false
}

/// A lifecycle step on an invitation must name as predecessors exactly the
/// current tips of the invitation's earlier lifecycle steps, each within
/// its causal closure.
pub fn lifecycle_predecessors_valid(
    transitions: &[LifecycleTransition],
    predecessors: &Vec<u128>,
    closure: &Vec<u128>,
) -> (r: bool)
    ensures
        r == ((forall|x: u128| predecessors@.contains(x) <==> is_tip_id(transitions@, x))
            && (forall|x: u128| predecessors@.contains(x) ==> closure@.contains(x))),
{
    let mut i: usize = 0;
    while i < predecessors.len()
        invariant
            i <= predecessors@.len(),
            forall|k: int|
                0 <= k < i ==> is_tip_id(transitions@, #[trigger] predecessors@[k])
                    && closure@.contains(predecessors@[k]),
        decreases predecessors@.len() - i,
    {
        let x = predecessors[i];
        if !tip_id(transitions, x) || !listed(closure, x) {
            return false;
        }
        i = i + 1;
    }
    let mut j: usize = 0;
    while j < transitions.len()
        invariant
            j <= transitions@.len(),
            forall|k: int| 0 <= k < predecessors@.len() ==> is_tip_id(transitions@, #[trigger] predecessors@[k])
                && closure@.contains(predecessors@[k]),
            forall|k: int|
                0 <= k < j && is_tip_id(transitions@, #[trigger] transitions@[k].id) ==> predecessors@.contains(
                    transitions@[k].id,
                ),
        decreases transitions@.len() - j,
    {
        let x = transitions[j].id;
        if tip_id(transitions, x) && !listed(predecessors, x) {
            return false;
        }
        j = j + 1;
    }
    proof {
        assert forall|x: u128| predecessors@.contains(x) <==> is_tip_id(transitions@, x) by {
            if is_tip_id(transitions@, x) {
                let i = choose|i: int| 0 <= i < transitions@.len() && #[trigger] transitions@[i].id == x;
                assert(is_tip_id(transitions@, transitions@[i].id));
            }
            if predecessors@.contains(x) {
                let k = choose|k: int| 0 <= k < predecessors@.len() && predecessors@[k] == x;
                assert(is_tip_id(transitions@, predecessors@[k]));
            }
        }
        assert forall|x: u128| predecessors@.contains(x) implies closure@.contains(x) by {
            let k = choose|k: int| 0 <= k < predecessors@.len() && predecessors@[k] == x;
            assert(closure@.contains(predecessors@[k]));
        }
    }
    true
}

/// Law: the lifecycle step that names the current tip of a dimension (or
/// nothing, when the dimension has no step yet) as its predecessor decides
/// the dimension: after it, the state is what its own operation gives.
pub proof fn law_lifecycle_step_decides(
    dimension: Seq<char>,
    ts: Seq<LifecycleTransition>,
    u: LifecycleTransition,
)
    requires
        predecessors_known(ts),
        dimension_column(dimension) is Some,
        lifecycle_tips(ts).len() <= 1,
        u.predecessors@ == lifecycle_tips(ts).map_values(|t: LifecycleTransition| t.id),
        forall|i: int| 0 <= i < ts.len() ==> ts[i].id != u.id,
    ensures
        lifecycle_spec(dimension, ts.push(u)) == tip_state(
            dimension_column(dimension)->0,
            u.operation@,
        ),
{
    broadcast use vstd::seq_lib::group_filter_ensures;
    let ts2 = ts.push(u);
    let pred = tip_pred(ts);
    let pred2 = tip_pred(ts2);
    let tips = lifecycle_tips(ts);
    if tips.len() == 1 {
        ts.lemma_filter_contains_rev(pred, tips[0]);
        assert(tips.contains(tips[0]));
    }
    // Every predecessor of the longer chain is one of its transitions.
    assert forall|j: int, p: int|
        0 <= j < ts2.len() && 0 <= p < ts2[j].predecessors@.len() implies exists|i: int|
        0 <= i < ts2.len() && ts2[i].id == #[trigger] ts2[j].predecessors@[p] by {
        if j < ts.len() {
            assert(ts2[j] == ts[j]);
            let i = choose|i: int| 0 <= i < ts.len() && ts[i].id == ts[j].predecessors@[p];
            assert(ts2[i] == ts[i]);
        } else {
            assert(ts2[j] == u);
            assert(p == 0 && tips.len() == 1);
            let i = choose|i: int| 0 <= i < ts.len() && ts[i] == tips[0];
            assert(ts2[i] == ts[i]);
        }
    }
    assert(predecessors_known(ts2));
    // The new step is not superseded.
    assert(!is_referenced(ts2, u.id)) by {
        if is_referenced(ts2, u.id) {
            let (j, p) = choose|j: int, p: int|
                0 <= j < ts2.len() && 0 <= p < ts2[j].predecessors@.len()
                    && #[trigger] ts2[j].predecessors@[p] == u.id;
            if j < ts.len() {
                assert(ts2[j] == ts[j]);
                let i = choose|i: int| 0 <= i < ts.len() && ts[i].id == #[trigger] ts[j].predecessors@[p];
            } else {
                assert(ts2[j] == u);
                let i = choose|i: int| 0 <= i < ts.len() && ts[i] == tips[0];
            }
        }
    }
    // Every earlier step is superseded.
    assert forall|i: int| 0 <= i < ts.len() implies !pred2(#[trigger] ts[i]) by {
        if is_referenced(ts, ts[i].id) {
            let (j, p) = choose|j: int, p: int|
                0 <= j < ts.len() && 0 <= p < ts[j].predecessors@.len()
                    && #[trigger] ts[j].predecessors@[p] == ts[i].id;
            assert(ts2[j] == ts[j]);
            assert(ts2[j].predecessors@[p] == ts[i].id);
        } else {
            assert(pred(ts[i]));
            ts.lemma_filter_contains(pred, i);
            assert(tips.contains(ts[i]));
            assert(tips.len() == 1);
            assert(ts[i] == tips[0]);
            assert(ts2[ts.len() as int] == u);
            assert(ts2[ts.len() as int].predecessors@[0] == ts[i].id);
        }
    }
    ts.lemma_all_neg_filter_empty(pred2);
    ts.lemma_filter_push(u, pred2);
    assert(lifecycle_tips(ts2) == ts.filter(pred2).push(u));
    assert(lifecycle_tips(ts2).len() == 1);
    assert(lifecycle_tips(ts2)[0] == u);
}

/// Law: the lifecycle table, stated dimension by dimension. The withdrawal
/// dimension has the operations `withdraw` (withdrawn) and `restore`
/// (active); the archival dimension `archive` (archived) and `unarchive`
/// (visible). A single tip with its dimension's operation decides the
/// dimension that way; any other dimension name is unknown.
pub proof fn law_lifecycle_table(dimension: Seq<char>, op: Seq<char>)
    ensures
        dimension == "withdrawal"@ ==> dimension_column(dimension) == Some(LifecycleColumn::Withdrawal),
        dimension == "archival"@ ==> dimension_column(dimension) == Some(LifecycleColumn::Archival),
        dimension != "withdrawal"@ && dimension != "archival"@ ==> dimension_column(dimension) is None,
        tip_state(LifecycleColumn::Withdrawal, op) == if op == "withdraw"@ {
            Some(LifecycleState {
                column: LifecycleColumn::Withdrawal,
                status: LifecycleStatus::Withdrawn,
                reason: LifecycleReason::Withdraw,
            })
        } else if op == "restore"@ {
            Some(LifecycleState {
                column: LifecycleColumn::Withdrawal,
                status: LifecycleStatus::Active,
                reason: LifecycleReason::Restore,
            })
        } else {
            None
        },
        tip_state(LifecycleColumn::Archival, op) == if op == "archive"@ {
            Some(LifecycleState {
                column: LifecycleColumn::Archival,
                status: LifecycleStatus::Archived,
                reason: LifecycleReason::Archive,
            })
        } else if op == "unarchive"@ {
            Some(LifecycleState {
                column: LifecycleColumn::Archival,
                status: LifecycleStatus::Visible,
                reason: LifecycleReason::Unarchive,
            })
        } else {
            None
        },
{
    reveal_strlit("withdrawal");
    reveal_strlit("archival");
    reveal_strlit("withdraw");
    reveal_strlit("restore");
    reveal_strlit("archive");
    reveal_strlit("unarchive");
    assert("withdrawal"@.len() == 10 && "withdrawal"@[0] == 'w' && "withdrawal"@[1] == 'i');
    assert("archival"@.len() == 8 && "archival"@[0] == 'a' && "archival"@[1] == 'r');
    assert("withdraw"@.len() == 8 && "withdraw"@[0] == 'w' && "withdraw"@[1] == 'i');
    assert("restore"@.len() == 7 && "restore"@[0] == 'r' && "restore"@[1] == 'e');
    assert("archive"@.len() == 7 && "archive"@[0] == 'a' && "archive"@[1] == 'r');
    assert("unarchive"@.len() == 9 && "unarchive"@[0] == 'u' && "unarchive"@[1] == 'n');
}

/// Law: when two lifecycle steps of a known dimension are both tips (no
/// step names either as a predecessor), the dimension is in conflict with
/// multiple lifecycle tips.
pub proof fn law_two_tips_conflict(dimension: Seq<char>, ts: Seq<LifecycleTransition>, i: int, j: int)
    requires
        predecessors_known(ts),
        dimension_column(dimension) is Some,
        0 <= i < ts.len(),
        0 <= j < ts.len(),
        i != j,
        !is_referenced(ts, ts[i].id),
        !is_referenced(ts, ts[j].id),
    ensures
        lifecycle_spec(dimension, ts) == Some(LifecycleState {
            column: dimension_column(dimension)->0,
            status: LifecycleStatus::Conflict,
            reason: LifecycleReason::MultipleLifecycleTips,
        }),
{
    reveal(Seq::filter);
    let pred = tip_pred(ts);
    lemma_two_pass(ts, pred, if i < j { i } else { j }, if i < j { j } else { i });
}

proof fn lemma_two_pass(s: Seq<LifecycleTransition>, pred: spec_fn(LifecycleTransition) -> bool, i: int, j: int)
    requires
        0 <= i < j < s.len(),
        pred(s[i]),
        pred(s[j]),
    ensures
        s.filter(pred).len() >= 2,
    decreases s.len(),
{
    reveal(Seq::filter);
    let p = s.drop_last();
    if j == s.len() - 1 {
        assert(p[i] == s[i]);
        p.lemma_filter_contains(pred, i);
        assert(p.filter(pred).len() >= 1);
    } else {
        assert(p[i] == s[i] && p[j] == s[j]);
        lemma_two_pass(p, pred, i, j);
    }
}

} // verus!
