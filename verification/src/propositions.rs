//! Proposition list rows as the indexed table and the projections give
//! them, how the two are compared, and the paging values of list queries.

use vstd::prelude::*;
use std::collections::HashMap;
use crate::activity::{
    ActivityModel,
    ConsensusRecord,
    DeliberationLink,
    RevisionLink,
    activity_spec,
    proposition_activity_from_projecteds,
};
use crate::text::same_text;

verus! {

broadcast use vstd::std_specs::hash::group_hash_axioms;

/// One proposition in a listing.
#[derive(Clone, Debug, PartialEq, Eq)]
pub struct PropositionListProjected {
    pub proposition_id: u128,
    pub status: String,
    pub revision_id: Option<u128>,
    pub deliberation_id: Option<u128>,
    pub settlement_id: Option<u128>,
    pub effective_status: String,
    pub latest_revision_id: Option<u128>,
    pub latest_revision_status: String,
    pub pending_revision_id: Option<u128>,
    pub pending_deliberation_id: Option<u128>,
    pub pending_participant_count: usize,
    pub current_actor_pending: bool,
    pub has_pending_revision: bool,
    pub summary_text: Option<String>,
    pub summary_revision_payload: Option<Vec<u8>>,
    pub withdrawal_status: String,
    pub archival_status: String,
}

/// The indexed row agrees with the row the projections give on everything
/// but the proposition itself and its summary.
pub open spec fn rows_agree(a: PropositionListProjected, b: PropositionListProjected) -> bool {
    &&& a.status@ == b.status@
    &&& a.revision_id == b.revision_id
    &&& a.deliberation_id == b.deliberation_id
    &&& a.settlement_id == b.settlement_id
    &&& a.effective_status@ == b.effective_status@
    &&& a.latest_revision_id == b.latest_revision_id
    &&& a.latest_revision_status@ == b.latest_revision_status@
    &&& a.pending_revision_id == b.pending_revision_id
    &&& a.pending_deliberation_id == b.pending_deliberation_id
    &&& a.pending_participant_count == b.pending_participant_count
    &&& a.current_actor_pending == b.current_actor_pending
    &&& a.has_pending_revision == b.has_pending_revision
    &&& a.withdrawal_status@ == b.withdrawal_status@
    &&& a.archival_status@ == b.archival_status@
}

/// Whether an optional identifier is the same on both sides.
fn same_id(a: Option<u128>, b: Option<u128>) -> (r: bool)
    ensures
        r == (a == b),
{
    match (a, b) {
        (Some(x), Some(y)) => x == y,
        (None, None) => true,
        _ => false,
    }
}

/// Whether an indexed proposition row agrees with the row the projections
/// give for it.
pub fn indexed_proposition_rows_match(
    indexed: &PropositionListProjected,
    legacy: &PropositionListProjected,
) -> (r: bool)
    ensures
        r == rows_agree(*indexed, *legacy),
{
    same_text(indexed.status.as_str(), legacy.status.as_str()) && same_id(
        indexed.revision_id,
        legacy.revision_id,
    ) && same_id(indexed.deliberation_id, legacy.deliberation_id) && same_id(
        indexed.settlement_id,
        legacy.settlement_id,
    ) && same_text(indexed.effective_status.as_str(), legacy.effective_status.as_str())
        && same_id(indexed.latest_revision_id, legacy.latest_revision_id) && same_text(
        indexed.latest_revision_status.as_str(),
        legacy.latest_revision_status.as_str(),
    ) && same_id(indexed.pending_revision_id, legacy.pending_revision_id) && same_id(
        indexed.pending_deliberation_id,
        legacy.pending_deliberation_id,
    ) && indexed.pending_participant_count == legacy.pending_participant_count
        && indexed.current_actor_pending == legacy.current_actor_pending
        && indexed.has_pending_revision == legacy.has_pending_revision && same_text(
        indexed.withdrawal_status.as_str(),
        legacy.withdrawal_status.as_str(),
    ) && same_text(indexed.archival_status.as_str(), legacy.archival_status.as_str())
}

/// The largest value an SQLite integer parameter holds.
pub const SQL_INTEGER_MAX: u64 = 0x7fff_ffff_ffff_ffff;

/// A count as an SQLite integer parameter, capped at the largest one.
pub open spec fn capped(n: usize) -> i64 {
    if n <= SQL_INTEGER_MAX {
        n as i64
    } else {
        SQL_INTEGER_MAX as i64
    }
}

/// Appends the `LIMIT` and `OFFSET` parameters of a paged query: nothing
/// without a limit, else the limit and then the offset, each capped at the
/// largest SQLite integer.
pub fn push_page_values(values: &mut Vec<i64>, offset: usize, limit: Option<usize>)
    ensures
        final(values)@ == old(values)@ + match limit {
            Some(l) => seq![capped(l), capped(offset)],
            None => Seq::<i64>::empty(),
        },
{
    if let Some(l) = limit {
        values.push(cap(l));
        values.push(cap(offset));
    }
    assert(values@ =~= old(values)@ + match limit {
        Some(l) => seq![capped(l), capped(offset)],
        None => Seq::<i64>::empty(),
    });
}

/// A count capped at the largest SQLite integer.
fn cap(n: usize) -> (r: i64)
    ensures
        r == capped(n),
{
    if (n as u64) <= SQL_INTEGER_MAX {
        n as i64
    } else {
        SQL_INTEGER_MAX as i64
    }
}

/// The effective state recorded for a proposition.
#[derive(Clone, Debug, PartialEq, Eq)]
pub struct EffectiveProjected {
    pub proposition_id: u128,
    pub status: String,
    pub revision_id: Option<u128>,
    pub deliberation_id: Option<u128>,
    pub settlement_id: Option<u128>,
    pub withdrawal_status: String,
    pub archival_status: String,
    pub reason: String,
}

/// The first revision, in the given order, that was written on no other.
pub open spec fn first_root(revs: Seq<RevisionLink>) -> Option<u128>
    decreases revs.len(),
{
    if revs.len() == 0 {
        None
    } else {
        match first_root(revs.drop_last()) {
            Some(r) => Some(r),
            None => if revs.last().parent_revision_id is None {
                Some(revs.last().revision_id)
            } else {
                None
            },
        }
    }
}

/// The smallest revision identifier.
pub open spec fn least_revision(revs: Seq<RevisionLink>) -> Option<u128>
    decreases revs.len(),
{
    if revs.len() == 0 {
        None
    } else {
        match least_revision(revs.drop_last()) {
            Some(m) => Some(if revs.last().revision_id < m { revs.last().revision_id } else { m }),
            None => Some(revs.last().revision_id),
        }
    }
}

/// The revision a proposition started from: the first root revision, or
/// the smallest revision when none is a root.
pub open spec fn initial_revision_spec(revs: Seq<RevisionLink>) -> Option<u128> {
    match first_root(revs) {
        Some(r) => Some(r),
        None => least_revision(revs),
    }
}

/// The first deliberation, in the given order, on `revision`.
pub open spec fn first_deliberation_on(dels: Seq<DeliberationLink>, revision: u128) -> Option<u128>
    decreases dels.len(),
{
    if dels.len() == 0 {
        None
    } else {
        match first_deliberation_on(dels.drop_last(), revision) {
            Some(d) => Some(d),
            None => if dels.last().revision_id == revision {
                Some(dels.last().deliberation_id)
            } else {
                None
            },
        }
    }
}

/// The revision a proposition started from.
pub fn initial_revision_id(revisions: &[RevisionLink]) -> (r: Option<u128>)
    ensures
        r == initial_revision_spec(revisions@),
{
    let mut root: Option<u128> = None;
    let mut least: Option<u128> = None;
    let mut i: usize = 0;
    while i < revisions.len()
        invariant
            i <= revisions@.len(),
            root == first_root(revisions@.take(i as int)),
            least == least_revision(revisions@.take(i as int)),
        decreases revisions@.len() - i,
    {
        let r = revisions[i];
        proof {
            assert(revisions@.take(i + 1).drop_last() =~= revisions@.take(i as int));
        }
        if root.is_none() && r.parent_revision_id.is_none() {
            root = Some(r.revision_id);
        }
        least = match least {
            Some(m) => Some(if r.revision_id < m { r.revision_id } else { m }),
            None => Some(r.revision_id),
        };
        i = i + 1;
    }
    assert(revisions@.take(revisions@.len() as int) =~= revisions@);
    match root {
        Some(x) => Some(x),
        None => least,
    }
}

/// The first deliberation on `revision`.
pub fn initial_deliberation_id(deliberations: &[DeliberationLink], revision: u128) -> (r: Option<u128>)
    ensures
        r == first_deliberation_on(deliberations@, revision),
{
    let mut found: Option<u128> = None;
    let mut i: usize = 0;
    while i < deliberations.len()
        invariant
            i <= deliberations@.len(),
            found == first_deliberation_on(deliberations@.take(i as int), revision),
        decreases deliberations@.len() - i,
    {
        let d = deliberations[i];
        proof {
            assert(deliberations@.take(i + 1).drop_last() =~= deliberations@.take(i as int));
        }
        if found.is_none() && d.revision_id == revision {
            found = Some(d.deliberation_id);
        }
        i = i + 1;
    }
    assert(deliberations@.take(deliberations@.len() as int) =~= deliberations@);
    found
}

/// The revision a listing shows: the effective one, else the initial one.
pub open spec fn listed_revision(state: Option<EffectiveProjected>, revs: Seq<RevisionLink>) -> Option<u128> {
    match state {
        Some(s) if s.revision_id is Some => s.revision_id,
        _ => initial_revision_spec(revs),
    }
}

/// The deliberation a listing shows: the effective one, else the first
/// deliberation on the listed revision.
pub open spec fn listed_deliberation(
    state: Option<EffectiveProjected>,
    revs: Seq<RevisionLink>,
    dels: Seq<DeliberationLink>,
) -> Option<u128> {
    match state {
        Some(s) if s.deliberation_id is Some => s.deliberation_id,
        _ => match listed_revision(state, revs) {
            Some(r) => first_deliberation_on(dels, r),
            None => None,
        },
    }
}

/// A status text of the effective state, or the default.
fn status_or(state: Option<&EffectiveProjected>, which: u8, default: &str) -> (r: String)
    ensures
        r@ == match state {
            Some(s) => if which == 0 {
                s.status@
            } else if which == 1 {
                s.withdrawal_status@
            } else {
                s.archival_status@
            },
            None => default@,
        },
{
    match state {
        Some(s) => if which == 0 {
            s.status.as_str().to_owned()
        } else if which == 1 {
            s.withdrawal_status.as_str().to_owned()
        } else {
            s.archival_status.as_str().to_owned()
        },
        None => default.to_owned(),
    }
}

/// The bytes of an optional byte string.
pub open spec fn bytes_view(b: Option<Vec<u8>>) -> Option<Seq<u8>> {
    match b {
        Some(v) => Some(v@),
        None => None,
    }
}

/// A copy of a byte string.
fn copy_bytes(b: &Vec<u8>) -> (r: Vec<u8>)
    ensures
        r@ == b@,
{
    let mut r: Vec<u8> = Vec::new();
    let mut i: usize = 0;
    while i < b.len()
        invariant
            i <= b@.len(),
            r@ == b@.take(i as int),
        decreases b@.len() - i,
    {
        r.push(b[i]);
        proof {
            assert(b@.take(i + 1) =~= b@.take(i as int).push(b@[i as int]));
        }
        i = i + 1;
    }
    assert(b@.take(b@.len() as int) =~= b@);
    r
}

/// The listing row of a proposition: its effective state (or the
/// defaults of a proposition without one: pending, active and visible),
/// the revision and deliberation it shows, its activity for `actor`, and
/// the payload of the revision that summarizes it.
pub fn proposition_list_row(
    proposition_id: u128,
    state: Option<&EffectiveProjected>,
    revisions: &[RevisionLink],
    deliberations: &[DeliberationLink],
    consensus_by_deliberation: &HashMap<u128, ConsensusRecord>,
    active_participants: &HashMap<u128, Vec<u128>>,
    decisions: &HashMap<u128, Vec<u128>>,
    actor: Option<u128>,
    revision_payloads: &HashMap<u128, Vec<u8>>,
) -> (row: PropositionListProjected)
    requires
        forall|d: u128| #[trigger] active_participants@.contains_key(d)
            ==> active_participants@[d]@.no_duplicates(),
    ensures
        ({
            let st = match state {
                Some(s) => Some(*s),
                None => None,
            };
            let activity = activity_spec(
                revisions@,
                deliberations@,
                consensus_by_deliberation@,
                active_participants@,
                decisions@,
                actor,
            );
            let summary = match listed_revision(st, revisions@) {
                Some(r) => Some(r),
                None => activity.latest_revision_id,
            };
            &&& row.proposition_id == proposition_id
            &&& row.status@ == (match st {
                Some(s) => s.status@,
                None => "pending"@,
            })
            &&& row.effective_status@ == row.status@
            &&& row.revision_id == listed_revision(st, revisions@)
            &&& row.deliberation_id == listed_deliberation(st, revisions@, deliberations@)
            &&& row.settlement_id == (match st {
                Some(s) => s.settlement_id,
                None => None,
            })
            &&& row.latest_revision_id == activity.latest_revision_id
            &&& row.latest_revision_status@ == activity.latest_revision_status
            &&& row.pending_revision_id == activity.pending_revision_id
            &&& row.pending_deliberation_id == activity.pending_deliberation_id
            &&& row.pending_participant_count == activity.pending_participant_count
            &&& row.current_actor_pending == activity.current_actor_pending
            &&& row.has_pending_revision == activity.has_pending_revision
            &&& row.summary_text is None
            &&& bytes_view(row.summary_revision_payload) == (match summary {
                Some(id) => if revision_payloads@.contains_key(id) {
                    Some(revision_payloads@[id]@)
                } else {
                    None
                },
                None => None,
            })
            &&& row.withdrawal_status@ == (match st {
                Some(s) => s.withdrawal_status@,
                None => "active"@,
            })
            &&& row.archival_status@ == (match st {
                Some(s) => s.archival_status@,
                None => "visible"@,
            })
        }),
{
    let revision_id = match state {
        Some(s) if s.revision_id.is_some() => s.revision_id,
        _ => initial_revision_id(revisions),
    };
    let deliberation_id = match state {
        Some(s) if s.deliberation_id.is_some() => s.deliberation_id,
        _ => match revision_id {
            Some(r) => initial_deliberation_id(deliberations, r),
            None => None,
        },
    };
    let (activity, summary_revision_id) = proposition_activity_from_projecteds(
        revisions,
        deliberations,
        consensus_by_deliberation,
        active_participants,
        decisions,
        actor,
        revision_id,
    );
    let summary_revision_payload = match summary_revision_id {
        Some(id) => match revision_payloads.get(&id) {
            Some(payload) => Some(copy_bytes(payload)),
            None => None,
        },
        None => None,
    };
    let status = status_or(state, 0, "pending");
    let effective_status = status_or(state, 0, "pending");
    PropositionListProjected {
        proposition_id,
        status,
        revision_id,
        deliberation_id,
        settlement_id: match state {
            Some(s) => s.settlement_id,
            None => None,
        },
        effective_status,
        latest_revision_id: activity.latest_revision_id,
        latest_revision_status: activity.latest_revision_status,
        pending_revision_id: activity.pending_revision_id,
        pending_deliberation_id: activity.pending_deliberation_id,
        pending_participant_count: activity.pending_participant_count,
        current_actor_pending: activity.current_actor_pending,
        has_pending_revision: activity.has_pending_revision,
        summary_text: None,
        summary_revision_payload,
        withdrawal_status: status_or(state, 1, "active"),
        archival_status: status_or(state, 2, "visible"),
    }
}

} // verus!
