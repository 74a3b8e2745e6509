//! The activity overlay of a proposition: its latest revision, and whether
//! a revision is waiting for a deliberation or for participants' decisions.

use vstd::prelude::*;
use std::collections::HashMap;
use crate::text::same_text;

verus! {

broadcast use vstd::std_specs::hash::group_hash_axioms;

/// A revision of the proposition and the revision it was written on.
#[derive(Clone, Copy, Debug, PartialEq, Eq, Structural)]
pub struct RevisionLink {
    pub revision_id: u128,
    pub parent_revision_id: Option<u128>,
}

/// A deliberation of the proposition, the revision it deliberates, and
/// whether it has a settlement.
#[derive(Clone, Copy, Debug, PartialEq, Eq, Structural)]
pub struct DeliberationLink {
    pub deliberation_id: u128,
    pub revision_id: u128,
    pub settled: bool,
}

/// The projected consensus of a deliberation.
pub struct ConsensusRecord {
    pub revision_id: u128,
    pub consensus: String,
}

/// What a proposition's revisions and deliberations show of its progress.
pub struct PropositionActivity {
    pub latest_revision_id: Option<u128>,
    pub latest_revision_status: String,
    pub pending_revision_id: Option<u128>,
    pub pending_deliberation_id: Option<u128>,
    pub pending_participant_count: usize,
    pub current_actor_pending: bool,
    pub has_pending_revision: bool,
}

/// Mathematical form of [`PropositionActivity`].
pub struct ActivityModel {
    pub latest_revision_id: Option<u128>,
    pub latest_revision_status: Seq<char>,
    pub pending_revision_id: Option<u128>,
    pub pending_deliberation_id: Option<u128>,
    pub pending_participant_count: nat,
    pub current_actor_pending: bool,
    pub has_pending_revision: bool,
}

impl PropositionActivity {
    pub open spec fn model(&self) -> ActivityModel {
        ActivityModel {
            latest_revision_id: self.latest_revision_id,
            latest_revision_status: self.latest_revision_status@,
            pending_revision_id: self.pending_revision_id,
            pending_deliberation_id: self.pending_deliberation_id,
            pending_participant_count: self.pending_participant_count as nat,
            current_actor_pending: self.current_actor_pending,
            has_pending_revision: self.has_pending_revision,
        }
    }
}

/// Some revision was written on `id`.
pub open spec fn is_parent(revs: Seq<RevisionLink>, id: u128) -> bool {
    exists|j: int| 0 <= j < revs.len() && #[trigger] revs[j].parent_revision_id == Some(id)
}

pub open spec fn tip_pred(revs: Seq<RevisionLink>) -> spec_fn(RevisionLink) -> bool {
    |r: RevisionLink| !is_parent(revs, r.revision_id)
}

/// Some revision in `revs` has the identifier `id`.
pub open spec fn has_revision_id(revs: Seq<RevisionLink>, id: u128) -> bool {
    exists|k: int| 0 <= k < revs.len() && #[trigger] revs[k].revision_id == id
}

/// The revisions with the first row of each revision identifier: a
/// revision listed twice counts once.
pub open spec fn distinct_revisions_spec(revs: Seq<RevisionLink>) -> Seq<RevisionLink>
    decreases revs.len(),
{
    if revs.len() == 0 {
        seq![]
    } else {
        let d = distinct_revisions_spec(revs.drop_last());
        if has_revision_id(d, revs.last().revision_id) {
            d
        } else {
            d.push(revs.last())
        }
    }
}

/// The revisions no other revision was written on, each identifier once.
pub open spec fn tip_revisions(revs: Seq<RevisionLink>) -> Seq<RevisionLink> {
    distinct_revisions_spec(revs).filter(tip_pred(revs))
}

pub open spec fn on_revision(t: u128) -> spec_fn(DeliberationLink) -> bool {
    |d: DeliberationLink| d.revision_id == t
}

/// The deliberations on revision `t`.
pub open spec fn deliberations_on(dels: Seq<DeliberationLink>, t: u128) -> Seq<DeliberationLink> {
    dels.filter(on_revision(t))
}

/// The status of a tip revision: waiting for a deliberation, pending in its
/// one unsettled deliberation, the consensus of its one settled
/// deliberation (or `settled` without a consensus on this revision), or
/// ambiguous with several deliberations.
pub open spec fn tip_status(
    dels: Seq<DeliberationLink>,
    consensus: Map<u128, ConsensusRecord>,
    t: u128,
) -> Seq<char> {
    let ds = deliberations_on(dels, t);
    if ds.len() == 0 {
        "awaiting-deliberation"@
    } else if ds.len() == 1 {
        if !ds[0].settled {
            "pending"@
        } else if consensus.contains_key(ds[0].deliberation_id)
            && consensus[ds[0].deliberation_id].revision_id == t {
            consensus[ds[0].deliberation_id].consensus@
        } else {
            "settled"@
        }
    } else {
        "ambiguous"@
    }
}

/// A status that counts as a revision still in progress.
pub open spec fn is_pending_status(s: Seq<char>) -> bool {
    s == "pending"@ || s == "awaiting-deliberation"@
}

/// The participant has decided in the deliberation.
pub open spec fn has_decided(decisions: Map<u128, Vec<u128>>, d: u128, a: u128) -> bool {
    decisions.contains_key(d) && decisions[d]@.contains(a)
}

pub open spec fn undecided(decisions: Map<u128, Vec<u128>>, d: u128) -> spec_fn(u128) -> bool {
    |a: u128| !has_decided(decisions, d, a)
}

/// The number of active participants of `d` that have not decided.
pub open spec fn unresolved_count(
    active: Map<u128, Vec<u128>>,
    decisions: Map<u128, Vec<u128>>,
    d: u128,
) -> nat {
    if active.contains_key(d) {
        active[d]@.filter(undecided(decisions, d)).len()
    } else {
        0
    }
}

/// The activity of a proposition.
pub open spec fn activity_spec(
    revs: Seq<RevisionLink>,
    dels: Seq<DeliberationLink>,
    consensus: Map<u128, ConsensusRecord>,
    active: Map<u128, Vec<u128>>,
    decisions: Map<u128, Vec<u128>>,
    actor: Option<u128>,
) -> ActivityModel {
    let tips = tip_revisions(revs);
    let has_pending = exists|k: int|
        0 <= k < tips.len() && is_pending_status(
            tip_status(dels, consensus, #[trigger] tips[k].revision_id),
        );
    if tips.len() == 1 {
        let t = tips[0].revision_id;
        let ds = deliberations_on(dels, t);
        let s = tip_status(dels, consensus, t);
        let unsettled = ds.len() == 1 && !ds[0].settled;
        let awaiting = s == "awaiting-deliberation"@;
        ActivityModel {
            latest_revision_id: Some(t),
            latest_revision_status: s,
            pending_revision_id: if unsettled || awaiting {
                Some(t)
            } else {
                None
            },
            pending_deliberation_id: if unsettled {
                Some(ds[0].deliberation_id)
            } else {
                None
            },
            pending_participant_count: if unsettled {
                unresolved_count(active, decisions, ds[0].deliberation_id)
            } else {
                0
            },
            current_actor_pending: if awaiting {
                actor is Some
            } else if unsettled {
                match actor {
                    Some(a) => active.contains_key(ds[0].deliberation_id)
                        && active[ds[0].deliberation_id]@.contains(a) && !has_decided(
                        decisions,
                        ds[0].deliberation_id,
                        a,
                    ),
                    None => false,
                }
            } else {
                false
            },
            has_pending_revision: has_pending,
        }
    } else {
        ActivityModel {
            latest_revision_id: None,
            latest_revision_status: if tips.len() == 0 {
                "missing"@
            } else {
                "ambiguous"@
            },
            pending_revision_id: None,
            pending_deliberation_id: None,
            pending_participant_count: 0,
            current_actor_pending: false,
            has_pending_revision: has_pending,
        }
    }
}

/// What the one deliberation on a tip says: how many deliberations there
/// are (0, 1 or more, capped at 2), and the first one.
fn deliberations_on_tip(deliberations: &[DeliberationLink], t: u128) -> (r: (usize, Option<
    DeliberationLink,
>))
    ensures
        r.0 == if deliberations_on(deliberations@, t).len() >= 2 {
            2
        } else {
            deliberations_on(deliberations@, t).len()
        },
        r.0 > 0 ==> r.1 == Some(deliberations_on(deliberations@, t)[0]),
{
    let ghost ds = deliberations@;
    let ghost pred = on_revision(t);
    let mut count: usize = 0;
    let mut first: Option<DeliberationLink> = None;
    let mut i: usize = 0;
    while i < deliberations.len()
        invariant
            ds == deliberations@,
            pred == on_revision(t),
            i <= ds.len(),
            count == if ds.take(i as int).filter(pred).len() >= 2 {
                2
            } else {
                ds.take(i as int).filter(pred).len()
            },
            count > 0 ==> first == Some(ds.take(i as int).filter(pred)[0]),
        decreases ds.len() - i,
    {
        let d = deliberations[i];
        proof {
            reveal(Seq::filter);
            assert(ds.take(i + 1).drop_last() =~= ds.take(i as int));
            assert(ds.take(i + 1).last() == d);
            if ds.take(i as int).filter(pred).len() > 0 {
                assert(ds.take(i + 1).filter(pred)[0] == ds.take(i as int).filter(pred)[0]);
            }
        }
        if d.revision_id == t {
            if count == 0 {
                first = Some(d);
            }
            if count < 2 {
                count = count + 1;
            }
        }
        i = i + 1;
    }
    assert(ds.take(ds.len() as int) =~= ds);
    (count, first)
}

/// Whether a revision in `list` has the identifier `id`.
fn lists_revision(list: &Vec<RevisionLink>, id: u128) -> (r: bool)
    ensures
        r == has_revision_id(list@, id),
{
    let mut i: usize = 0;
    while i < list.len()
        invariant
            i <= list@.len(),
            forall|k: int| 0 <= k < i ==> #[trigger] list@[k].revision_id != id,
        decreases list@.len() - i,
    {
        if list[i].revision_id == id {
            return true;
        }
        i = i + 1;
    }
    false
}

/// The revisions with each identifier once, first rows first.
fn distinct_revisions(revisions: &[RevisionLink]) -> (r: Vec<RevisionLink>)
    ensures
        r@ == distinct_revisions_spec(revisions@),
{
    let mut out: Vec<RevisionLink> = Vec::new();
    let mut i: usize = 0;
    while i < revisions.len()
        invariant
            i <= revisions@.len(),
            out@ == distinct_revisions_spec(revisions@.take(i as int)),
        decreases revisions@.len() - i,
    {
        let r = revisions[i];
        proof {
            assert(revisions@.take(i + 1).drop_last() =~= revisions@.take(i as int));
            assert(revisions@.take(i + 1).last() == r);
        }
        if !lists_revision(&out, r.revision_id) {
            out.push(r);
        }
        i = i + 1;
    }
    assert(revisions@.take(revisions@.len() as int) =~= revisions@);
    out
}

/// Whether `id` is one of `revisions`' parents.
fn parent_of_some(revisions: &[RevisionLink], id: u128) -> (r: bool)
    ensures
        r == is_parent(revisions@, id),
{
    let mut j: usize = 0;
    while j < revisions.len()
        invariant
            j <= revisions@.len(),
            forall|k: int| 0 <= k < j ==> #[trigger] revisions@[k].parent_revision_id != Some(id),
        decreases revisions@.len() - j,
    {
        if revisions[j].parent_revision_id == Some(id) {
            return true;
        }
        j = j + 1;
    }
    false
}

/// Whether `list` holds `x`.
fn holds(list: &Vec<u128>, x: u128) -> (r: bool)
    ensures
        r == list@.contains(x),
{
    let mut i: usize = 0;
    while i < list.len()
        invariant
            i <= list@.len(),
            forall|k: int| 0 <= k < i ==> list@[k] != x,
        decreases list@.len() - i,
    {
        if list[i] == x {
            return true;
        }
        i = i + 1;
    }
    false
}

fn decided_in(decisions: &HashMap<u128, Vec<u128>>, d: u128, a: u128) -> (r: bool)
    ensures
        r == has_decided(decisions@, d, a),
{
    match decisions.get(&d) {
        Some(list) => holds(list, a),
        None => false,
    }
}

/// The number of active participants of `d` without a decision.
fn unresolved(
    active_participants: &HashMap<u128, Vec<u128>>,
    decisions: &HashMap<u128, Vec<u128>>,
    d: u128,
) -> (n: usize)
    ensures
        n == unresolved_count(active_participants@, decisions@, d),
{
    match active_participants.get(&d) {
        None => 0,
        Some(active) => {
            let ghost pred = undecided(decisions@, d);
            let mut n: usize = 0;
            let mut i: usize = 0;
            while i < active.len()
                invariant
                    pred == undecided(decisions@, d),
                    i <= active@.len(),
                    n == active@.take(i as int).filter(pred).len(),
                    n <= i,
                decreases active@.len() - i,
            {
                let a = active[i];
                proof {
                    reveal(Seq::filter);
                    assert(active@.take(i + 1).drop_last() =~= active@.take(i as int));
                    assert(active@.take(i + 1).last() == a);
                }
                if !decided_in(decisions, d, a) {
                    n = n + 1;
                }
                i = i + 1;
            }
            assert(active@.take(active@.len() as int) =~= active@);
            n
        },
    }
}

/// The status text of tip `t`.
fn status_of_tip(
    deliberations: &[DeliberationLink],
    consensus_by_deliberation: &HashMap<u128, ConsensusRecord>,
    t: u128,
) -> (s: String)
    ensures
        s@ == tip_status(deliberations@, consensus_by_deliberation@, t),
{
    let (count, first) = deliberations_on_tip(deliberations, t);
    if count == 0 {
        "awaiting-deliberation".to_owned()
    } else if count == 1 {
        let d = first.unwrap();
        if !d.settled {
            "pending".to_owned()
        } else {
            match consensus_by_deliberation.get(&d.deliberation_id) {
                Some(c) => {
                    if c.revision_id == t {
                        c.consensus.clone()
                    } else {
                        "settled".to_owned()
                    }
                },
                None => "settled".to_owned(),
            }
        }
    } else {
        "ambiguous".to_owned()
    }
}

/// Computes a proposition's activity from its revisions, deliberations,
/// consensus rows, active participants (each deliberation's set of them,
/// no actor twice) and decisions, for the current actor if any. Also
/// returns the revision whose text summarizes the proposition:
/// `summary_revision_id` if given, else the latest revision.
pub fn proposition_activity_from_projecteds(
    revisions: &[RevisionLink],
    deliberations: &[DeliberationLink],
    consensus_by_deliberation: &HashMap<u128, ConsensusRecord>,
    active_participants: &HashMap<u128, Vec<u128>>,
    decisions: &HashMap<u128, Vec<u128>>,
    actor: Option<u128>,
    summary_revision_id: Option<u128>,
) -> (r: (PropositionActivity, Option<u128>))
    requires
        forall|d: u128| #[trigger] active_participants@.contains_key(d)
            ==> active_participants@[d]@.no_duplicates(),
    ensures
        r.0.model() == activity_spec(
            revisions@,
            deliberations@,
            consensus_by_deliberation@,
            active_participants@,
            decisions@,
            actor,
        ),
        r.1 == match summary_revision_id {
            Some(s) => Some(s),
            None => r.0.latest_revision_id,
        },
{
    let ghost revs = revisions@;
    let ghost dels = deliberations@;
    let ghost cons = consensus_by_deliberation@;
    let ghost pred = tip_pred(revs);
    let distinct = distinct_revisions(revisions);
    let ghost uniq = distinct@;
    let mut tip_count: usize = 0;
    let mut first_tip: u128 = 0;
    let mut has_pending_revision = false;
    let mut i: usize = 0;
    while i < distinct.len()
        invariant
            revs == revisions@,
            uniq == distinct@,
            uniq == distinct_revisions_spec(revs),
            dels == deliberations@,
            cons == consensus_by_deliberation@,
            pred == tip_pred(revs),
            i <= uniq.len(),
            tip_count == uniq.take(i as int).filter(pred).len(),
            tip_count <= i,
            tip_count > 0 ==> first_tip == uniq.take(i as int).filter(pred)[0].revision_id,
            has_pending_revision == exists|k: int|
                0 <= k < uniq.take(i as int).filter(pred).len() && is_pending_status(
                    tip_status(dels, cons, #[trigger] uniq.take(i as int).filter(pred)[k].revision_id),
                ),
        decreases uniq.len() - i,
    {
        let r = distinct[i];
        let is_tip = !parent_of_some(revisions, r.revision_id);
        let ghost before = uniq.take(i as int).filter(pred);
        proof {
            reveal(Seq::filter);
            assert(uniq.take(i + 1).drop_last() =~= uniq.take(i as int));
            assert(uniq.take(i + 1).last() == r);
            if tip_count > 0 {
                assert(uniq.take(i + 1).filter(pred)[0] == before[0]);
            }
        }
        if is_tip {
            let status = status_of_tip(deliberations, consensus_by_deliberation, r.revision_id);
            let pending = same_text(status.as_str(), "pending") || same_text(
                status.as_str(),
                "awaiting-deliberation",
            );
            proof {
                let after = uniq.take(i + 1).filter(pred);
                assert(after == before.push(r));
                if has_pending_revision {
                    let k = choose|k: int|
                        0 <= k < before.len() && is_pending_status(
                            tip_status(dels, cons, #[trigger] before[k].revision_id),
                        );
                    assert(after[k] == before[k]);
                }
                if pending {
                    assert(after[before.len() as int] == r);
                }
                if !has_pending_revision && !pending {
                    assert forall|k: int| 0 <= k < after.len() implies !is_pending_status(
                        tip_status(dels, cons, #[trigger] after[k].revision_id),
                    ) by {
                        if k < before.len() {
                            assert(after[k] == before[k]);
                        }
                    }
                }
            }
            if pending {
                has_pending_revision = true;
            }
            if tip_count == 0 {
                first_tip = r.revision_id;
            }
            tip_count = tip_count + 1;
        }
        i = i + 1;
    }
    assert(uniq.take(uniq.len() as int) =~= uniq);
    let activity = if tip_count == 1 {
        let t = first_tip;
        let status = status_of_tip(deliberations, consensus_by_deliberation, t);
        let (count, first) = deliberations_on_tip(deliberations, t);
        let awaiting = same_text(status.as_str(), "awaiting-deliberation");
        let unsettled = count == 1 && !first.unwrap().settled;
        proof {
            reveal_strlit("pending");
            reveal_strlit("awaiting-deliberation");
        }
        if unsettled {
            let d = first.unwrap().deliberation_id;
            let actor_pending = match actor {
                Some(a) => match active_participants.get(&d) {
                    Some(active) => holds(active, a) && !decided_in(decisions, d, a),
                    None => false,
                },
                None => false,
            };
            PropositionActivity {
                latest_revision_id: Some(t),
                latest_revision_status: status,
                pending_revision_id: Some(t),
                pending_deliberation_id: Some(d),
                pending_participant_count: unresolved(active_participants, decisions, d),
                current_actor_pending: actor_pending,
                has_pending_revision,
            }
        } else {
            PropositionActivity {
                latest_revision_id: Some(t),
                latest_revision_status: status,
                pending_revision_id: if awaiting {
                    Some(t)
                } else {
                    None
                },
                pending_deliberation_id: None,
                pending_participant_count: 0,
                current_actor_pending: awaiting && actor.is_some(),
                has_pending_revision,
            }
        }
    } else {
        PropositionActivity {
            latest_revision_id: None,
            latest_revision_status: if tip_count == 0 {
                "missing".to_owned()
            } else {
                "ambiguous".to_owned()
            },
            pending_revision_id: None,
            pending_deliberation_id: None,
            pending_participant_count: 0,
            current_actor_pending: false,
            has_pending_revision,
        }
    };
    proof {
        let sp = activity_spec(revs, dels, cons, active_participants@, decisions@, actor);
        assert(activity.latest_revision_id == sp.latest_revision_id);
        assert(activity.latest_revision_status@ == sp.latest_revision_status);
        assert(activity.pending_revision_id == sp.pending_revision_id);
        assert(activity.pending_deliberation_id == sp.pending_deliberation_id);
        assert(activity.pending_participant_count == sp.pending_participant_count);
        assert(activity.current_actor_pending == sp.current_actor_pending);
        assert(activity.has_pending_revision == sp.has_pending_revision);
    }
    let summary = match summary_revision_id {
        Some(s) => Some(s),
        None => activity.latest_revision_id,
    };
    (activity, summary)
}

proof fn lemma_filter_none_g<A>(s: Seq<A>, pred: spec_fn(A) -> bool)
    requires
        forall|j: int| 0 <= j < s.len() ==> !pred(#[trigger] s[j]),
    ensures
        s.filter(pred).len() == 0,
    decreases s.len(),
{
    reveal(Seq::filter);
    if s.len() > 0 {
        let p = s.drop_last();
        assert forall|j: int| 0 <= j < p.len() implies !pred(#[trigger] p[j]) by {
            assert(p[j] == s[j]);
        }
        lemma_filter_none_g(p, pred);
        assert(!pred(s[s.len() - 1]));
    }
}

proof fn lemma_filter_single_g<A>(s: Seq<A>, pred: spec_fn(A) -> bool, i: int)
    requires
        0 <= i < s.len(),
        pred(s[i]),
        forall|j: int| 0 <= j < s.len() && j != i ==> !pred(#[trigger] s[j]),
    ensures
        s.filter(pred) == seq![s[i]],
    decreases s.len(),
{
    reveal(Seq::filter);
    let p = s.drop_last();
    if i == s.len() - 1 {
        assert forall|j: int| 0 <= j < p.len() implies !pred(#[trigger] p[j]) by {
            assert(p[j] == s[j]);
        }
        lemma_filter_none_g(p, pred);
        assert(p.filter(pred) =~= Seq::<A>::empty());
    } else {
        assert forall|j: int| 0 <= j < p.len() && j != i implies !pred(#[trigger] p[j]) by {
            assert(p[j] == s[j]);
        }
        lemma_filter_single_g(p, pred, i);
        assert(!pred(s[s.len() - 1]));
    }
}

proof fn lemma_filter_two_g<A>(s: Seq<A>, pred: spec_fn(A) -> bool, i: int, j: int)
    requires
        0 <= i < j < s.len(),
        pred(s[i]),
        pred(s[j]),
    ensures
        s.filter(pred).len() >= 2,
    decreases s.len(),
{
    reveal(Seq::filter);
    let p = s.drop_last();
    if j == s.len() - 1 {
        assert(p[i] == s[i]);
        p.lemma_filter_contains(pred, i);
        assert(p.filter(pred).len() >= 1);
    } else {
        assert(p[i] == s[i] && p[j] == s[j]);
        lemma_filter_two_g(p, pred, i, j);
    }
}

/// Law: the status of a tip revision, for every list of deliberations:
/// with no deliberation on it, it awaits one; with exactly one, it is
/// pending while that is unsettled, and once settled it takes the
/// consensus recorded for that deliberation on this revision (or is
/// `settled` without one); with two or more it is ambiguous.
pub proof fn law_tip_status_table(dels: Seq<DeliberationLink>, consensus: Map<u128, ConsensusRecord>, t: u128)
    ensures
        (forall|k: int| 0 <= k < dels.len() ==> (#[trigger] dels[k]).revision_id != t) ==> tip_status(
            dels,
            consensus,
            t,
        ) == "awaiting-deliberation"@,
        forall|k: int|
            0 <= k < dels.len() && (#[trigger] dels[k]).revision_id == t && (forall|j: int|
                0 <= j < dels.len() && j != k ==> (#[trigger] dels[j]).revision_id != t) ==> tip_status(
                dels,
                consensus,
                t,
            ) == if !dels[k].settled {
                "pending"@
            } else if consensus.contains_key(dels[k].deliberation_id) && consensus[dels[k].deliberation_id].revision_id == t {
                consensus[dels[k].deliberation_id].consensus@
            } else {
                "settled"@
            },
        forall|k: int, j: int|
            0 <= k < j < dels.len() && (#[trigger] dels[k]).revision_id == t && (#[trigger] dels[j]).revision_id
                == t ==> tip_status(dels, consensus, t) == "ambiguous"@,
{
    let pred = on_revision(t);
    if forall|k: int| 0 <= k < dels.len() ==> (#[trigger] dels[k]).revision_id != t {
        lemma_filter_none_g(dels, pred);
    }
    assert forall|k: int|
        0 <= k < dels.len() && (#[trigger] dels[k]).revision_id == t && (forall|j: int|
            0 <= j < dels.len() && j != k ==> (#[trigger] dels[j]).revision_id != t) implies tip_status(
            dels,
            consensus,
            t,
        ) == if !dels[k].settled {
            "pending"@
        } else if consensus.contains_key(dels[k].deliberation_id) && consensus[dels[k].deliberation_id].revision_id == t {
            consensus[dels[k].deliberation_id].consensus@
        } else {
            "settled"@
        } by {
        lemma_filter_single_g(dels, pred, k);
    }
    assert forall|k: int, j: int|
        0 <= k < j < dels.len() && (#[trigger] dels[k]).revision_id == t && (#[trigger] dels[j]).revision_id
            == t implies tip_status(dels, consensus, t) == "ambiguous"@ by {
        lemma_filter_two_g(dels, pred, k, j);
    }
}

/// The distinct revisions name every revision identifier once.
proof fn lemma_distinct_revisions(revs: Seq<RevisionLink>)
    ensures
        forall|x: u128| has_revision_id(distinct_revisions_spec(revs), x) <==> has_revision_id(revs, x),
        forall|a: int, b: int|
            0 <= a < distinct_revisions_spec(revs).len() && 0 <= b < distinct_revisions_spec(revs).len()
                && a != b ==> (#[trigger] distinct_revisions_spec(revs)[a]).revision_id
                != (#[trigger] distinct_revisions_spec(revs)[b]).revision_id,
    decreases revs.len(),
{
    if revs.len() > 0 {
        let p = revs.drop_last();
        lemma_distinct_revisions(p);
        let d = distinct_revisions_spec(p);
        let x = revs.last();
        assert(revs[revs.len() - 1] == x);
        assert forall|y: u128| has_revision_id(distinct_revisions_spec(revs), y) <==> has_revision_id(revs, y) by {
            if has_revision_id(revs, y) {
                let k = choose|k: int| 0 <= k < revs.len() && #[trigger] revs[k].revision_id == y;
                if k < p.len() {
                    assert(p[k] == revs[k]);
                    assert(has_revision_id(p, y));
                    let m = choose|m: int| 0 <= m < d.len() && #[trigger] d[m].revision_id == y;
                    if !has_revision_id(d, x.revision_id) {
                        assert(d.push(x)[m] == d[m]);
                    }
                } else if !has_revision_id(d, x.revision_id) {
                    assert(d.push(x)[d.len() as int] == x);
                }
            }
            if has_revision_id(distinct_revisions_spec(revs), y) {
                let e = distinct_revisions_spec(revs);
                let m = choose|m: int| 0 <= m < e.len() && #[trigger] e[m].revision_id == y;
                if m < d.len() {
                    assert(e[m] == d[m]);
                    assert(has_revision_id(d, y));
                    assert(has_revision_id(p, y));
                    let k = choose|k: int| 0 <= k < p.len() && #[trigger] p[k].revision_id == y;
                    assert(revs[k] == p[k]);
                } else {
                    assert(e[m] == x);
                }
            }
        }
        if !has_revision_id(d, x.revision_id) {
            let e = d.push(x);
            assert forall|a: int, b: int| 0 <= a < e.len() && 0 <= b < e.len() && a != b implies (#[trigger] e[a]).revision_id
                != (#[trigger] e[b]).revision_id by {
                if a == d.len() as int {
                    assert(e[b] == d[b]);
                } else if b == d.len() as int {
                    assert(e[a] == d[a]);
                } else {
                    assert(e[a] == d[a] && e[b] == d[b]);
                }
            }
        }
    }
}

/// Revision `x` is a tip: some revision has it as its id, and no revision
/// was written on it.
pub open spec fn is_tip_revision(revs: Seq<RevisionLink>, x: u128) -> bool {
    has_revision_id(revs, x) && !is_parent(revs, x)
}

/// Law: a proposition without revisions has no latest revision, and its
/// status is `missing`; with two different tip revisions its latest
/// revision is ambiguous and nothing is pending on it.
pub proof fn law_activity_without_single_tip(
    revs: Seq<RevisionLink>,
    dels: Seq<DeliberationLink>,
    consensus: Map<u128, ConsensusRecord>,
    active: Map<u128, Vec<u128>>,
    decisions: Map<u128, Vec<u128>>,
    actor: Option<u128>,
    x: u128,
    y: u128,
)
    ensures
        revs.len() == 0 ==> activity_spec(revs, dels, consensus, active, decisions, actor).latest_revision_id
            is None && activity_spec(revs, dels, consensus, active, decisions, actor).latest_revision_status
            == "missing"@ && !activity_spec(revs, dels, consensus, active, decisions, actor).has_pending_revision,
        is_tip_revision(revs, x) && is_tip_revision(revs, y) && x != y ==> {
            let a = activity_spec(revs, dels, consensus, active, decisions, actor);
            &&& a.latest_revision_id is None
            &&& a.latest_revision_status == "ambiguous"@
            &&& a.pending_revision_id is None
            &&& a.pending_deliberation_id is None
            &&& a.pending_participant_count == 0
            &&& !a.current_actor_pending
        },
{
    lemma_distinct_revisions(revs);
    let u = distinct_revisions_spec(revs);
    let pred = tip_pred(revs);
    if revs.len() == 0 {
        assert(u.len() == 0);
        lemma_filter_none_g(u, pred);
    }
    if is_tip_revision(revs, x) && is_tip_revision(revs, y) && x != y {
        let a = choose|a: int| 0 <= a < u.len() && #[trigger] u[a].revision_id == x;
        let b = choose|b: int| 0 <= b < u.len() && #[trigger] u[b].revision_id == y;
        if a < b {
            lemma_filter_two_g(u, pred, a, b);
        } else {
            lemma_filter_two_g(u, pred, b, a);
        }
    }
}

/// Law: when a proposition has exactly one tip revision (however many rows
/// list it), that revision is the latest one and its status is the tip's
/// status.
pub proof fn law_activity_single_tip(
    revs: Seq<RevisionLink>,
    dels: Seq<DeliberationLink>,
    consensus: Map<u128, ConsensusRecord>,
    active: Map<u128, Vec<u128>>,
    decisions: Map<u128, Vec<u128>>,
    actor: Option<u128>,
    x: u128,
)
    requires
        is_tip_revision(revs, x),
        forall|y: u128| #[trigger] is_tip_revision(revs, y) ==> y == x,
    ensures
        activity_spec(revs, dels, consensus, active, decisions, actor).latest_revision_id == Some(x),
        activity_spec(revs, dels, consensus, active, decisions, actor).latest_revision_status == tip_status(
            dels,
            consensus,
            x,
        ),
{
    lemma_distinct_revisions(revs);
    let u = distinct_revisions_spec(revs);
    let pred = tip_pred(revs);
    let a = choose|a: int| 0 <= a < u.len() && #[trigger] u[a].revision_id == x;
    assert forall|j: int| 0 <= j < u.len() && j != a implies !pred(#[trigger] u[j]) by {
        if pred(u[j]) {
            assert(has_revision_id(u, u[j].revision_id));
            assert(is_tip_revision(revs, u[j].revision_id));
        }
    }
    lemma_filter_single_g(u, pred, a);
}

} // verus!
