//! The effective state of a proposition: which settled revision counts,
//! given every validly settled deliberation on it and the revision tree.

use vstd::prelude::*;
use std::collections::HashMap;
use crate::ancestry::{
    law_ancestor_is_shallower, depth, has_finite_ancestry, is_strict_ancestor, revision_chain_ends,
    revision_depth, revision_is_ancestor,
};

verus! {

/// The consensus a settled deliberation reached.
#[derive(Clone, Copy, Debug, PartialEq, Eq, Structural)]
pub enum SettledOutcome {
    Accepted,
    Rejected,
}

/// A deliberation on one revision of a proposition that reached a
/// consensus and has a valid settlement.
#[derive(Clone, Copy, Debug, PartialEq, Eq, Structural)]
pub struct SettledCandidate {
    pub outcome: SettledOutcome,
    pub revision: u128,
    pub deliberation: u128,
    pub settlement: u128,
}

/// The status recorded as a proposition's effective status.
#[derive(Clone, Copy, Debug, PartialEq, Eq, Structural)]
pub enum EffectiveStatus {
    Accepted,
    Rejected,
    Conflict,
}

/// Why the effective status is what it is.
#[derive(Clone, Copy, Debug, PartialEq, Eq, Structural)]
pub enum EffectiveReason {
    /// One settled revision is not an ancestor of any other.
    ValidSettlement,
    /// Several settlements agree on the same revision and outcome.
    CompatibleParallelSettlements,
    /// Settled branches disagree.
    MultipleSettledOutcomes,
}

/// The effective status of a proposition with the revision, deliberation
/// and settlement it rests on, if any.
#[derive(Clone, Copy, Debug, PartialEq, Eq, Structural)]
pub struct EffectiveResolution {
    pub status: EffectiveStatus,
    pub revision: Option<u128>,
    pub deliberation: Option<u128>,
    pub settlement: Option<u128>,
    pub reason: EffectiveReason,
}

impl EffectiveStatus {
    /// The stored text of the status.
    pub fn as_str(&self) -> (r: &'static str)
        ensures
            r@ == match self {
                EffectiveStatus::Accepted => "accepted"@,
                EffectiveStatus::Rejected => "rejected"@,
                EffectiveStatus::Conflict => "conflict"@,
            },
    {
        match self {
            EffectiveStatus::Accepted => "accepted",
            EffectiveStatus::Rejected => "rejected",
            EffectiveStatus::Conflict => "conflict",
        }
    }
}

impl EffectiveReason {
    /// The stored text of the reason.
    pub fn as_str(&self) -> (r: &'static str)
        ensures
            r@ == match self {
                EffectiveReason::ValidSettlement => "valid-settlement"@,
                EffectiveReason::CompatibleParallelSettlements => "compatible-parallel-settlements"@,
                EffectiveReason::MultipleSettledOutcomes => "multiple-settled-outcomes"@,
            },
    {
        match self {
            EffectiveReason::ValidSettlement => "valid-settlement",
            EffectiveReason::CompatibleParallelSettlements => "compatible-parallel-settlements",
            EffectiveReason::MultipleSettledOutcomes => "multiple-settled-outcomes",
        }
    }
}

impl SettledOutcome {
    /// The stored text of the outcome.
    pub fn as_str(&self) -> (r: &'static str)
        ensures
            r@ == match self {
                SettledOutcome::Accepted => "accepted"@,
                SettledOutcome::Rejected => "rejected"@,
            },
    {
        match self {
            SettledOutcome::Accepted => "accepted",
            SettledOutcome::Rejected => "rejected",
        }
    }
}

/// Every candidate revision has a finite chain of parents that fits the
/// machine's counters.
pub open spec fn candidates_well_rooted(
    parents: Map<u128, Option<u128>>,
    cands: Seq<SettledCandidate>,
) -> bool {
    forall|i: int|
        0 <= i < cands.len() ==> has_finite_ancestry(parents, #[trigger] cands[i].revision)
            && depth(parents, cands[i].revision) <= usize::MAX
}

/// `c` is not superseded: its revision is not a strict ancestor of the
/// revision of another candidate.
pub open spec fn is_maximal(
    parents: Map<u128, Option<u128>>,
    cands: Seq<SettledCandidate>,
    c: SettledCandidate,
) -> bool {
    forall|o: int|
        0 <= o < cands.len() ==> !(c.revision != #[trigger] cands[o].revision
            && is_strict_ancestor(parents, c.revision, cands[o].revision))
}

pub open spec fn maximal_pred(
    parents: Map<u128, Option<u128>>,
    cands: Seq<SettledCandidate>,
) -> spec_fn(SettledCandidate) -> bool {
    |c: SettledCandidate| is_maximal(parents, cands, c)
}

/// The maximal candidates, in candidate order.
pub open spec fn maximal_candidates(
    parents: Map<u128, Option<u128>>,
    cands: Seq<SettledCandidate>,
) -> Seq<SettledCandidate> {
    cands.filter(maximal_pred(parents, cands))
}

/// `c`'s revision is, for every maximal candidate, that candidate's
/// revision or an ancestor of it.
pub open spec fn covers_all(
    parents: Map<u128, Option<u128>>,
    maximal: Seq<SettledCandidate>,
    c: SettledCandidate,
) -> bool {
    forall|t: int|
        0 <= t < maximal.len() ==> c.revision == #[trigger] maximal[t].revision
            || is_strict_ancestor(parents, c.revision, maximal[t].revision)
}

/// Candidate `i` is the deepest candidate that covers every maximal one,
/// and the last such among equally deep ones.
pub open spec fn is_last_deepest(
    parents: Map<u128, Option<u128>>,
    cands: Seq<SettledCandidate>,
    maximal: Seq<SettledCandidate>,
    i: int,
) -> bool {
    &&& 0 <= i < cands.len()
    &&& covers_all(parents, maximal, cands[i])
    &&& forall|j: int|
        0 <= j < cands.len() && covers_all(parents, maximal, #[trigger] cands[j]) ==> depth(
            parents,
            cands[j].revision,
        ) <= depth(parents, cands[i].revision)
    &&& forall|j: int|
        i < j < cands.len() && covers_all(parents, maximal, #[trigger] cands[j]) ==> depth(
            parents,
            cands[j].revision,
        ) < depth(parents, cands[i].revision)
}

/// The last common settled ancestor of the maximal candidates.
pub open spec fn common_ancestor_spec(
    parents: Map<u128, Option<u128>>,
    cands: Seq<SettledCandidate>,
    maximal: Seq<SettledCandidate>,
) -> Option<SettledCandidate> {
    if exists|i: int| is_last_deepest(parents, cands, maximal, i) {
        Some(cands[choose|i: int| is_last_deepest(parents, cands, maximal, i)])
    } else {
        None
    }
}

/// The effective status a settled outcome gives.
pub open spec fn status_of(o: SettledOutcome) -> EffectiveStatus {
    match o {
        SettledOutcome::Accepted => EffectiveStatus::Accepted,
        SettledOutcome::Rejected => EffectiveStatus::Rejected,
    }
}

/// Several maximal candidates that all agree on one revision and outcome.
pub open spec fn compatible_parallel(m: Seq<SettledCandidate>) -> bool {
    m.len() > 1 && forall|k: int|
        0 <= k < m.len() ==> (#[trigger] m[k]).outcome == m[0].outcome && m[k].revision
            == m[0].revision
}

/// The effective resolution of a proposition's settled candidates.
pub open spec fn effective_spec(
    parents: Map<u128, Option<u128>>,
    cands: Seq<SettledCandidate>,
) -> EffectiveResolution {
    let m = maximal_candidates(parents, cands);
    if m.len() == 1 || compatible_parallel(m) {
        EffectiveResolution {
            status: status_of(m[0].outcome),
            revision: Some(m[0].revision),
            deliberation: Some(m[0].deliberation),
            settlement: Some(m[0].settlement),
            reason: if m.len() == 1 {
                EffectiveReason::ValidSettlement
            } else {
                EffectiveReason::CompatibleParallelSettlements
            },
        }
    } else {
        let anc = if m.len() > 1 {
            common_ancestor_spec(parents, cands, m)
        } else {
            None
        };
        EffectiveResolution {
            status: EffectiveStatus::Conflict,
            revision: match anc {
                Some(a) => Some(a.revision),
                None => None,
            },
            deliberation: match anc {
                Some(a) => Some(a.deliberation),
                None => None,
            },
            settlement: match anc {
                Some(a) => Some(a.settlement),
                None => None,
            },
            reason: EffectiveReason::MultipleSettledOutcomes,
        }
    }
}

/// Whether `revision` is `tip`'s revision or one of its ancestors, for
/// every tip.
fn covers_every_tip(
    parents: &HashMap<u128, Option<u128>>,
    revision: u128,
    maximal: &[SettledCandidate],
) -> (r: bool)
    requires
        forall|t: int|
            0 <= t < maximal@.len() ==> has_finite_ancestry(parents@, #[trigger] maximal@[t].revision),
    ensures
        r == covers_all(parents@, maximal@, SettledCandidate {
            outcome: SettledOutcome::Accepted,
            revision,
            deliberation: 0,
            settlement: 0,
        }),
{
    let mut t: usize = 0;
    while t < maximal.len()
        invariant
            t <= maximal@.len(),
            forall|u: int|
                0 <= u < maximal@.len() ==> has_finite_ancestry(
                    parents@,
                    #[trigger] maximal@[u].revision,
                ),
            forall|u: int|
                0 <= u < t ==> revision == #[trigger] maximal@[u].revision || is_strict_ancestor(
                    parents@,
                    revision,
                    maximal@[u].revision,
                ),
        decreases maximal@.len() - t,
    {
        let tip = maximal[t].revision;
        if revision != tip && !revision_is_ancestor(parents, revision, tip) {
            return false;
        }
        t = t + 1;
    }
    true
}

/// Among `candidates`, the deepest one whose revision is every maximal
/// candidate's revision or an ancestor of it; the last of equally deep
/// ones. `None` when no candidate is such a common ancestor.
pub fn last_common_settled_ancestor(
    parents: &HashMap<u128, Option<u128>>,
    candidates: &[SettledCandidate],
    maximal: &[SettledCandidate],
) -> (r: Option<SettledCandidate>)
    requires
        candidates_well_rooted(parents@, candidates@),
        candidates_well_rooted(parents@, maximal@),
    ensures
        r == common_ancestor_spec(parents@, candidates@, maximal@),
{
    let ghost cs = candidates@;
    let ghost ms = maximal@;
    let mut best: Option<usize> = None;
    let mut best_depth: usize = 0;
    let mut i: usize = 0;
    while i < candidates.len()
        invariant
            cs == candidates@,
            ms == maximal@,
            candidates_well_rooted(parents@, cs),
            candidates_well_rooted(parents@, ms),
            i <= cs.len(),
            match best {
                None => forall|j: int|
                    0 <= j < i ==> !covers_all(parents@, ms, #[trigger] cs[j]),
                Some(b) => {
                    &&& b < i
                    &&& covers_all(parents@, ms, cs[b as int])
                    &&& best_depth == depth(parents@, cs[b as int].revision)
                    &&& forall|j: int|
                        0 <= j < i && covers_all(parents@, ms, #[trigger] cs[j]) ==> depth(
                            parents@,
                            cs[j].revision,
                        ) <= best_depth
                    &&& forall|j: int|
                        b < j < i && covers_all(parents@, ms, #[trigger] cs[j]) ==> depth(
                            parents@,
                            cs[j].revision,
                        ) < best_depth
                },
            },
        decreases cs.len() - i,
    {
        let c = candidates[i];
        let covers = covers_every_tip(parents, c.revision, maximal);
        proof {
            assert(covers == covers_all(parents@, ms, cs[i as int]));
        }
        if covers {
            let d = revision_depth(parents, c.revision);
            match best {
                None => {
                    best = Some(i);
                    best_depth = d;
                },
                Some(_) => {
                    if d >= best_depth {
                        best = Some(i);
                        best_depth = d;
                    }
                },
            }
        }
        i = i + 1;
    }
    match best {
        None => {
            proof {
                assert forall|k: int| !is_last_deepest(parents@, cs, ms, k) by {
                    if 0 <= k < cs.len() {
                        assert(!covers_all(parents@, ms, cs[k]));
                    }
                }
            }
            None
        },
        Some(b) => {
            proof {
                assert(is_last_deepest(parents@, cs, ms, b as int));
                lemma_last_deepest_unique(parents@, cs, ms, b as int);
            }
            Some(candidates[b])
        },
    }
}

proof fn lemma_last_deepest_unique(
    parents: Map<u128, Option<u128>>,
    cs: Seq<SettledCandidate>,
    ms: Seq<SettledCandidate>,
    b: int,
)
    requires
        is_last_deepest(parents, cs, ms, b),
    ensures
        common_ancestor_spec(parents, cs, ms) == Some(cs[b]),
{
    let k = choose|i: int| is_last_deepest(parents, cs, ms, i);
    assert(is_last_deepest(parents, cs, ms, k));
    if k < b {
        assert(depth(parents, cs[b].revision) < depth(parents, cs[k].revision));
    } else if k > b {
        assert(depth(parents, cs[k].revision) < depth(parents, cs[b].revision));
    }
}

/// The maximal candidates among `candidates`, in candidate order.
pub fn maximal_settled_candidates(
    parents: &HashMap<u128, Option<u128>>,
    candidates: &[SettledCandidate],
) -> (m: Vec<SettledCandidate>)
    requires
        candidates_well_rooted(parents@, candidates@),
    ensures
        m@ == maximal_candidates(parents@, candidates@),
{
    let ghost cs = candidates@;
    let ghost pred = maximal_pred(parents@, cs);
    let mut m: Vec<SettledCandidate> = Vec::new();
    let mut i: usize = 0;
    while i < candidates.len()
        invariant
            cs == candidates@,
            pred == maximal_pred(parents@, cs),
            candidates_well_rooted(parents@, cs),
            i <= cs.len(),
            m@ == cs.take(i as int).filter(pred),
        decreases cs.len() - i,
    {
        let c = candidates[i];
        let mut superseded = false;
        let mut o: usize = 0;
        while o < candidates.len()
            invariant
                cs == candidates@,
                candidates_well_rooted(parents@, cs),
                c == cs[i as int],
                i < cs.len(),
                o <= cs.len(),
                superseded == exists|k: int|
                    0 <= k < o && c.revision != #[trigger] cs[k].revision && is_strict_ancestor(
                        parents@,
                        c.revision,
                        cs[k].revision,
                    ),
            decreases cs.len() - o,
        {
            let other = candidates[o];
            if !superseded && c.revision != other.revision && revision_is_ancestor(
                parents,
                c.revision,
                other.revision,
            ) {
                superseded = true;
            }
            o = o + 1;
        }
        proof {
            reveal(Seq::filter);
            assert(cs.take(i + 1).drop_last() =~= cs.take(i as int));
            assert(cs.take(i + 1).last() == c);
            assert(pred(c) == !superseded);
        }
        if !superseded {
            m.push(c);
        }
        i = i + 1;
    }
    assert(cs.take(cs.len() as int) =~= cs);
    m
}

/// The effective resolution of a proposition from its settled candidates:
/// one maximal candidate (or several that agree) decides the status;
/// otherwise the status is a conflict that rests on the last common settled
/// ancestor of the maximal candidates, if there is one.
pub fn effective_from_candidates(
    parents: &HashMap<u128, Option<u128>>,
    candidates: &[SettledCandidate],
) -> (r: EffectiveResolution)
    requires
        candidates_well_rooted(parents@, candidates@),
    ensures
        r == effective_spec(parents@, candidates@),
{
    let maximal = maximal_settled_candidates(parents, candidates);
    proof {
        lemma_filter_well_rooted(parents@, candidates@);
    }
    let n = maximal.len();
    let mut compatible = n > 1;
    if n > 1 {
        let first = maximal[0];
        let mut k: usize = 0;
        while k < n
            invariant
                n == maximal@.len(),
                n > 1,
                first == maximal@[0],
                k <= n,
                compatible == forall|j: int|
                    0 <= j < k ==> (#[trigger] maximal@[j]).outcome == first.outcome
                        && maximal@[j].revision == first.revision,
            decreases n - k,
        {
            if maximal[k].outcome != first.outcome || maximal[k].revision != first.revision {
                compatible = false;
            }
            k = k + 1;
        }
    }
    if n == 1 || compatible {
        let m0 = maximal[0];
        let status = match m0.outcome {
            SettledOutcome::Accepted => EffectiveStatus::Accepted,
            SettledOutcome::Rejected => EffectiveStatus::Rejected,
        };
        let reason = if n == 1 {
            EffectiveReason::ValidSettlement
        } else {
            EffectiveReason::CompatibleParallelSettlements
        };
        EffectiveResolution {
            status,
            revision: Some(m0.revision),
            deliberation: Some(m0.deliberation),
            settlement: Some(m0.settlement),
            reason,
        }
    } else {
        let ancestor = if n > 1 {
            last_common_settled_ancestor(parents, candidates, maximal.as_slice())
        } else {
            None
        };
        match ancestor {
            Some(a) => EffectiveResolution {
                status: EffectiveStatus::Conflict,
                revision: Some(a.revision),
                deliberation: Some(a.deliberation),
                settlement: Some(a.settlement),
                reason: EffectiveReason::MultipleSettledOutcomes,
            },
            None => EffectiveResolution {
                status: EffectiveStatus::Conflict,
                revision: None,
                deliberation: None,
                settlement: None,
                reason: EffectiveReason::MultipleSettledOutcomes,
            },
        }
    }
}

/// Law: whatever revision, deliberation and settlement the effective
/// resolution names belong together to one of the settled candidates.
pub proof fn law_effective_rests_on_a_candidate(
    parents: Map<u128, Option<u128>>,
    cands: Seq<SettledCandidate>,
)
    requires
        candidates_well_rooted(parents, cands),
    ensures
        effective_spec(parents, cands).revision is Some ==> exists|i: int|
            0 <= i < cands.len() && Some(#[trigger] cands[i].revision) == effective_spec(
                parents,
                cands,
            ).revision && Some(cands[i].deliberation) == effective_spec(parents, cands).deliberation
                && Some(cands[i].settlement) == effective_spec(parents, cands).settlement,
{
    lemma_filter_well_rooted(parents, cands);
    let m = maximal_candidates(parents, cands);
    let r = effective_spec(parents, cands);
    if m.len() == 1 || compatible_parallel(m) {
        assert(cands.contains(m[0]));
        let i = choose|i: int| 0 <= i < cands.len() && cands[i] == m[0];
        assert(Some(cands[i].revision) == r.revision);
    } else if m.len() > 1 {
        if exists|i: int| is_last_deepest(parents, cands, m, i) {
            let i = choose|i: int| is_last_deepest(parents, cands, m, i);
            assert(Some(cands[i].revision) == r.revision);
        }
    }
}

proof fn lemma_deepest_index(parents: Map<u128, Option<u128>>, cands: Seq<SettledCandidate>) -> (
    i: int)
    requires
        cands.len() > 0,
    ensures
        0 <= i < cands.len(),
        forall|j: int|
            0 <= j < cands.len() ==> depth(parents, #[trigger] cands[j].revision) <= depth(
                parents,
                cands[i].revision,
            ),
    decreases cands.len(),
{
    if cands.len() == 1 {
        0
    } else {
        let k = lemma_deepest_index(parents, cands.drop_last());
        assert forall|j: int| 0 <= j < cands.len() - 1 implies depth(
            parents,
            #[trigger] cands[j].revision,
        ) <= depth(parents, cands[k].revision) by {
            assert(cands.drop_last()[j] == cands[j]);
        }
        assert(cands.drop_last()[k] == cands[k]);
        if depth(parents, cands.last().revision) > depth(parents, cands[k].revision) {
            cands.len() - 1
        } else {
            k
        }
    }
}

/// Law: when a proposition has any settled candidate, at least one of them
/// is maximal (ancestry has no cycles), so a conflict always stands
/// between two or more maximal candidates.
pub proof fn law_some_candidate_is_maximal(
    parents: Map<u128, Option<u128>>,
    cands: Seq<SettledCandidate>,
)
    requires
        candidates_well_rooted(parents, cands),
        cands.len() > 0,
    ensures
        maximal_candidates(parents, cands).len() > 0,
        effective_spec(parents, cands).status == EffectiveStatus::Conflict ==> maximal_candidates(
            parents,
            cands,
        ).len() > 1,
{
    let i = lemma_deepest_index(parents, cands);
    let c = cands[i];
    assert(is_maximal(parents, cands, c)) by {
        assert forall|o: int| 0 <= o < cands.len() implies !(c.revision != #[trigger] cands[
            o
        ].revision && is_strict_ancestor(parents, c.revision, cands[o].revision)) by {
            if c.revision != cands[o].revision && is_strict_ancestor(
                parents,
                c.revision,
                cands[o].revision,
            ) {
                law_ancestor_is_shallower(parents, c.revision, cands[o].revision);
            }
        }
    }
    let pred = maximal_pred(parents, cands);
    assert(pred(cands[i]));
    cands.lemma_filter_contains(pred, i);
}

/// Every maximal candidate is a candidate, so it is well rooted too.
proof fn lemma_filter_well_rooted(parents: Map<u128, Option<u128>>, cs: Seq<SettledCandidate>)
    requires
        candidates_well_rooted(parents, cs),
    ensures
        candidates_well_rooted(parents, maximal_candidates(parents, cs)),
        forall|k: int|
            0 <= k < maximal_candidates(parents, cs).len() ==> cs.contains(
                #[trigger] maximal_candidates(parents, cs)[k],
            ),
{
    lemma_filter_members(cs, maximal_pred(parents, cs));
    let m = maximal_candidates(parents, cs);
    assert forall|k: int| 0 <= k < m.len() implies has_finite_ancestry(
        parents,
        #[trigger] m[k].revision,
    ) && depth(parents, m[k].revision) <= usize::MAX by {
        assert(cs.contains(m[k]));
        let j = choose|j: int| 0 <= j < cs.len() && cs[j] == m[k];
        assert(cs[j].revision == m[k].revision);
    }
}

/// Every element of a filtered sequence is an element of the sequence.
pub proof fn lemma_filter_members<A>(s: Seq<A>, pred: spec_fn(A) -> bool)
    ensures
        forall|k: int| 0 <= k < s.filter(pred).len() ==> s.contains(#[trigger] s.filter(pred)[k]),
    decreases s.len(),
{
    reveal(Seq::filter);
    if s.len() > 0 {
        lemma_filter_members(s.drop_last(), pred);
        let f = s.filter(pred);
        let g = s.drop_last().filter(pred);
        assert forall|k: int| 0 <= k < f.len() implies s.contains(#[trigger] f[k]) by {
            if k < g.len() {
                assert(f[k] == g[k]);
                assert(s.drop_last().contains(g[k]));
                let j = choose|j: int| 0 <= j < s.drop_last().len() && s.drop_last()[j] == g[k];
                assert(s[j] == g[k]);
            } else {
                assert(f[k] == s.last());
                assert(s[s.len() - 1] == s.last());
            }
        }
    }
}

/// Whether every candidate's revision has a finite ancestry; see
/// [`candidates_well_rooted`].
pub fn candidates_rooted(parents: &HashMap<u128, Option<u128>>, candidates: &[SettledCandidate]) -> (b: bool)
    ensures
        b == candidates_well_rooted(parents@, candidates@),
{
    let size = parents.len();
    let mut i: usize = 0;
    while i < candidates.len()
        invariant
            size == parents@.len(),
            i <= candidates@.len(),
            forall|t: int|
                0 <= t < i ==> has_finite_ancestry(parents@, #[trigger] candidates@[t].revision)
                    && depth(parents@, candidates@[t].revision) <= usize::MAX,
        decreases candidates@.len() - i,
    {
        if !revision_chain_ends(parents, candidates[i].revision) {
            return false;
        }
        i = i + 1;
    }
    true
}

/// The effective resolution of a proposition from its settled candidates,
/// or `None` when some candidate's revision lies on a cycle of parent
/// links (where no resolution exists).
pub fn effective_resolution(parents: &HashMap<u128, Option<u128>>, candidates: &[SettledCandidate]) -> (r: Option<
    EffectiveResolution,
>)
    ensures
        r == if candidates_well_rooted(parents@, candidates@) {
            Some(effective_spec(parents@, candidates@))
        } else {
            None
        },
{
    if candidates_rooted(parents, candidates) {
        Some(effective_from_candidates(parents, candidates))
    } else {
        None
    }
}

/// Candidate `i` is not superseded: no other candidate's revision descends
/// from its revision.
pub open spec fn unsuperseded(parents: Map<u128, Option<u128>>, cands: Seq<SettledCandidate>, i: int) -> bool {
    &&& 0 <= i < cands.len()
    &&& forall|o: int|
        0 <= o < cands.len() ==> !(cands[i].revision != #[trigger] cands[o].revision && is_strict_ancestor(
            parents,
            cands[i].revision,
            cands[o].revision,
        ))
}

/// The unsuperseded candidates stand among the maximal ones.
proof fn lemma_maximal_members(parents: Map<u128, Option<u128>>, cands: Seq<SettledCandidate>)
    ensures
        forall|i: int|
            #[trigger] unsuperseded(parents, cands, i) ==> maximal_candidates(parents, cands).contains(cands[i]),
{
    let pred = maximal_pred(parents, cands);
    let m = maximal_candidates(parents, cands);
    assert forall|i: int| #[trigger] unsuperseded(parents, cands, i) implies m.contains(cands[i]) by {
        assert(pred(cands[i]));
        cands.lemma_filter_contains(pred, i);
    }
}

/// Each maximal candidate is an unsuperseded candidate.
proof fn lemma_maximal_source(parents: Map<u128, Option<u128>>, cands: Seq<SettledCandidate>, k: int) -> (i: int)
    requires
        0 <= k < maximal_candidates(parents, cands).len(),
    ensures
        unsuperseded(parents, cands, i),
        cands[i] == maximal_candidates(parents, cands)[k],
{
    let pred = maximal_pred(parents, cands);
    let m = maximal_candidates(parents, cands);
    assert(m.contains(m[k]));
    cands.lemma_filter_contains_rev(pred, m[k]);
    #[allow(deprecated)]
    cands.filter_lemma(pred);
    assert(pred(m[k]));
    let i = choose|i: int| 0 <= i < cands.len() && cands[i] == m[k];
    i
}

/// The effective status an outcome gives, as a table.
pub open spec fn outcome_status_table(o: SettledOutcome, s: EffectiveStatus) -> bool {
    (o == SettledOutcome::Accepted && s == EffectiveStatus::Accepted) || (o == SettledOutcome::Rejected
        && s == EffectiveStatus::Rejected)
}

/// Law: when two unsuperseded settled candidates disagree, on the outcome
/// or on the revision, the effective state is a conflict of multiple
/// settled outcomes; parallel settlements are compatible only when they
/// agree on both.
pub proof fn law_disagreeing_settlements_conflict(
    parents: Map<u128, Option<u128>>,
    cands: Seq<SettledCandidate>,
    i: int,
    j: int,
)
    requires
        unsuperseded(parents, cands, i),
        unsuperseded(parents, cands, j),
        cands[i].outcome != cands[j].outcome || cands[i].revision != cands[j].revision,
    ensures
        effective_spec(parents, cands).status == EffectiveStatus::Conflict,
        effective_spec(parents, cands).reason == EffectiveReason::MultipleSettledOutcomes,
{
    lemma_maximal_members(parents, cands);
    let m = maximal_candidates(parents, cands);
    assert(m.contains(cands[i]));
    assert(m.contains(cands[j]));
    let a = choose|a: int| 0 <= a < m.len() && m[a] == cands[i];
    let b = choose|b: int| 0 <= b < m.len() && m[b] == cands[j];
    if m.len() == 1 {
        assert(a == 0 && b == 0);
    }
    if compatible_parallel(m) {
        assert(m[a].outcome == m[0].outcome && m[a].revision == m[0].revision);
        assert(m[b].outcome == m[0].outcome && m[b].revision == m[0].revision);
    }
}

/// Law: when some candidate is unsuperseded and all unsuperseded
/// candidates agree on the outcome and the revision, the effective status
/// is that outcome's status on that revision, resting on one of them.
pub proof fn law_agreeing_settlements_decide(
    parents: Map<u128, Option<u128>>,
    cands: Seq<SettledCandidate>,
    i: int,
)
    requires
        unsuperseded(parents, cands, i),
        forall|j: int|
            #[trigger] unsuperseded(parents, cands, j) ==> cands[j].outcome == cands[i].outcome
                && cands[j].revision == cands[i].revision,
    ensures
        outcome_status_table(cands[i].outcome, effective_spec(parents, cands).status),
        effective_spec(parents, cands).revision == Some(cands[i].revision),
        exists|j: int|
            unsuperseded(parents, cands, j) && effective_spec(parents, cands).deliberation == Some(
                #[trigger] cands[j].deliberation,
            ) && effective_spec(parents, cands).settlement == Some(cands[j].settlement),
{
    lemma_maximal_members(parents, cands);
    let m = maximal_candidates(parents, cands);
    assert(m.contains(cands[i]));
    assert(m.len() > 0);
    assert forall|k: int| 0 <= k < m.len() implies (#[trigger] m[k]).outcome == cands[i].outcome
        && m[k].revision == cands[i].revision by {
        let x = lemma_maximal_source(parents, cands, k);
    }
    if m.len() > 1 {
        assert(compatible_parallel(m));
    }
    let x = lemma_maximal_source(parents, cands, 0);
}

/// A filter keeps exactly one element when exactly one position passes.
proof fn lemma_filter_single(s: Seq<SettledCandidate>, pred: spec_fn(SettledCandidate) -> bool, i: int)
    requires
        0 <= i < s.len(),
        pred(s[i]),
        forall|j: int| 0 <= j < s.len() && j != i ==> !pred(#[trigger] s[j]),
    ensures
        s.filter(pred) == seq![s[i]],
    decreases s.len(),
{
    reveal(Seq::filter);
    let p = s.drop_last();
    if i == s.len() - 1 {
        assert(p.filter(pred) =~= Seq::<SettledCandidate>::empty()) by {
            lemma_filter_none(p, pred);
        }
    } else {
        assert forall|j: int| 0 <= j < p.len() && j != i implies !pred(#[trigger] p[j]) by {
            assert(p[j] == s[j]);
        }
        lemma_filter_single(p, pred, i);
        assert(!pred(s[s.len() - 1]));
    }
}

proof fn lemma_filter_none(s: Seq<SettledCandidate>, pred: spec_fn(SettledCandidate) -> bool)
    requires
        forall|j: int| 0 <= j < s.len() ==> !pred(#[trigger] s[j]),
    ensures
        s.filter(pred).len() == 0,
    decreases s.len(),
{
    reveal(Seq::filter);
    if s.len() > 0 {
        let p = s.drop_last();
        assert forall|j: int| 0 <= j < p.len() implies !pred(#[trigger] p[j]) by {
            assert(p[j] == s[j]);
        }
        lemma_filter_none(p, pred);
        assert(!pred(s[s.len() - 1]));
    }
}

/// A filter keeps at least two elements when two positions pass.
proof fn lemma_filter_two(s: Seq<SettledCandidate>, pred: spec_fn(SettledCandidate) -> bool, i: int, j: int)
    requires
        0 <= i < j < s.len(),
        pred(s[i]),
        pred(s[j]),
    ensures
        s.filter(pred).len() >= 2,
    decreases s.len(),
{
    reveal(Seq::filter);
    let p = s.drop_last();
    if j == s.len() - 1 {
        assert(p[i] == s[i]);
        p.lemma_filter_contains(pred, i);
        assert(p.filter(pred).len() >= 1);
    } else {
        assert(p[i] == s[i] && p[j] == s[j]);
        lemma_filter_two(p, pred, i, j);
    }
}

/// Law: a single unsuperseded settled candidate decides the effective
/// state on its own (a valid settlement resting on it).
pub proof fn law_single_settlement_decides(parents: Map<u128, Option<u128>>, cands: Seq<SettledCandidate>, i: int)
    requires
        unsuperseded(parents, cands, i),
        forall|j: int| #[trigger] unsuperseded(parents, cands, j) ==> j == i,
    ensures
        outcome_status_table(cands[i].outcome, effective_spec(parents, cands).status),
        effective_spec(parents, cands).revision == Some(cands[i].revision),
        effective_spec(parents, cands).deliberation == Some(cands[i].deliberation),
        effective_spec(parents, cands).settlement == Some(cands[i].settlement),
        effective_spec(parents, cands).reason == EffectiveReason::ValidSettlement,
{
    let pred = maximal_pred(parents, cands);
    assert(pred(cands[i]));
    assert forall|j: int| 0 <= j < cands.len() && j != i implies !pred(#[trigger] cands[j]) by {
        if pred(cands[j]) {
            assert(unsuperseded(parents, cands, j));
        }
    }
    lemma_filter_single(cands, pred, i);
}

/// Law: two or more unsuperseded settled candidates that agree on the
/// outcome and the revision are compatible parallel settlements.
pub proof fn law_parallel_settlements_compatible(
    parents: Map<u128, Option<u128>>,
    cands: Seq<SettledCandidate>,
    i: int,
    j: int,
)
    requires
        unsuperseded(parents, cands, i),
        unsuperseded(parents, cands, j),
        i != j,
        forall|k: int|
            #[trigger] unsuperseded(parents, cands, k) ==> cands[k].outcome == cands[i].outcome
                && cands[k].revision == cands[i].revision,
    ensures
        outcome_status_table(cands[i].outcome, effective_spec(parents, cands).status),
        effective_spec(parents, cands).revision == Some(cands[i].revision),
        effective_spec(parents, cands).reason == EffectiveReason::CompatibleParallelSettlements,
{
    let pred = maximal_pred(parents, cands);
    assert(pred(cands[i]) && pred(cands[j]));
    if i < j {
        lemma_filter_two(cands, pred, i, j);
    } else {
        lemma_filter_two(cands, pred, j, i);
    }
    law_agreeing_settlements_decide(parents, cands, i);
}

} // verus!
