//! The roster of a reconciliation deliberation: which candidates of the
//! source deliberations it may select, and what it must say of the ones it
//! leaves out.

use vstd::prelude::*;
use crate::text::same_text;
use crate::closure::insert_sorted;
use crate::consensus::{id_list_of, member_ids};
use crate::json::{JsonValue, field, id_value, parse_object_id_text};

verus! {

/// A candidate of the union of the source deliberations' participants,
/// with what the store knows of it: whether it is an actor, and whether a
/// retirement of it is in the roster's causal closure.
#[derive(Clone, Copy, Debug, PartialEq, Eq, Structural)]
pub struct RosterCandidate {
    pub actor: u128,
    pub is_actor: bool,
    pub retired: bool,
}

/// An entry of the roster's selected participants: the actor, the basis it
/// gives for the selection, and whether the actor is a stored actor.
#[derive(Clone, Debug, PartialEq, Eq)]
pub struct RosterSelection {
    pub actor: u128,
    pub basis: Option<String>,
    pub is_actor: bool,
}

/// `a` is a candidate.
pub open spec fn in_union(candidates: Seq<RosterCandidate>, a: u128) -> bool {
    exists|i: int| 0 <= i < candidates.len() && (#[trigger] candidates[i]).actor == a
}

/// `a` is a candidate that is an actor and not retired.
pub open spec fn is_eligible(candidates: Seq<RosterCandidate>, a: u128) -> bool {
    exists|i: int|
        0 <= i < candidates.len() && (#[trigger] candidates[i]).actor == a && candidates[i].is_actor
            && !candidates[i].retired
}

/// `a` is selected.
pub open spec fn is_selected(selected: Seq<RosterSelection>, a: u128) -> bool {
    exists|i: int| 0 <= i < selected.len() && (#[trigger] selected[i]).actor == a
}

/// The reason the roster gives for excluding `a`: that of the last
/// exclusion of `a`.
pub open spec fn exclusion_reason(excluded: Seq<(u128, String)>, a: u128) -> Option<Seq<char>>
    decreases excluded.len(),
{
    if excluded.len() == 0 {
        None
    } else if excluded.last().0 == a {
        Some(excluded.last().1@)
    } else {
        exclusion_reason(excluded.drop_last(), a)
    }
}

/// The first selection of `a`.
pub open spec fn first_selection(selected: Seq<RosterSelection>, a: u128) -> Option<RosterSelection>
    decreases selected.len(),
{
    if selected.len() == 0 {
        None
    } else {
        match first_selection(selected.drop_last(), a) {
            Some(s) => Some(s),
            None => if selected.last().actor == a {
                Some(selected.last())
            } else {
                None
            },
        }
    }
}

/// The candidates are accounted for: each one that is not an actor is
/// excluded, and each retired actor is excluded as retired.
pub open spec fn candidates_accounted(candidates: Seq<RosterCandidate>, excluded: Seq<(u128, String)>) -> bool {
    forall|i: int|
        0 <= i < candidates.len() ==> {
            let c = #[trigger] candidates[i];
            &&& !c.is_actor ==> exclusion_reason(excluded, c.actor) is Some
            &&& c.is_actor && c.retired ==> exclusion_reason(excluded, c.actor) == Some("retired"@)
        }
}

/// The selection follows the roster's mode. Selecting the union of
/// eligible candidates means selecting exactly them and excluding none of
/// them. Otherwise no ineligible candidate is selected, every eligible one
/// not selected is excluded by governance, and every selected actor that
/// is no candidate is an actor selected by governance.
pub open spec fn selection_follows_mode(
    candidates: Seq<RosterCandidate>,
    mode: Seq<char>,
    selected: Seq<RosterSelection>,
    excluded: Seq<(u128, String)>,
) -> bool {
    if mode == "union_eligible"@ {
        &&& forall|a: u128| is_selected(selected, a) <==> is_eligible(candidates, a)
        &&& forall|i: int| 0 <= i < excluded.len() ==> !is_eligible(candidates, (#[trigger] excluded[i]).0)
    } else {
        &&& forall|a: u128|
            is_selected(selected, a) && in_union(candidates, a) ==> is_eligible(candidates, a)
        &&& forall|a: u128|
            is_eligible(candidates, a) ==> is_selected(selected, a) || exclusion_reason(excluded, a)
                == Some("governance_excluded"@)
        &&& forall|a: u128|
            is_selected(selected, a) && !in_union(candidates, a) ==> (first_selection(selected, a) matches Some(s)
                && s.is_actor && (s.basis matches Some(b) && b@ == "governance_selected"@))
    }
}

/// Whether some candidate is `a`.
fn union_has(candidates: &[RosterCandidate], a: u128) -> (r: bool)
    ensures
        r == in_union(candidates@, a),
{
    let mut i: usize = 0;
    while i < candidates.len()
        invariant
            i <= candidates@.len(),
            forall|k: int| 0 <= k < i ==> (#[trigger] candidates@[k]).actor != a,
        decreases candidates@.len() - i,
    {
        if candidates[i].actor == a {
            return true;
        }
        i = i + 1;
    }
    false
}

/// Whether `a` is an eligible candidate.
fn eligible(candidates: &[RosterCandidate], a: u128) -> (r: bool)
    ensures
        r == is_eligible(candidates@, a),
{
    let mut i: usize = 0;
    while i < candidates.len()
        invariant
            i <= candidates@.len(),
            forall|k: int|
                0 <= k < i ==> !((#[trigger] candidates@[k]).actor == a && candidates@[k].is_actor
                    && !candidates@[k].retired),
        decreases candidates@.len() - i,
    {
        let c = candidates[i];
        if c.actor == a && c.is_actor && !c.retired {
            return true;
        }
        i = i + 1;
    }
    false
}

/// Whether `a` is selected.
fn selected_has(selected: &Vec<RosterSelection>, a: u128) -> (r: bool)
    ensures
        r == is_selected(selected@, a),
{
    let mut i: usize = 0;
    while i < selected.len()
        invariant
            i <= selected@.len(),
            forall|k: int| 0 <= k < i ==> (#[trigger] selected@[k]).actor != a,
        decreases selected@.len() - i,
    {
        if selected[i].actor == a {
            return true;
        }
        i = i + 1;
    }
    false
}

/// The reason given for excluding `a`, if any.
fn reason_for<'a>(excluded: &'a Vec<(u128, String)>, a: u128) -> (r: Option<&'a str>)
    ensures
        match r {
            Some(t) => exclusion_reason(excluded@, a) == Some(t@),
            None => exclusion_reason(excluded@, a) is None,
        },
{
    let mut i: usize = excluded.len();
    assert(excluded@.take(i as int) =~= excluded@);
    while i > 0
        invariant
            i <= excluded@.len(),
            exclusion_reason(excluded@, a) == exclusion_reason(excluded@.take(i as int), a),
        decreases i,
    {
        let k = i - 1;
        proof {
            assert(excluded@.take(i as int).drop_last() =~= excluded@.take(k as int));
            assert(excluded@.take(i as int).last() == excluded@[k as int]);
        }
        if excluded[k].0 == a {
            return Some(excluded[k].1.as_str());
        }
        i = k;
    }
    None
}

/// The first selection of `a`.
fn selection_of<'a>(selected: &'a Vec<RosterSelection>, a: u128) -> (r: Option<&'a RosterSelection>)
    ensures
        match r {
            Some(s) => first_selection(selected@, a) == Some(*s),
            None => first_selection(selected@, a) is None,
        },
{
    let mut i: usize = 0;
    while i < selected.len()
        invariant
            i <= selected@.len(),
            first_selection(selected@.take(i as int), a) is None,
        decreases selected@.len() - i,
    {
        proof {
            assert(selected@.take(i + 1).drop_last() =~= selected@.take(i as int));
        }
        if selected[i].actor == a {
            proof {
                lemma_first_selection_prefix(selected@, a, i as int + 1);
            }
            return Some(&selected[i]);
        }
        i = i + 1;
    }
    assert(selected@.take(selected@.len() as int) =~= selected@);
    None
}

/// Once a prefix selects `a`, the whole list's first selection of `a` is
/// the prefix's.
proof fn lemma_first_selection_prefix(selected: Seq<RosterSelection>, a: u128, n: int)
    requires
        0 <= n <= selected.len(),
        first_selection(selected.take(n), a) is Some,
    ensures
        first_selection(selected, a) == first_selection(selected.take(n), a),
    decreases selected.len() - n,
{
    if n < selected.len() {
        assert(selected.take(n + 1).drop_last() =~= selected.take(n));
        lemma_first_selection_prefix(selected, a, n + 1);
    } else {
        assert(selected.take(n) =~= selected);
    }
}

/// Checks a roster's selection against its candidates: every candidate is
/// accounted for, and the selection follows the roster's `mode`.
pub fn roster_selection_valid(
    candidates: &[RosterCandidate],
    mode: &str,
    selected: &Vec<RosterSelection>,
    excluded: &Vec<(u128, String)>,
) -> (r: bool)
    ensures
        r == (candidates_accounted(candidates@, excluded@) && selection_follows_mode(
            candidates@,
            mode@,
            selected@,
            excluded@,
        )),
{
    let mut i: usize = 0;
    while i < candidates.len()
        invariant
            i <= candidates@.len(),
            forall|k: int|
                0 <= k < i ==> {
                    let c = #[trigger] candidates@[k];
                    &&& !c.is_actor ==> exclusion_reason(excluded@, c.actor) is Some
                    &&& c.is_actor && c.retired ==> exclusion_reason(excluded@, c.actor) == Some(
                        "retired"@,
                    )
                },
        decreases candidates@.len() - i,
    {
        let c = candidates[i];
        let reason = reason_for(excluded, c.actor);
        if !c.is_actor {
            if reason.is_none() {
                assert(!candidates_accounted(candidates@, excluded@)) by {
                    let x = candidates@[i as int];
                }
                return false;
            }
        } else if c.retired {
            let retired_reason = match reason {
                Some(t) => same_text(t, "retired"),
                None => false,
            };
            if !retired_reason {
                assert(!candidates_accounted(candidates@, excluded@)) by {
                    let x = candidates@[i as int];
                }
                return false;
            }
        }
        i = i + 1;
    }
    assert(candidates_accounted(candidates@, excluded@));
    if same_text(mode, "union_eligible") {
        let mut j: usize = 0;
        while j < selected.len()
            invariant
                j <= selected@.len(),
                candidates_accounted(candidates@, excluded@),
                mode@ == "union_eligible"@,
                forall|k: int| 0 <= k < j ==> is_eligible(candidates@, (#[trigger] selected@[k]).actor),
            decreases selected@.len() - j,
        {
            if !eligible(candidates, selected[j].actor) {
                assert(is_selected(selected@, selected@[j as int].actor));
                return false;
            }
            j = j + 1;
        }
        let mut k: usize = 0;
        while k < candidates.len()
            invariant
                k <= candidates@.len(),
                candidates_accounted(candidates@, excluded@),
                mode@ == "union_eligible"@,
                forall|m: int|
                    0 <= m < k && #[trigger] candidates@[m].is_actor && !candidates@[m].retired
                        ==> is_selected(selected@, candidates@[m].actor),
            decreases candidates@.len() - k,
        {
            let c = candidates[k];
            if c.is_actor && !c.retired && !selected_has(selected, c.actor) {
                assert(is_eligible(candidates@, c.actor));
                return false;
            }
            k = k + 1;
        }
        proof {
            assert forall|a: u128| is_selected(selected@, a) implies is_eligible(candidates@, a) by {
                let k = choose|k: int| 0 <= k < selected@.len() && (#[trigger] selected@[k]).actor == a;
                assert(is_eligible(candidates@, selected@[k].actor));
            }
            assert forall|a: u128| is_eligible(candidates@, a) implies is_selected(selected@, a) by {
                let m = choose|m: int|
                    0 <= m < candidates@.len() && (#[trigger] candidates@[m]).actor == a
                        && candidates@[m].is_actor && !candidates@[m].retired;
                assert(candidates@[m].is_actor && !candidates@[m].retired);
            }
        }
        let mut e: usize = 0;
        while e < excluded.len()
            invariant
                e <= excluded@.len(),
                candidates_accounted(candidates@, excluded@),
                mode@ == "union_eligible"@,
                forall|a: u128| is_selected(selected@, a) ==> is_eligible(candidates@, a),
                forall|a: u128| is_eligible(candidates@, a) ==> is_selected(selected@, a),
                forall|m: int| 0 <= m < e ==> !is_eligible(candidates@, (#[trigger] excluded@[m]).0),
            decreases excluded@.len() - e,
        {
            if eligible(candidates, excluded[e].0) {
                assert(!selection_follows_mode(candidates@, mode@, selected@, excluded@)) by {
                    let x = excluded@[e as int];
                }
                return false;
            }
            e = e + 1;
        }
        true
    } else {
        let mut j: usize = 0;
        while j < selected.len()
            invariant
                j <= selected@.len(),
                candidates_accounted(candidates@, excluded@),
                mode@ != "union_eligible"@,
                forall|k: int|
                    0 <= k < j ==> {
                        let a = (#[trigger] selected@[k]).actor;
                        &&& in_union(candidates@, a) ==> is_eligible(candidates@, a)
                        &&& !in_union(candidates@, a) ==> (first_selection(selected@, a) matches Some(s)
                            && s.is_actor && (s.basis matches Some(b) && b@ == "governance_selected"@))
                    },
            decreases selected@.len() - j,
        {
            let a = selected[j].actor;
            proof {
                assert(is_selected(selected@, selected@[j as int].actor));
            }
            if union_has(candidates, a) {
                if !eligible(candidates, a) {
                    return false;
                }
            } else {
                assert(first_selection(selected@, a) is Some) by {
                    lemma_selected_has_first(selected@, a, j as int);
                }
                match selection_of(selected, a) {
                    Some(s) => {
                        let governed = match &s.basis {
                            Some(b) => same_text(b.as_str(), "governance_selected"),
                            None => false,
                        };
                        if !s.is_actor || !governed {
                            return false;
                        }
                    },
                    None => {
                        return false;
                    },
                }
            }
            j = j + 1;
        }
        proof {
            assert forall|a: u128|
                is_selected(selected@, a) && in_union(candidates@, a) implies is_eligible(candidates@, a) by {
                let k = choose|k: int| 0 <= k < selected@.len() && (#[trigger] selected@[k]).actor == a;
                assert(in_union(candidates@, selected@[k].actor));
            }
            assert forall|a: u128|
                is_selected(selected@, a) && !in_union(candidates@, a) implies (first_selection(
                selected@,
                a,
            ) matches Some(s) && s.is_actor && (s.basis matches Some(b) && b@
                == "governance_selected"@)) by {
                let k = choose|k: int| 0 <= k < selected@.len() && (#[trigger] selected@[k]).actor == a;
                assert(!in_union(candidates@, selected@[k].actor));
            }
        }
        let mut k: usize = 0;
        while k < candidates.len()
            invariant
                k <= candidates@.len(),
                candidates_accounted(candidates@, excluded@),
                mode@ != "union_eligible"@,
                forall|a: u128|
                    is_selected(selected@, a) && in_union(candidates@, a) ==> is_eligible(candidates@, a),
                forall|a: u128|
                    is_selected(selected@, a) && !in_union(candidates@, a) ==> (first_selection(selected@, a) matches Some(s)
                        && s.is_actor && (s.basis matches Some(b) && b@ == "governance_selected"@)),
                forall|m: int|
                    0 <= m < k && #[trigger] candidates@[m].is_actor && !candidates@[m].retired
                        ==> is_selected(selected@, candidates@[m].actor) || exclusion_reason(
                        excluded@,
                        candidates@[m].actor,
                    ) == Some("governance_excluded"@),
            decreases candidates@.len() - k,
        {
            let c = candidates[k];
            if c.is_actor && !c.retired && !selected_has(selected, c.actor) {
                let governed = match reason_for(excluded, c.actor) {
                    Some(t) => same_text(t, "governance_excluded"),
                    None => false,
                };
                if !governed {
                    assert(is_eligible(candidates@, c.actor));
                    return false;
                }
            }
            k = k + 1;
        }
        proof {
            assert forall|a: u128| is_eligible(candidates@, a) implies is_selected(selected@, a)
                || exclusion_reason(excluded@, a) == Some("governance_excluded"@) by {
                let m = choose|m: int|
                    0 <= m < candidates@.len() && (#[trigger] candidates@[m]).actor == a
                        && candidates@[m].is_actor && !candidates@[m].retired;
                assert(candidates@[m].is_actor && !candidates@[m].retired);
            }
        }
        true
    }
}

/// A list that selects `a` at position `j` has a first selection of `a`.
proof fn lemma_selected_has_first(selected: Seq<RosterSelection>, a: u128, j: int)
    requires
        0 <= j < selected.len(),
        selected[j].actor == a,
    ensures
        first_selection(selected, a) is Some,
    decreases selected.len(),
{
    if j < selected.len() - 1 {
        lemma_selected_has_first(selected.drop_last(), a, j);
    }
}

/// A candidate entry of a roster's candidate union: its actor and the
/// source deliberations it lists, `None` unless both are readable.
pub open spec fn candidate_entry(item: JsonValue) -> Option<(u128, Seq<u128>)> {
    let actor = id_value(field(item, "actor_id"@));
    let sources = id_list_of(item, "source_memberships"@, Some("deliberation_id"@));
    if actor is Some && sources is Some {
        Some((actor->0, sources->0))
    } else {
        None
    }
}

/// The sources the last entry for `a` lists.
pub open spec fn last_sources(entries: Seq<(u128, Seq<u128>)>, a: u128) -> Option<Seq<u128>>
    decreases entries.len(),
{
    if entries.len() == 0 {
        None
    } else if entries.last().0 == a {
        Some(entries.last().1)
    } else {
        last_sources(entries.drop_last(), a)
    }
}

/// The roster's candidate union is the expected one: every entry is
/// readable, the actors are those expected, and each actor's last entry
/// lists exactly the expected source deliberations.
pub open spec fn union_matches(items: Seq<JsonValue>, expected: Seq<(u128, Vec<u128>)>) -> bool {
    &&& forall|i: int| 0 <= i < items.len() ==> (#[trigger] candidate_entry(items[i])) is Some
    &&& {
        let entries = Seq::new(items.len(), |i: int| candidate_entry(items[i])->0);
        &&& forall|a: u128|
            last_sources(entries, a) is Some <==> exists|k: int|
                0 <= k < expected.len() && (#[trigger] expected[k]).0 == a
        &&& forall|k: int|
            0 <= k < expected.len() ==> (last_sources(entries, (#[trigger] expected[k]).0) matches Some(
                srcs,
            ) && srcs.to_set() == expected[k].1@.to_set())
    }
}

/// Whether two lists hold the same identifiers.
fn same_members(a: &Vec<u128>, b: &Vec<u128>) -> (r: bool)
    ensures
        r == (a@.to_set() == b@.to_set()),
{
    let mut i: usize = 0;
    while i < a.len()
        invariant
            i <= a@.len(),
            forall|k: int| 0 <= k < i ==> b@.contains(#[trigger] a@[k]),
        decreases a@.len() - i,
    {
        if !contains(b, a[i]) {
            proof {
                assert(a@.to_set().contains(a@[i as int]));
                assert(!b@.to_set().contains(a@[i as int]));
            }
            return false;
        }
        i = i + 1;
    }
    let mut j: usize = 0;
    while j < b.len()
        invariant
            j <= b@.len(),
            forall|k: int| 0 <= k < a@.len() ==> b@.contains(#[trigger] a@[k]),
            forall|k: int| 0 <= k < j ==> a@.contains(#[trigger] b@[k]),
        decreases b@.len() - j,
    {
        if !contains(a, b[j]) {
            proof {
                assert(b@.to_set().contains(b@[j as int]));
                assert(!a@.to_set().contains(b@[j as int]));
            }
            return false;
        }
        j = j + 1;
    }
    proof {
        assert forall|x: u128| a@.to_set().contains(x) <==> b@.to_set().contains(x) by {
            if a@.contains(x) {
                let k = choose|k: int| 0 <= k < a@.len() && a@[k] == x;
                assert(b@.contains(a@[k]));
            }
            if b@.contains(x) {
                let k = choose|k: int| 0 <= k < b@.len() && b@[k] == x;
                assert(a@.contains(b@[k]));
            }
        }
        assert(a@.to_set() =~= b@.to_set());
    }
    true
}

/// Whether `x` occurs in `ids`.
fn contains(ids: &Vec<u128>, x: u128) -> (r: bool)
    ensures
        r == ids@.contains(x),
{
    let mut i: usize = 0;
    while i < ids.len()
        invariant
            i <= ids@.len(),
            forall|k: int| 0 <= k < i ==> ids@[k] != x,
        decreases ids@.len() - i,
    {
        if ids[i] == x {
            assert(ids@[i as int] == x);
            return true;
        }
        i = i + 1;
    }
    false
}

/// The sources of the last entry for `a`.
fn last_sources_of(entries: &Vec<(u128, Vec<u128>)>, a: u128) -> (r: Option<&Vec<u128>>)
    ensures
        match r {
            Some(srcs) => last_sources(entries@.map_values(|e: (u128, Vec<u128>)| (e.0, e.1@)), a)
                == Some(srcs@),
            None => last_sources(entries@.map_values(|e: (u128, Vec<u128>)| (e.0, e.1@)), a) is None,
        },
{
    let ghost view = entries@.map_values(|e: (u128, Vec<u128>)| (e.0, e.1@));
    let mut i: usize = entries.len();
    assert(view.take(i as int) =~= view);
    while i > 0
        invariant
            i <= entries@.len(),
            view == entries@.map_values(|e: (u128, Vec<u128>)| (e.0, e.1@)),
            last_sources(view, a) == last_sources(view.take(i as int), a),
        decreases i,
    {
        let k = i - 1;
        proof {
            assert(view.take(i as int).drop_last() =~= view.take(k as int));
            assert(view.take(i as int).last() == view[k as int]);
        }
        if entries[k].0 == a {
            return Some(&entries[k].1);
        }
        i = k;
    }
    None
}

/// Checks a roster's candidate union against the expected one: each
/// expected actor with the source deliberations it took part in.
pub fn candidate_union_matches(items: &Vec<JsonValue>, expected: &Vec<(u128, Vec<u128>)>) -> (r: bool)
    ensures
        r == union_matches(items@, expected@),
{
    let mut entries: Vec<(u128, Vec<u128>)> = Vec::new();
    let mut i: usize = 0;
    while i < items.len()
        invariant
            i <= items@.len(),
            entries@.len() == i,
            forall|k: int| 0 <= k < i ==> (#[trigger] candidate_entry(items@[k])) is Some,
            forall|k: int|
                0 <= k < i ==> (entries@[k].0, entries@[k].1@) == #[trigger] candidate_entry(items@[k])->0,
        decreases items@.len() - i,
    {
        let item = &items[i];
        let actor = parse_object_id_text(item.get("actor_id"));
        let sources = member_ids(item, "source_memberships", Some("deliberation_id"));
        match (actor, sources) {
            (Some(a), Some(srcs)) => {
                entries.push((a, srcs));
            },
            _ => {
                assert(candidate_entry(items@[i as int]) is None);
                return false;
            },
        }
        i = i + 1;
    }
    let ghost spec_entries = Seq::new(items@.len(), |k: int| candidate_entry(items@[k])->0);
    assert(entries@.map_values(|e: (u128, Vec<u128>)| (e.0, e.1@)) =~= spec_entries);
    let mut k: usize = 0;
    while k < expected.len()
        invariant
            k <= expected@.len(),
            forall|m: int| 0 <= m < items@.len() ==> (#[trigger] candidate_entry(items@[m])) is Some,
            spec_entries == Seq::new(items@.len(), |q: int| candidate_entry(items@[q])->0),
            entries@.map_values(|e: (u128, Vec<u128>)| (e.0, e.1@)) == spec_entries,
            forall|m: int|
                0 <= m < k ==> (last_sources(spec_entries, (#[trigger] expected@[m]).0) matches Some(srcs)
                    && srcs.to_set() == expected@[m].1@.to_set()),
        decreases expected@.len() - k,
    {
        match last_sources_of(&entries, expected[k].0) {
            Some(srcs) => {
                if !same_members(srcs, &expected[k].1) {
                    assert(!union_matches(items@, expected@)) by {
                        let x = expected@[k as int];
                    }
                    return false;
                }
            },
            None => {
                assert(!union_matches(items@, expected@)) by {
                    let x = expected@[k as int];
                    assert(exists|q: int| 0 <= q < expected@.len() && (#[trigger] expected@[q]).0 == x.0);
                }
                return false;
            },
        }
        k = k + 1;
    }
    let mut e: usize = 0;
    while e < entries.len()
        invariant
            e <= entries@.len(),
            forall|m: int| 0 <= m < items@.len() ==> (#[trigger] candidate_entry(items@[m])) is Some,
            spec_entries == Seq::new(items@.len(), |q: int| candidate_entry(items@[q])->0),
            forall|m: int|
                0 <= m < expected@.len() ==> (last_sources(spec_entries, (#[trigger] expected@[m]).0) matches Some(srcs)
                    && srcs.to_set() == expected@[m].1@.to_set()),
            entries@.map_values(|x: (u128, Vec<u128>)| (x.0, x.1@)) == spec_entries,
            forall|m: int|
                0 <= m < e ==> exists|j: int|
                    0 <= j < expected@.len() && (#[trigger] expected@[j]).0 == (#[trigger] entries@[m]).0,
        decreases entries@.len() - e,
    {
        let a = entries[e].0;
        let mut found = false;
        let mut j: usize = 0;
        while j < expected.len()
            invariant
                j <= expected@.len(),
                found == exists|q: int| 0 <= q < j && (#[trigger] expected@[q]).0 == a,
            decreases expected@.len() - j,
        {
            if expected[j].0 == a {
                found = true;
            }
            j = j + 1;
        }
        if !found {
            proof {
                lemma_last_sources_some(spec_entries, e as int);
                assert(spec_entries[e as int].0 == a);
                assert(!(exists|q: int| 0 <= q < expected@.len() && (#[trigger] expected@[q]).0 == a));
            }
            return false;
        }
        e = e + 1;
    }
    proof {
        assert forall|a: u128|
            last_sources(spec_entries, a) is Some <==> exists|k: int|
                0 <= k < expected@.len() && (#[trigger] expected@[k]).0 == a by {
            if last_sources(spec_entries, a) is Some {
                let m = lemma_last_sources_index(spec_entries, a);
                assert(entries@[m].0 == a);
            }
        }
    }
    true
}

/// An actor with an entry has a last entry.
proof fn lemma_last_sources_some(entries: Seq<(u128, Seq<u128>)>, m: int)
    requires
        0 <= m < entries.len(),
    ensures
        last_sources(entries, entries[m].0) is Some,
    decreases entries.len(),
{
    if entries.last().0 != entries[m].0 {
        lemma_last_sources_some(entries.drop_last(), m);
    }
}

/// An actor with a last entry has an entry.
proof fn lemma_last_sources_index(entries: Seq<(u128, Seq<u128>)>, a: u128) -> (m: int)
    requires
        last_sources(entries, a) is Some,
    ensures
        0 <= m < entries.len(),
        entries[m].0 == a,
    decreases entries.len(),
{
    if entries.last().0 == a {
        entries.len() - 1
    } else {
        lemma_last_sources_index(entries.drop_last(), a)
    }
}

/// The deliberations a reconciliation manifest lists as conflicts, `None`
/// unless every conflict names one.
pub open spec fn conflict_ids(manifest: JsonValue) -> Option<Seq<u128>> {
    id_list_of(manifest, "conflicts"@, Some("deliberation_id"@))
}

/// Strictly increasing.
pub open spec fn increasing(s: Seq<u128>) -> bool {
    forall|a: int, b: int| 0 <= a < b < s.len() ==> s[a] < s[b]
}

/// The deliberations of a reconciliation manifest's conflicts, each once,
/// in increasing order.
pub fn manifest_source_ids(manifest: &JsonValue) -> (r: Option<Vec<u128>>)
    ensures
        match r {
            Some(ids) => conflict_ids(*manifest) matches Some(c) && increasing(ids@) && ids@.to_set()
                == c.to_set(),
            None => conflict_ids(*manifest) is None,
        },
{
    let listed = match member_ids(manifest, "conflicts", Some("deliberation_id")) {
        Some(ids) => ids,
        None => return None,
    };
    let mut ids: Vec<u128> = Vec::new();
    let mut i: usize = 0;
    while i < listed.len()
        invariant
            i <= listed@.len(),
            increasing(ids@),
            forall|x: u128| ids@.contains(x) <==> listed@.take(i as int).contains(x),
        decreases listed@.len() - i,
    {
        let x = listed[i];
        proof {
            let before = listed@.take(i as int);
            let after = listed@.take(i + 1);
            assert(after =~= before.push(x));
            assert forall|y: u128| after.contains(y) <==> (before.contains(y) || y == x) by {
                if before.contains(y) {
                    let k = choose|k: int| 0 <= k < before.len() && before[k] == y;
                    assert(after[k] == y);
                }
                if y == x {
                    assert(after[i as int] == x);
                }
                if after.contains(y) && y != x {
                    let k = choose|k: int| 0 <= k < after.len() && after[k] == y;
                    assert(before[k] == y);
                }
            }
        }
        if !contains(&ids, x) {
            insert_sorted(&mut ids, x);
        }
        i = i + 1;
    }
    proof {
        assert(listed@.take(listed@.len() as int) =~= listed@);
        assert(ids@.to_set() =~= listed@.to_set());
    }
    Some(ids)
}

/// A reconciliation deliberation's roster names as its sources exactly the
/// manifest's conflict deliberations `ids`, in the same order.
pub open spec fn roster_sources_ok(body: JsonValue, ids: Seq<u128>) -> bool {
    match field(body, "roster_governance"@) {
        Some(roster) => id_list_of(roster, "source_deliberation_ids"@, None) == Some(ids),
        None => false,
    }
}

/// Whether a roster's source deliberations are exactly `ids`.
pub fn roster_sources_match(body: &JsonValue, ids: &Vec<u128>) -> (r: bool)
    ensures
        r == roster_sources_ok(*body, ids@),
{
    let roster = match body.get("roster_governance") {
        Some(r) => r,
        None => return false,
    };
    let sources = match member_ids(roster, "source_deliberation_ids", None) {
        Some(s) => s,
        None => return false,
    };
    if sources.len() != ids.len() {
        return false;
    }
    let mut i: usize = 0;
    while i < ids.len()
        invariant
            i <= ids@.len(),
            sources@.len() == ids@.len(),
            field(*body, "roster_governance"@) == Some(*roster),
            id_list_of(*roster, "source_deliberation_ids"@, None) == Some(sources@),
            forall|k: int| 0 <= k < i ==> sources@[k] == ids@[k],
        decreases ids@.len() - i,
    {
        if sources[i] != ids[i] {
            assert(sources@[i as int] != ids@[i as int]);
            assert(sources@ != ids@);
            return false;
        }
        i = i + 1;
    }
    assert(sources@ =~= ids@);
    true
}

} // verus!
