//! Attested admission to a deliberation: the attestations a participant
//! presents must satisfy every requirement of the join policy, and each
//! must be valid when the participant joins.

use vstd::prelude::*;
use crate::consensus::{id_list_of, member_ids};
use crate::error::Error;
use crate::json::{JsonValue, field, text_value, u64_value};
use crate::text::same_text;

verus! {

/// An observed attestation, as `(issuer, claim type)`, counts toward a
/// requirement for `claim` from one of `issuers`.
pub open spec fn claim_matches(o: (u128, String), claim: Seq<char>, issuers: Seq<u128>) -> bool {
    o.1@ == claim && issuers.contains(o.0)
}

/// How many observed attestations count toward the requirement.
pub open spec fn matching_count(observed: Seq<(u128, String)>, claim: Seq<char>, issuers: Seq<u128>) -> nat
    decreases observed.len(),
{
    if observed.len() == 0 {
        0
    } else {
        matching_count(observed.drop_last(), claim, issuers) + if claim_matches(
            observed.last(),
            claim,
            issuers,
        ) {
            1nat
        } else {
            0nat
        }
    }
}

/// A requirement is well formed (a claim type, a list of permitted issuers
/// and a minimum count) and enough observed attestations meet it.
pub open spec fn requirement_met(requirement: JsonValue, observed: Seq<(u128, String)>) -> bool {
    let claim = text_value(field(requirement, "claim_type"@));
    let issuers = id_list_of(requirement, "permitted_issuers"@, None);
    let minimum = u64_value(field(requirement, "minimum_count"@));
    &&& claim is Some
    &&& issuers is Some
    &&& minimum is Some
    &&& matching_count(observed, claim->0, issuers->0) >= minimum->0
}

/// Every requirement of the policy is met.
pub open spec fn requirements_met(requirements: Seq<JsonValue>, observed: Seq<(u128, String)>) -> bool {
    forall|i: int| 0 <= i < requirements.len() ==> #[trigger] requirement_met(requirements[i], observed)
}

/// Whether `x` occurs in `ids`.
fn listed(ids: &Vec<u128>, x: u128) -> (r: bool)
    ensures
        r == ids@.contains(x),
{
    let mut i: usize = 0;
    while i < ids.len()
        invariant
            i <= ids@.len(),
            forall|k: int| 0 <= k < i ==> ids@[k] != x,
        decreases ids@.len() - i,
    {
        if ids[i] == x {
            assert(ids@[i as int] == x);
            return true;
        }
        i = i + 1;
    }
    false
}

/// How many observed attestations are for `claim` from one of `issuers`.
fn count_matching(observed: &Vec<(u128, String)>, claim: &str, issuers: &Vec<u128>) -> (r: u64)
    ensures
        r == matching_count(observed@, claim@, issuers@),
{
    let mut count: u64 = 0;
    let mut i: usize = 0;
    while i < observed.len()
        invariant
            i <= observed@.len(),
            count == matching_count(observed@.take(i as int), claim@, issuers@),
            count <= i,
        decreases observed@.len() - i,
    {
        proof {
            assert(observed@.take(i + 1).drop_last() =~= observed@.take(i as int));
        }
        let (issuer, observed_claim) = &observed[i];
        if same_text(observed_claim.as_str(), claim) && listed(issuers, *issuer) {
            count = count + 1;
        }
        i = i + 1;
    }
    assert(observed@.take(observed@.len() as int) =~= observed@);
    count
}

/// Checks the attestation requirements of a join policy against the
/// attestations observed, each as `(issuer, claim type)`.
pub fn attestation_requirements_met(requirements: &Vec<JsonValue>, observed: &Vec<(u128, String)>) -> (r: Result<
    (),
    Error,
>)
    ensures
        r == if requirements_met(requirements@, observed@) {
            Ok::<(), Error>(())
        } else {
            Err(Error::InvalidLineage)
        },
{
    let mut i: usize = 0;
    while i < requirements.len()
        invariant
            i <= requirements@.len(),
            forall|k: int| 0 <= k < i ==> #[trigger] requirement_met(requirements@[k], observed@),
        decreases requirements@.len() - i,
    {
        let requirement = &requirements[i];
        let claim = match requirement.get("claim_type") {
            Some(JsonValue::Text(t)) => t.as_str(),
            _ => {
                assert(!requirement_met(requirements@[i as int], observed@));
                return Err(Error::InvalidLineage);
            },
        };
        let issuers = match member_ids(requirement, "permitted_issuers", None) {
            Some(ids) => ids,
            None => {
                assert(!requirement_met(requirements@[i as int], observed@));
                return Err(Error::InvalidLineage);
            },
        };
        let minimum = match requirement.get("minimum_count") {
            Some(m) => match m.as_u64() {
                Some(n) => n,
                None => {
                    assert(!requirement_met(requirements@[i as int], observed@));
                    return Err(Error::InvalidLineage);
                },
            },
            None => {
                assert(!requirement_met(requirements@[i as int], observed@));
                return Err(Error::InvalidLineage);
            },
        };
        if count_matching(observed, claim, &issuers) < minimum {
            assert(!requirement_met(requirements@[i as int], observed@));
            return Err(Error::InvalidLineage);
        }
        i = i + 1;
    }
    Ok(())
}

/// An attestation's validity window covers the moment `at` (milliseconds):
/// it has begun and not yet expired.
pub open spec fn window_covers(valid_from: Option<i64>, expires_at: Option<i64>, at: i64) -> bool {
    &&& (valid_from matches Some(from) ==> from <= at)
    &&& (expires_at matches Some(expires) ==> at < expires)
}

/// Whether a validity window covers the moment `at`.
pub fn validity_covers(valid_from: Option<i64>, expires_at: Option<i64>, at: i64) -> (r: bool)
    ensures
        r == window_covers(valid_from, expires_at, at),
{
    let begun = match valid_from {
        Some(from) => from <= at,
        None => true,
    };
    let live = match expires_at {
        Some(expires) => at < expires,
        None => true,
    };
    begun && live
}

} // verus!
