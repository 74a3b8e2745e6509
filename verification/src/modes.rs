//! Store policies chosen by callers: how projections follow inserts, how
//! durable the local database is, and which lifecycle listing to show.

use vstd::prelude::*;
use crate::text::same_text;

verus! {

/// Projected update strategy for transaction-level object inserts.
#[derive(Clone, Copy, Debug, PartialEq, Eq, Structural)]
pub enum ProjectedMode {
    /// Update affected projections incrementally when supported. Object
    /// families without an incremental projector fall back to a full
    /// rebuild to preserve read-model correctness.
    Incremental,
    /// Rebuild all projections before the insert transaction commits.
    FullRebuild,
    /// Commit canonical objects without refreshing projections; projections
    /// must be rebuilt before projection-backed reads are served.
    Defer,
}

/// What the store does to its projections after inserting objects.
#[derive(Clone, Copy, Debug, PartialEq, Eq, Structural)]
pub enum ProjectionStep {
    /// Leave the projections as they are.
    Skip,
    /// Rebuild every projection.
    Rebuild,
    /// Project the new objects incrementally, then rebuild everything if an
    /// object family had no incremental projector.
    IncrementalWithFallback,
}

impl ProjectedMode {
    /// The projection step this mode asks for.
    pub fn projection_step(&self) -> (s: ProjectionStep)
        ensures
            s == match self {
                ProjectedMode::Defer => ProjectionStep::Skip,
                ProjectedMode::FullRebuild => ProjectionStep::Rebuild,
                ProjectedMode::Incremental => ProjectionStep::IncrementalWithFallback,
            },
    {
        match self {
            ProjectedMode::Defer => ProjectionStep::Skip,
            ProjectedMode::FullRebuild => ProjectionStep::Rebuild,
            ProjectedMode::Incremental => ProjectionStep::IncrementalWithFallback,
        }
    }
}

/// After an incremental projection, whether a full rebuild must follow:
/// exactly when some object was not handled incrementally.
pub fn rebuild_after_incremental(handled: bool) -> (rebuild: bool)
    ensures
        rebuild == !handled,
{
    !handled
}

/// Local SQLite durability policy. This affects persistence behavior only;
/// it never changes canonical object bytes or protocol state.
#[derive(Clone, Copy, Debug, PartialEq, Eq, Structural)]
pub enum Durability {
    Normal,
    Full,
}

impl Durability {
    /// The SQLite `synchronous` setting of the policy.
    pub fn synchronous_pragma(&self) -> (s: &'static str)
        ensures
            s@ == match self {
                Durability::Normal => "NORMAL"@,
                Durability::Full => "FULL"@,
            },
    {
        match self {
            Durability::Normal => "NORMAL",
            Durability::Full => "FULL",
        }
    }
}

/// A lifecycle listing of propositions.
#[derive(Clone, Copy, Debug, PartialEq, Eq, Structural)]
pub enum PropositionLifecycleFilter {
    Withdrawn,
    Archived,
}

impl PropositionLifecycleFilter {
    /// The withdrawal status and archival status a listed proposition must
    /// have; `None` where the listing does not restrict that dimension.
    pub fn required_statuses(&self) -> (r: (Option<&'static str>, Option<&'static str>))
        ensures
            match self {
                PropositionLifecycleFilter::Withdrawn => r.0 matches Some(w) && w@ == "withdrawn"@
                    && r.1 is None,
                PropositionLifecycleFilter::Archived => r.0 is None && (r.1 matches Some(a) && a@
                    == "archived"@),
            },
    {
        match self {
            PropositionLifecycleFilter::Withdrawn => (Some("withdrawn"), None),
            PropositionLifecycleFilter::Archived => (None, Some("archived")),
        }
    }
}

/// The object families that have an incremental projector; objects of
/// other types make an incremental insert fall back to a full rebuild.
pub open spec fn incremental_family(t: Seq<char>) -> bool {
    ||| t == "actor"@
    ||| t == "key"@
    ||| t == "actor_key_binding"@
    ||| t == "authorization_grant"@
    ||| t == "authorization_revocation"@
    ||| t == "delegation"@
    ||| t == "namespace_assertion"@
    ||| t == "key_lifecycle"@
    ||| t == "actor_lifecycle"@
    ||| t == "recovery_policy"@
    ||| t == "identity_attestation"@
    ||| t == "participant_invitation"@
    ||| t == "proposition"@
    ||| t == "revision"@
    ||| t == "deliberation"@
    ||| t == "protocol_relationship"@
    ||| t == "application_relationship"@
    ||| t == "proposition_provenance"@
    ||| t == "decision"@
    ||| t == "deliberation_comment"@
    ||| t == "deliberation_participant_change"@
    ||| t == "settlement"@
    ||| t == "standing_participant_change"@
    ||| t == "invitation_lifecycle"@
    ||| t == "proposition_lifecycle"@
    ||| t == "delegation_revocation"@
}

/// Whether objects of type `object_type` are projected incrementally.
pub fn has_incremental_projector(object_type: &str) -> (r: bool)
    ensures
        r == incremental_family(object_type@),
{
    proof {
        reveal_strlit("actor");
        reveal_strlit("key");
        reveal_strlit("actor_key_binding");
        reveal_strlit("authorization_grant");
        reveal_strlit("authorization_revocation");
        reveal_strlit("delegation");
        reveal_strlit("namespace_assertion");
        reveal_strlit("key_lifecycle");
        reveal_strlit("actor_lifecycle");
        reveal_strlit("recovery_policy");
        reveal_strlit("identity_attestation");
        reveal_strlit("participant_invitation");
        reveal_strlit("proposition");
        reveal_strlit("revision");
        reveal_strlit("deliberation");
        reveal_strlit("protocol_relationship");
        reveal_strlit("application_relationship");
        reveal_strlit("proposition_provenance");
        reveal_strlit("decision");
        reveal_strlit("deliberation_comment");
        reveal_strlit("deliberation_participant_change");
        reveal_strlit("settlement");
        reveal_strlit("standing_participant_change");
        reveal_strlit("invitation_lifecycle");
        reveal_strlit("proposition_lifecycle");
        reveal_strlit("delegation_revocation");
    }
    same_text(object_type, "actor")
        || same_text(object_type, "key")
        || same_text(object_type, "actor_key_binding")
        || same_text(object_type, "authorization_grant")
        || same_text(object_type, "authorization_revocation")
        || same_text(object_type, "delegation")
        || same_text(object_type, "namespace_assertion")
        || same_text(object_type, "key_lifecycle")
        || same_text(object_type, "actor_lifecycle")
        || same_text(object_type, "recovery_policy")
        || same_text(object_type, "identity_attestation")
        || same_text(object_type, "participant_invitation")
        || same_text(object_type, "proposition")
        || same_text(object_type, "revision")
        || same_text(object_type, "deliberation")
        || same_text(object_type, "protocol_relationship")
        || same_text(object_type, "application_relationship")
        || same_text(object_type, "proposition_provenance")
        || same_text(object_type, "decision")
        || same_text(object_type, "deliberation_comment")
        || same_text(object_type, "deliberation_participant_change")
        || same_text(object_type, "settlement")
        || same_text(object_type, "standing_participant_change")
        || same_text(object_type, "invitation_lifecycle")
        || same_text(object_type, "proposition_lifecycle")
        || same_text(object_type, "delegation_revocation")
}

/// Law: the object families projected incrementally: every protocol object
/// type of the ledger's own protocol (identities, authority, propositions,
/// revisions, deliberation objects, relationships, lifecycle steps); other
/// types, such as a genesis, fall back to a full rebuild.
#[verifier::rlimit(50)]
pub proof fn law_incremental_families(t: Seq<char>)
    ensures
        incremental_family(t) <==> (t == "actor"@ || t == "key"@ || t == "actor_key_binding"@ || t == "authorization_grant"@ || t == "authorization_revocation"@ || t == "delegation"@ || t == "namespace_assertion"@ || t == "key_lifecycle"@ || t == "actor_lifecycle"@ || t == "recovery_policy"@ || t == "identity_attestation"@ || t == "participant_invitation"@ || t == "proposition"@ || t == "revision"@ || t == "deliberation"@ || t == "protocol_relationship"@ || t == "application_relationship"@ || t == "proposition_provenance"@ || t == "decision"@ || t == "deliberation_comment"@ || t == "deliberation_participant_change"@ || t == "settlement"@ || t == "standing_participant_change"@ || t == "invitation_lifecycle"@ || t == "proposition_lifecycle"@ || t == "delegation_revocation"@),
        !incremental_family("genesis"@),
{
    reveal_strlit("actor");
    reveal_strlit("key");
    reveal_strlit("actor_key_binding");
    reveal_strlit("authorization_grant");
    reveal_strlit("authorization_revocation");
    reveal_strlit("delegation");
    reveal_strlit("namespace_assertion");
    reveal_strlit("key_lifecycle");
    reveal_strlit("actor_lifecycle");
    reveal_strlit("recovery_policy");
    reveal_strlit("identity_attestation");
    reveal_strlit("participant_invitation");
    reveal_strlit("proposition");
    reveal_strlit("revision");
    reveal_strlit("deliberation");
    reveal_strlit("protocol_relationship");
    reveal_strlit("application_relationship");
    reveal_strlit("proposition_provenance");
    reveal_strlit("decision");
    reveal_strlit("deliberation_comment");
    reveal_strlit("deliberation_participant_change");
    reveal_strlit("settlement");
    reveal_strlit("standing_participant_change");
    reveal_strlit("invitation_lifecycle");
    reveal_strlit("proposition_lifecycle");
    reveal_strlit("delegation_revocation");
    reveal_strlit("genesis");
    assert("actor"@.len() == 5 && "actor"@[0] == 'a' && "actor"@[1] == 'c' && "actor"@[2] == 't');
    assert("key"@.len() == 3 && "key"@[0] == 'k' && "key"@[1] == 'e' && "key"@[2] == 'y');
    assert("actor_key_binding"@.len() == 17 && "actor_key_binding"@[0] == 'a' && "actor_key_binding"@[1] == 'c' && "actor_key_binding"@[2] == 't');
    assert("authorization_grant"@.len() == 19 && "authorization_grant"@[0] == 'a' && "authorization_grant"@[1] == 'u' && "authorization_grant"@[2] == 't');
    assert("authorization_revocation"@.len() == 24 && "authorization_revocation"@[0] == 'a' && "authorization_revocation"@[1] == 'u' && "authorization_revocation"@[2] == 't');
    assert("delegation"@.len() == 10 && "delegation"@[0] == 'd' && "delegation"@[1] == 'e' && "delegation"@[2] == 'l');
    assert("namespace_assertion"@.len() == 19 && "namespace_assertion"@[0] == 'n' && "namespace_assertion"@[1] == 'a' && "namespace_assertion"@[2] == 'm');
    assert("key_lifecycle"@.len() == 13 && "key_lifecycle"@[0] == 'k' && "key_lifecycle"@[1] == 'e' && "key_lifecycle"@[2] == 'y');
    assert("actor_lifecycle"@.len() == 15 && "actor_lifecycle"@[0] == 'a' && "actor_lifecycle"@[1] == 'c' && "actor_lifecycle"@[2] == 't');
    assert("recovery_policy"@.len() == 15 && "recovery_policy"@[0] == 'r' && "recovery_policy"@[1] == 'e' && "recovery_policy"@[2] == 'c');
    assert("identity_attestation"@.len() == 20 && "identity_attestation"@[0] == 'i' && "identity_attestation"@[1] == 'd' && "identity_attestation"@[2] == 'e');
    assert("participant_invitation"@.len() == 22 && "participant_invitation"@[0] == 'p' && "participant_invitation"@[1] == 'a' && "participant_invitation"@[2] == 'r');
    assert("proposition"@.len() == 11 && "proposition"@[0] == 'p' && "proposition"@[1] == 'r' && "proposition"@[2] == 'o');
    assert("revision"@.len() == 8 && "revision"@[0] == 'r' && "revision"@[1] == 'e' && "revision"@[2] == 'v');
    assert("deliberation"@.len() == 12 && "deliberation"@[0] == 'd' && "deliberation"@[1] == 'e' && "deliberation"@[2] == 'l');
    assert("protocol_relationship"@.len() == 21 && "protocol_relationship"@[0] == 'p' && "protocol_relationship"@[1] == 'r' && "protocol_relationship"@[2] == 'o');
    assert("application_relationship"@.len() == 24 && "application_relationship"@[0] == 'a' && "application_relationship"@[1] == 'p' && "application_relationship"@[2] == 'p');
    assert("proposition_provenance"@.len() == 22 && "proposition_provenance"@[0] == 'p' && "proposition_provenance"@[1] == 'r' && "proposition_provenance"@[2] == 'o');
    assert("decision"@.len() == 8 && "decision"@[0] == 'd' && "decision"@[1] == 'e' && "decision"@[2] == 'c');
    assert("deliberation_comment"@.len() == 20 && "deliberation_comment"@[0] == 'd' && "deliberation_comment"@[1] == 'e' && "deliberation_comment"@[2] == 'l');
    assert("deliberation_participant_change"@.len() == 31 && "deliberation_participant_change"@[0] == 'd' && "deliberation_participant_change"@[1] == 'e' && "deliberation_participant_change"@[2] == 'l');
    assert("settlement"@.len() == 10 && "settlement"@[0] == 's' && "settlement"@[1] == 'e' && "settlement"@[2] == 't');
    assert("standing_participant_change"@.len() == 27 && "standing_participant_change"@[0] == 's' && "standing_participant_change"@[1] == 't' && "standing_participant_change"@[2] == 'a');
    assert("invitation_lifecycle"@.len() == 20 && "invitation_lifecycle"@[0] == 'i' && "invitation_lifecycle"@[1] == 'n' && "invitation_lifecycle"@[2] == 'v');
    assert("proposition_lifecycle"@.len() == 21 && "proposition_lifecycle"@[0] == 'p' && "proposition_lifecycle"@[1] == 'r' && "proposition_lifecycle"@[2] == 'o');
    assert("delegation_revocation"@.len() == 21 && "delegation_revocation"@[0] == 'd' && "delegation_revocation"@[1] == 'e' && "delegation_revocation"@[2] == 'l');
    assert("genesis"@.len() == 7 && "genesis"@[0] == 'g' && "genesis"@[1] == 'e' && "genesis"@[2] == 'n');
}

} // verus!
