//! Static protocol tables: which object types a relationship may connect,
//! and the order in which object families are projected.

use vstd::prelude::*;
use crate::text::same_text;
use crate::error::Error;

verus! {

/// The shape a named relationship must have: the object types it may start
/// from, the object types it may point to (`"any"` admits every type), and
/// the allowed number of targets.
pub struct RelationshipRule {
    pub sources: &'static [&'static str],
    pub targets: &'static [&'static str],
    pub minimum: usize,
    pub maximum: Option<usize>,
}

/// Mathematical form of a [`RelationshipRule`].
pub struct RuleModel {
    pub sources: Seq<Seq<char>>,
    pub targets: Seq<Seq<char>>,
    pub minimum: nat,
    pub maximum: Option<nat>,
}

/// The texts of a list of static strings.
pub open spec fn texts(s: Seq<&'static str>) -> Seq<Seq<char>> {
    s.map_values(|t: &'static str| t@)
}

impl RelationshipRule {
    pub open spec fn model(&self) -> RuleModel {
        RuleModel {
            sources: texts(self.sources@),
            targets: texts(self.targets@),
            minimum: self.minimum as nat,
            maximum: match self.maximum {
                Some(m) => Some(m as nat),
                None => None,
            },
        }
    }
}

/// Builds the model of a rule from its parts.
pub open spec fn rule(
    sources: Seq<Seq<char>>,
    targets: Seq<Seq<char>>,
    minimum: nat,
    maximum: Option<nat>,
) -> RuleModel {
    RuleModel { sources, targets, minimum, maximum }
}

/// The object types that `protocol:supersedes` may connect.
pub open spec fn superseding_types() -> Seq<Seq<char>> {
    seq![
        "decision"@,
        "namespace_assertion"@,
        "recovery_policy"@,
        "participant_invitation"@,
        "invitation_lifecycle"@,
        "key_lifecycle"@,
        "actor_lifecycle"@,
        "proposition_lifecycle"@,
    ]
}

/// The object types that may start a `protocol:revokes` relationship.
pub open spec fn revoking_types() -> Seq<Seq<char>> {
    seq![
        "authorization_revocation"@,
        "delegation_revocation"@,
        "key_lifecycle"@,
        "actor_lifecycle"@,
        "invitation_lifecycle"@,
        "proposition_lifecycle"@,
    ]
}

/// The protocol's relationship table.
pub open spec fn relationship_table(name: Seq<char>) -> Option<RuleModel> {
    if name == "protocol:parent-revision"@ {
        Some(rule(seq!["revision"@], seq!["revision"@], 1, Some(1)))
    } else if name == "protocol:supersedes"@ {
        Some(rule(superseding_types(), superseding_types(), 1, None))
    } else if name == "protocol:extends"@ {
        Some(rule(seq!["deliberation"@], seq!["deliberation"@], 1, Some(1)))
    } else if name == "protocol:derived-from"@ {
        Some(rule(seq!["revision"@], seq!["revision"@], 1, None))
    } else if name == "protocol:reconciles"@ {
        Some(
            rule(
                seq!["revision"@],
                seq!["revision"@, "deliberation"@, "settlement"@],
                2,
                None,
            ),
        )
    } else if name == "protocol:copies"@ {
        Some(rule(seq!["proposition_provenance"@], seq!["revision"@], 1, Some(1)))
    } else if name == "protocol:references"@ {
        Some(rule(seq!["any"@], seq!["any"@], 0, None))
    } else if name == "protocol:revokes"@ {
        Some(rule(revoking_types(), seq!["any"@], 1, Some(1)))
    } else if name == "protocol:supersedes-authorization"@ {
        Some(
            rule(
                seq!["authorization_grant"@, "delegation"@],
                seq!["authorization_grant"@, "delegation"@],
                1,
                Some(1),
            ),
        )
    } else if name == "protocol:delegates-to"@ {
        Some(rule(seq!["delegation"@], seq!["actor"@], 1, Some(1)))
    } else if name == "protocol:attests-to"@ {
        Some(rule(seq!["identity_attestation"@], seq!["actor"@, "key"@], 1, Some(1)))
    } else if name == "protocol:binds-key"@ {
        Some(rule(seq!["actor_key_binding"@], seq!["key"@], 1, Some(1)))
    } else if name == "protocol:invites"@ {
        Some(rule(seq!["participant_invitation"@], seq!["actor"@], 1, Some(1)))
    } else if name == "protocol:joins"@ {
        Some(rule(seq!["deliberation_participant_change"@], seq!["deliberation"@], 1, Some(1)))
    } else if name == "protocol:settles"@ {
        Some(rule(seq!["settlement"@], seq!["deliberation"@], 1, Some(1)))
    } else {
        None
    }
}

fn make_rule(
    sources: &'static [&'static str],
    targets: &'static [&'static str],
    minimum: usize,
    maximum: Option<usize>,
) -> (r: RelationshipRule)
    ensures
        r.sources == sources,
        r.targets == targets,
        r.minimum == minimum,
        r.maximum == maximum,
{
    RelationshipRule { sources, targets, minimum, maximum }
}

/// Looks up the rule of a named protocol relationship; `None` for a name
/// the protocol does not define.
pub fn relationship_rule(name: &str) -> (r: Option<RelationshipRule>)
    ensures
        match r {
            Some(rule) => relationship_table(name@) == Some(rule.model()),
            None => relationship_table(name@) is None,
        },
{
    let supersedes: &'static [&'static str] = &[
        "decision",
        "namespace_assertion",
        "recovery_policy",
        "participant_invitation",
        "invitation_lifecycle",
        "key_lifecycle",
        "actor_lifecycle",
        "proposition_lifecycle",
    ];
    let r = if same_text(name, "protocol:parent-revision") {
        make_rule(&["revision"], &["revision"], 1, Some(1))
    } else if same_text(name, "protocol:supersedes") {
        make_rule(supersedes, supersedes, 1, None)
    } else if same_text(name, "protocol:extends") {
        make_rule(&["deliberation"], &["deliberation"], 1, Some(1))
    } else if same_text(name, "protocol:derived-from") {
        make_rule(&["revision"], &["revision"], 1, None)
    } else if same_text(name, "protocol:reconciles") {
        make_rule(&["revision"], &["revision", "deliberation", "settlement"], 2, None)
    } else if same_text(name, "protocol:copies") {
        make_rule(&["proposition_provenance"], &["revision"], 1, Some(1))
    } else if same_text(name, "protocol:references") {
        make_rule(&["any"], &["any"], 0, None)
    } else if same_text(name, "protocol:revokes") {
        make_rule(
            &[
                "authorization_revocation",
                "delegation_revocation",
                "key_lifecycle",
                "actor_lifecycle",
                "invitation_lifecycle",
                "proposition_lifecycle",
            ],
            &["any"],
            1,
            Some(1),
        )
    } else if same_text(name, "protocol:supersedes-authorization") {
        make_rule(
            &["authorization_grant", "delegation"],
            &["authorization_grant", "delegation"],
            1,
            Some(1),
        )
    } else if same_text(name, "protocol:delegates-to") {
        make_rule(&["delegation"], &["actor"], 1, Some(1))
    } else if same_text(name, "protocol:attests-to") {
        make_rule(&["identity_attestation"], &["actor", "key"], 1, Some(1))
    } else if same_text(name, "protocol:binds-key") {
        make_rule(&["actor_key_binding"], &["key"], 1, Some(1))
    } else if same_text(name, "protocol:invites") {
        make_rule(&["participant_invitation"], &["actor"], 1, Some(1))
    } else if same_text(name, "protocol:joins") {
        make_rule(&["deliberation_participant_change"], &["deliberation"], 1, Some(1))
    } else if same_text(name, "protocol:settles") {
        make_rule(&["settlement"], &["deliberation"], 1, Some(1))
    } else {
        return None;
    };
    proof {
        assert(r.model().sources =~= relationship_table(name@).unwrap().sources);
        assert(r.model().targets =~= relationship_table(name@).unwrap().targets);
    }
    Some(r)
}

/// The projection order of an object type: families that others depend on
/// come first, unknown types last.
pub open spec fn projection_rank(t: Seq<char>) -> u8 {
    if t == "actor"@ {
        0
    } else if t == "key"@ {
        1
    } else if t == "actor_key_binding"@ {
        2
    } else if t == "authorization_grant"@ || t == "delegation"@ {
        3
    } else if t == "namespace_assertion"@ {
        4
    } else if t == "proposition"@ {
        5
    } else if t == "revision"@ {
        6
    } else if t == "deliberation"@ {
        7
    } else if t == "participant_invitation"@ {
        8
    } else if t == "standing_participant_change"@ || t == "deliberation_participant_change"@ {
        9
    } else if t == "decision"@ || t == "deliberation_comment"@ {
        10
    } else if t == "settlement"@ {
        11
    } else if t == "authorization_revocation"@ || t == "delegation_revocation"@ {
        12
    } else if t == "key_lifecycle"@ || t == "recovery_policy"@ || t == "actor_lifecycle"@ || t
        == "invitation_lifecycle"@ || t == "proposition_lifecycle"@ {
        13
    } else {
        14
    }
}

/// The projection order of `object_type`.
pub fn projected_rank(object_type: &str) -> (r: u8)
    ensures
        r == projection_rank(object_type@),
        r <= 14,
{
    let t = object_type;
    if same_text(t, "actor") {
        0
    } else if same_text(t, "key") {
        1
    } else if same_text(t, "actor_key_binding") {
        2
    } else if same_text(t, "authorization_grant") || same_text(t, "delegation") {
        3
    } else if same_text(t, "namespace_assertion") {
        4
    } else if same_text(t, "proposition") {
        5
    } else if same_text(t, "revision") {
        6
    } else if same_text(t, "deliberation") {
        7
    } else if same_text(t, "participant_invitation") {
        8
    } else if same_text(t, "standing_participant_change") || same_text(
        t,
        "deliberation_participant_change",
    ) {
        9
    } else if same_text(t, "decision") || same_text(t, "deliberation_comment") {
        10
    } else if same_text(t, "settlement") {
        11
    } else if same_text(t, "authorization_revocation") || same_text(t, "delegation_revocation") {
        12
    } else if same_text(t, "key_lifecycle") || same_text(t, "recovery_policy") || same_text(
        t,
        "actor_lifecycle",
    ) || same_text(t, "invitation_lifecycle") || same_text(t, "proposition_lifecycle") {
        13
    } else {
        14
    }
}

/// A list of types admits `t`: it names `t` or `"any"`.
pub open spec fn admits(types: Seq<Seq<char>>, t: Seq<char>) -> bool {
    types.contains(t) || types.contains("any"@)
}

/// Whether a list of types admits `t`.
fn admits_type(types: &'static [&'static str], t: &str) -> (r: bool)
    ensures
        r == admits(texts(types@), t@),
{
    let mut found_type = false;
    let mut found_any = false;
    let mut i: usize = 0;
    while i < types.len()
        invariant
            i <= types@.len(),
            found_type == exists|k: int| 0 <= k < i && types@[k]@ == t@,
            found_any == exists|k: int| 0 <= k < i && types@[k]@ == "any"@,
        decreases types@.len() - i,
    {
        if same_text(types[i], t) {
            found_type = true;
        }
        if same_text(types[i], "any") {
            found_any = true;
        }
        i = i + 1;
    }
    proof {
        let ts = texts(types@);
        if found_type {
            let k = choose|k: int| 0 <= k < types@.len() && types@[k]@ == t@;
            assert(ts[k] == t@);
        }
        if found_any {
            let k = choose|k: int| 0 <= k < types@.len() && types@[k]@ == "any"@;
            assert(ts[k] == "any"@);
        }
        if ts.contains(t@) {
            let k = choose|k: int| 0 <= k < ts.len() && ts[k] == t@;
            assert(types@[k]@ == t@);
        }
        if ts.contains("any"@) {
            let k = choose|k: int| 0 <= k < ts.len() && ts[k] == "any"@;
            assert(types@[k]@ == "any"@);
        }
    }
    found_type || found_any
}

/// The rule of a relationship edge, when the relationship is known, its
/// source type is admitted and its number of targets is within bounds.
pub open spec fn edge_rule_spec(relationship: Seq<char>, source_type: Seq<char>, target_count: nat) -> Option<RuleModel> {
    match relationship_table(relationship) {
        Some(rule) => if admits(rule.sources, source_type) && rule.minimum <= target_count && (
        rule.maximum matches Some(m) ==> target_count <= m) {
            Some(rule)
        } else {
            None
        },
        None => None,
    }
}

/// Checks the shape of a relationship edge: a known relationship, a source
/// type it admits and a number of targets it allows. Refused edges are
/// invalid lineage.
pub fn relationship_edge_rule(relationship: &str, source_type: &str, target_count: usize) -> (r: Result<
    RelationshipRule,
    Error,
>)
    ensures
        match r {
            Ok(rule) => edge_rule_spec(relationship@, source_type@, target_count as nat) == Some(rule.model()),
            Err(e) => e == Error::InvalidLineage && edge_rule_spec(
                relationship@,
                source_type@,
                target_count as nat,
            ) is None,
        },
{
    let rule = match relationship_rule(relationship) {
        Some(rule) => rule,
        None => return Err(Error::InvalidLineage),
    };
    if !admits_type(rule.sources, source_type) || target_count < rule.minimum {
        return Err(Error::InvalidLineage);
    }
    if let Some(maximum) = rule.maximum {
        if target_count > maximum {
            return Err(Error::InvalidLineage);
        }
    }
    Ok(rule)
}

/// Checks one target of a relationship edge once its type and ledger are
/// known: the rule must admit its type, and it must share the source's
/// ledger unless the relationship is a plain reference.
pub fn relationship_target_allowed(
    rule: &RelationshipRule,
    relationship: &str,
    target_type: &str,
    same_ledger: bool,
) -> (r: bool)
    ensures
        r == (admits(rule.model().targets, target_type@) && (same_ledger || relationship@
            == "protocol:references"@)),
{
    admits_type(rule.targets, target_type) && (same_ledger || same_text(relationship, "protocol:references"))
}

/// Law: the protocol's relationship table, stated entry by entry: for each
/// relationship, the object types it may start from and point to (for
/// every type `t`), and its bounds on the number of targets; any other name
/// is no relationship.
#[verifier::rlimit(50)]
pub proof fn law_relationship_table(name: Seq<char>, t: Seq<char>)
    ensures
        relationship_table("protocol:parent-revision"@) matches Some(r) && r.minimum == 1 && r.maximum == Some(1nat)
            && (admits(r.sources, t) <==> (t == "revision"@)) && (admits(r.targets, t) <==> (t == "revision"@)),
        relationship_table("protocol:supersedes"@) matches Some(r) && r.minimum == 1 && r.maximum == None::<nat>
            && (admits(r.sources, t) <==> (t == "decision"@ || t == "namespace_assertion"@ || t == "recovery_policy"@ || t == "participant_invitation"@ || t == "invitation_lifecycle"@ || t == "key_lifecycle"@ || t == "actor_lifecycle"@ || t == "proposition_lifecycle"@)) && (admits(r.targets, t) <==> (t == "decision"@ || t == "namespace_assertion"@ || t == "recovery_policy"@ || t == "participant_invitation"@ || t == "invitation_lifecycle"@ || t == "key_lifecycle"@ || t == "actor_lifecycle"@ || t == "proposition_lifecycle"@)),
        relationship_table("protocol:extends"@) matches Some(r) && r.minimum == 1 && r.maximum == Some(1nat)
            && (admits(r.sources, t) <==> (t == "deliberation"@)) && (admits(r.targets, t) <==> (t == "deliberation"@)),
        relationship_table("protocol:derived-from"@) matches Some(r) && r.minimum == 1 && r.maximum == None::<nat>
            && (admits(r.sources, t) <==> (t == "revision"@)) && (admits(r.targets, t) <==> (t == "revision"@)),
        relationship_table("protocol:reconciles"@) matches Some(r) && r.minimum == 2 && r.maximum == None::<nat>
            && (admits(r.sources, t) <==> (t == "revision"@)) && (admits(r.targets, t) <==> (t == "revision"@ || t == "deliberation"@ || t == "settlement"@)),
        relationship_table("protocol:copies"@) matches Some(r) && r.minimum == 1 && r.maximum == Some(1nat)
            && (admits(r.sources, t) <==> (t == "proposition_provenance"@)) && (admits(r.targets, t) <==> (t == "revision"@)),
        relationship_table("protocol:references"@) matches Some(r) && r.minimum == 0 && r.maximum == None::<nat>
            && (admits(r.sources, t) <==> true) && (admits(r.targets, t) <==> true),
        relationship_table("protocol:revokes"@) matches Some(r) && r.minimum == 1 && r.maximum == Some(1nat)
            && (admits(r.sources, t) <==> (t == "authorization_revocation"@ || t == "delegation_revocation"@ || t == "key_lifecycle"@ || t == "actor_lifecycle"@ || t == "invitation_lifecycle"@ || t == "proposition_lifecycle"@)) && (admits(r.targets, t) <==> true),
        relationship_table("protocol:supersedes-authorization"@) matches Some(r) && r.minimum == 1 && r.maximum == Some(1nat)
            && (admits(r.sources, t) <==> (t == "authorization_grant"@ || t == "delegation"@)) && (admits(r.targets, t) <==> (t == "authorization_grant"@ || t == "delegation"@)),
        relationship_table("protocol:delegates-to"@) matches Some(r) && r.minimum == 1 && r.maximum == Some(1nat)
            && (admits(r.sources, t) <==> (t == "delegation"@)) && (admits(r.targets, t) <==> (t == "actor"@)),
        relationship_table("protocol:attests-to"@) matches Some(r) && r.minimum == 1 && r.maximum == Some(1nat)
            && (admits(r.sources, t) <==> (t == "identity_attestation"@)) && (admits(r.targets, t) <==> (t == "actor"@ || t == "key"@)),
        relationship_table("protocol:binds-key"@) matches Some(r) && r.minimum == 1 && r.maximum == Some(1nat)
            && (admits(r.sources, t) <==> (t == "actor_key_binding"@)) && (admits(r.targets, t) <==> (t == "key"@)),
        relationship_table("protocol:invites"@) matches Some(r) && r.minimum == 1 && r.maximum == Some(1nat)
            && (admits(r.sources, t) <==> (t == "participant_invitation"@)) && (admits(r.targets, t) <==> (t == "actor"@)),
        relationship_table("protocol:joins"@) matches Some(r) && r.minimum == 1 && r.maximum == Some(1nat)
            && (admits(r.sources, t) <==> (t == "deliberation_participant_change"@)) && (admits(r.targets, t) <==> (t == "deliberation"@)),
        relationship_table("protocol:settles"@) matches Some(r) && r.minimum == 1 && r.maximum == Some(1nat)
            && (admits(r.sources, t) <==> (t == "settlement"@)) && (admits(r.targets, t) <==> (t == "deliberation"@)),
        !(name == "protocol:parent-revision"@ || name == "protocol:supersedes"@ || name == "protocol:extends"@ || name == "protocol:derived-from"@ || name == "protocol:reconciles"@ || name == "protocol:copies"@ || name == "protocol:references"@ || name == "protocol:revokes"@ || name == "protocol:supersedes-authorization"@ || name == "protocol:delegates-to"@ || name == "protocol:attests-to"@ || name == "protocol:binds-key"@ || name == "protocol:invites"@ || name == "protocol:joins"@ || name == "protocol:settles"@) ==> relationship_table(name) is None,
{
    broadcast use {
        vstd::seq_lib::lemma_seq_contains_after_push,
        vstd::seq_lib::lemma_seq_empty_contains_nothing,
    };
    reveal_strlit("actor");
    reveal_strlit("actor_key_binding");
    reveal_strlit("actor_lifecycle");
    reveal_strlit("any");
    reveal_strlit("authorization_grant");
    reveal_strlit("authorization_revocation");
    reveal_strlit("decision");
    reveal_strlit("delegation");
    reveal_strlit("delegation_revocation");
    reveal_strlit("deliberation");
    reveal_strlit("deliberation_participant_change");
    reveal_strlit("identity_attestation");
    reveal_strlit("invitation_lifecycle");
    reveal_strlit("key");
    reveal_strlit("key_lifecycle");
    reveal_strlit("namespace_assertion");
    reveal_strlit("participant_invitation");
    reveal_strlit("proposition_lifecycle");
    reveal_strlit("proposition_provenance");
    reveal_strlit("protocol:attests-to");
    reveal_strlit("protocol:binds-key");
    reveal_strlit("protocol:copies");
    reveal_strlit("protocol:delegates-to");
    reveal_strlit("protocol:derived-from");
    reveal_strlit("protocol:extends");
    reveal_strlit("protocol:invites");
    reveal_strlit("protocol:joins");
    reveal_strlit("protocol:parent-revision");
    reveal_strlit("protocol:reconciles");
    reveal_strlit("protocol:references");
    reveal_strlit("protocol:revokes");
    reveal_strlit("protocol:settles");
    reveal_strlit("protocol:supersedes");
    reveal_strlit("protocol:supersedes-authorization");
    reveal_strlit("recovery_policy");
    reveal_strlit("revision");
    reveal_strlit("settlement");
    assert("actor"@.len() == 5 && "actor"@[0] == 'a');
    assert("actor_key_binding"@.len() == 17 && "actor_key_binding"@[0] == 'a');
    assert("actor_lifecycle"@.len() == 15 && "actor_lifecycle"@[0] == 'a');
    assert("any"@.len() == 3 && "any"@[0] == 'a');
    assert("authorization_grant"@.len() == 19 && "authorization_grant"@[0] == 'a');
    assert("authorization_revocation"@.len() == 24 && "authorization_revocation"@[0] == 'a');
    assert("decision"@.len() == 8 && "decision"@[0] == 'd');
    assert("delegation"@.len() == 10 && "delegation"@[0] == 'd');
    assert("delegation_revocation"@.len() == 21 && "delegation_revocation"@[0] == 'd');
    assert("deliberation"@.len() == 12 && "deliberation"@[0] == 'd');
    assert("deliberation_participant_change"@.len() == 31 && "deliberation_participant_change"@[0] == 'd');
    assert("identity_attestation"@.len() == 20 && "identity_attestation"@[0] == 'i');
    assert("invitation_lifecycle"@.len() == 20 && "invitation_lifecycle"@[0] == 'i');
    assert("key"@.len() == 3 && "key"@[0] == 'k');
    assert("key_lifecycle"@.len() == 13 && "key_lifecycle"@[0] == 'k');
    assert("namespace_assertion"@.len() == 19 && "namespace_assertion"@[0] == 'n');
    assert("participant_invitation"@.len() == 22 && "participant_invitation"@[0] == 'p');
    assert("proposition_lifecycle"@.len() == 21 && "proposition_lifecycle"@[0] == 'p');
    assert("proposition_provenance"@.len() == 22 && "proposition_provenance"@[0] == 'p');
    assert("protocol:attests-to"@.len() == 19 && "protocol:attests-to"@[9] == 'a' && "protocol:attests-to"@[10] == 't' && "protocol:attests-to"@[11] == 't');
    assert("protocol:binds-key"@.len() == 18 && "protocol:binds-key"@[9] == 'b' && "protocol:binds-key"@[10] == 'i' && "protocol:binds-key"@[11] == 'n');
    assert("protocol:copies"@.len() == 15 && "protocol:copies"@[9] == 'c' && "protocol:copies"@[10] == 'o' && "protocol:copies"@[11] == 'p');
    assert("protocol:delegates-to"@.len() == 21 && "protocol:delegates-to"@[9] == 'd' && "protocol:delegates-to"@[10] == 'e' && "protocol:delegates-to"@[11] == 'l');
    assert("protocol:derived-from"@.len() == 21 && "protocol:derived-from"@[9] == 'd' && "protocol:derived-from"@[10] == 'e' && "protocol:derived-from"@[11] == 'r');
    assert("protocol:extends"@.len() == 16 && "protocol:extends"@[9] == 'e' && "protocol:extends"@[10] == 'x' && "protocol:extends"@[11] == 't');
    assert("protocol:invites"@.len() == 16 && "protocol:invites"@[9] == 'i' && "protocol:invites"@[10] == 'n' && "protocol:invites"@[11] == 'v');
    assert("protocol:joins"@.len() == 14 && "protocol:joins"@[9] == 'j' && "protocol:joins"@[10] == 'o' && "protocol:joins"@[11] == 'i');
    assert("protocol:parent-revision"@.len() == 24 && "protocol:parent-revision"@[9] == 'p' && "protocol:parent-revision"@[10] == 'a' && "protocol:parent-revision"@[11] == 'r');
    assert("protocol:reconciles"@.len() == 19 && "protocol:reconciles"@[9] == 'r' && "protocol:reconciles"@[10] == 'e' && "protocol:reconciles"@[11] == 'c');
    assert("protocol:references"@.len() == 19 && "protocol:references"@[9] == 'r' && "protocol:references"@[10] == 'e' && "protocol:references"@[11] == 'f');
    assert("protocol:revokes"@.len() == 16 && "protocol:revokes"@[9] == 'r' && "protocol:revokes"@[10] == 'e' && "protocol:revokes"@[11] == 'v');
    assert("protocol:settles"@.len() == 16 && "protocol:settles"@[9] == 's' && "protocol:settles"@[10] == 'e' && "protocol:settles"@[11] == 't');
    assert("protocol:supersedes"@.len() == 19 && "protocol:supersedes"@[9] == 's' && "protocol:supersedes"@[10] == 'u' && "protocol:supersedes"@[11] == 'p');
    assert("protocol:supersedes-authorization"@.len() == 33 && "protocol:supersedes-authorization"@[9] == 's' && "protocol:supersedes-authorization"@[10] == 'u' && "protocol:supersedes-authorization"@[11] == 'p');
    assert("recovery_policy"@.len() == 15 && "recovery_policy"@[0] == 'r');
    assert("revision"@.len() == 8 && "revision"@[0] == 'r');
    assert("settlement"@.len() == 10 && "settlement"@[0] == 's');
}

/// Law: the projection order, stated type by type: the identities first,
/// then grants and delegations together (3), before the namespace
/// assertions, propositions and everything they authorize; every protocol
/// object type ranks below the unknown types, which come last (14).
#[verifier::rlimit(50)]
pub proof fn law_projection_rank_table(t: Seq<char>)
    ensures
        projection_rank("actor"@) == 0,
        projection_rank("key"@) == 1,
        projection_rank("actor_key_binding"@) == 2,
        projection_rank("authorization_grant"@) == 3,
        projection_rank("delegation"@) == 3,
        projection_rank("namespace_assertion"@) == 4,
        projection_rank("proposition"@) == 5,
        projection_rank("revision"@) == 6,
        projection_rank("deliberation"@) == 7,
        projection_rank("participant_invitation"@) == 8,
        projection_rank("standing_participant_change"@) == 9,
        projection_rank("deliberation_participant_change"@) == 9,
        projection_rank("decision"@) == 10,
        projection_rank("deliberation_comment"@) == 10,
        projection_rank("settlement"@) == 11,
        projection_rank("authorization_revocation"@) == 12,
        projection_rank("delegation_revocation"@) == 12,
        projection_rank("key_lifecycle"@) == 13,
        projection_rank("recovery_policy"@) == 13,
        projection_rank("actor_lifecycle"@) == 13,
        projection_rank("invitation_lifecycle"@) == 13,
        projection_rank("proposition_lifecycle"@) == 13,
        (t == "actor"@ || t == "key"@ || t == "actor_key_binding"@ || t == "authorization_grant"@ || t == "delegation"@ || t == "namespace_assertion"@ || t == "proposition"@ || t == "revision"@ || t == "deliberation"@ || t == "participant_invitation"@ || t == "standing_participant_change"@ || t == "deliberation_participant_change"@ || t == "decision"@ || t == "deliberation_comment"@ || t == "settlement"@ || t == "authorization_revocation"@ || t == "delegation_revocation"@ || t == "key_lifecycle"@ || t == "recovery_policy"@ || t == "actor_lifecycle"@ || t == "invitation_lifecycle"@ || t == "proposition_lifecycle"@) ==> projection_rank(t) < 14,
        !(t == "actor"@ || t == "key"@ || t == "actor_key_binding"@ || t == "authorization_grant"@ || t == "delegation"@ || t == "namespace_assertion"@ || t == "proposition"@ || t == "revision"@ || t == "deliberation"@ || t == "participant_invitation"@ || t == "standing_participant_change"@ || t == "deliberation_participant_change"@ || t == "decision"@ || t == "deliberation_comment"@ || t == "settlement"@ || t == "authorization_revocation"@ || t == "delegation_revocation"@ || t == "key_lifecycle"@ || t == "recovery_policy"@ || t == "actor_lifecycle"@ || t == "invitation_lifecycle"@ || t == "proposition_lifecycle"@) ==> projection_rank(t) == 14,
{
    reveal_strlit("actor");
    reveal_strlit("actor_key_binding");
    reveal_strlit("actor_lifecycle");
    reveal_strlit("authorization_grant");
    reveal_strlit("authorization_revocation");
    reveal_strlit("decision");
    reveal_strlit("delegation");
    reveal_strlit("delegation_revocation");
    reveal_strlit("deliberation");
    reveal_strlit("deliberation_comment");
    reveal_strlit("deliberation_participant_change");
    reveal_strlit("invitation_lifecycle");
    reveal_strlit("key");
    reveal_strlit("key_lifecycle");
    reveal_strlit("namespace_assertion");
    reveal_strlit("participant_invitation");
    reveal_strlit("proposition");
    reveal_strlit("proposition_lifecycle");
    reveal_strlit("recovery_policy");
    reveal_strlit("revision");
    reveal_strlit("settlement");
    reveal_strlit("standing_participant_change");
    assert("actor"@.len() == 5 && "actor"@[0] == 'a' && "actor"@[1] == 'c' && "actor"@[2] == 't');
    assert("actor_key_binding"@.len() == 17 && "actor_key_binding"@[0] == 'a' && "actor_key_binding"@[1] == 'c' && "actor_key_binding"@[2] == 't');
    assert("actor_lifecycle"@.len() == 15 && "actor_lifecycle"@[0] == 'a' && "actor_lifecycle"@[1] == 'c' && "actor_lifecycle"@[2] == 't');
    assert("authorization_grant"@.len() == 19 && "authorization_grant"@[0] == 'a' && "authorization_grant"@[1] == 'u' && "authorization_grant"@[2] == 't');
    assert("authorization_revocation"@.len() == 24 && "authorization_revocation"@[0] == 'a' && "authorization_revocation"@[1] == 'u' && "authorization_revocation"@[2] == 't');
    assert("decision"@.len() == 8 && "decision"@[0] == 'd' && "decision"@[1] == 'e' && "decision"@[2] == 'c');
    assert("delegation"@.len() == 10 && "delegation"@[0] == 'd' && "delegation"@[1] == 'e' && "delegation"@[2] == 'l');
    assert("delegation_revocation"@.len() == 21 && "delegation_revocation"@[0] == 'd' && "delegation_revocation"@[1] == 'e' && "delegation_revocation"@[2] == 'l');
    assert("deliberation"@.len() == 12 && "deliberation"@[0] == 'd' && "deliberation"@[1] == 'e' && "deliberation"@[2] == 'l');
    assert("deliberation_comment"@.len() == 20 && "deliberation_comment"@[0] == 'd' && "deliberation_comment"@[1] == 'e' && "deliberation_comment"@[2] == 'l');
    assert("deliberation_participant_change"@.len() == 31 && "deliberation_participant_change"@[0] == 'd' && "deliberation_participant_change"@[1] == 'e' && "deliberation_participant_change"@[2] == 'l');
    assert("invitation_lifecycle"@.len() == 20 && "invitation_lifecycle"@[0] == 'i' && "invitation_lifecycle"@[1] == 'n' && "invitation_lifecycle"@[2] == 'v');
    assert("key"@.len() == 3 && "key"@[0] == 'k' && "key"@[1] == 'e' && "key"@[2] == 'y');
    assert("key_lifecycle"@.len() == 13 && "key_lifecycle"@[0] == 'k' && "key_lifecycle"@[1] == 'e' && "key_lifecycle"@[2] == 'y');
    assert("namespace_assertion"@.len() == 19 && "namespace_assertion"@[0] == 'n' && "namespace_assertion"@[1] == 'a' && "namespace_assertion"@[2] == 'm');
    assert("participant_invitation"@.len() == 22 && "participant_invitation"@[0] == 'p' && "participant_invitation"@[1] == 'a' && "participant_invitation"@[2] == 'r');
    assert("proposition"@.len() == 11 && "proposition"@[0] == 'p' && "proposition"@[1] == 'r' && "proposition"@[2] == 'o');
    assert("proposition_lifecycle"@.len() == 21 && "proposition_lifecycle"@[0] == 'p' && "proposition_lifecycle"@[1] == 'r' && "proposition_lifecycle"@[2] == 'o');
    assert("recovery_policy"@.len() == 15 && "recovery_policy"@[0] == 'r' && "recovery_policy"@[1] == 'e' && "recovery_policy"@[2] == 'c');
    assert("revision"@.len() == 8 && "revision"@[0] == 'r' && "revision"@[1] == 'e' && "revision"@[2] == 'v');
    assert("settlement"@.len() == 10 && "settlement"@[0] == 's' && "settlement"@[1] == 'e' && "settlement"@[2] == 't');
    assert("standing_participant_change"@.len() == 27 && "standing_participant_change"@[0] == 's' && "standing_participant_change"@[1] == 't' && "standing_participant_change"@[2] == 'a');
}

} // verus!
