//! Who may join, leave and comment on a deliberation: the join policy, the
//! invitation a join names, the participant's current standing, and the
//! phase of a comment.

use vstd::prelude::*;
use crate::error::Error;
use crate::json::{JsonValue, field, id_value};
use crate::text::same_text;

verus! {

/// What the join policy decides before the invitation is looked at: a
/// closed deliberation admits nobody, and one by invitation admits only a
/// join that names an invitation.
pub open spec fn join_policy_spec(mode: Seq<char>, names_invitation: bool) -> Result<(), Error> {
    if mode == "closed"@ || (mode == "invitation"@ && !names_invitation) {
        Err(Error::InvalidLineage)
    } else {
        Ok(())
    }
}

/// Checks a join against the deliberation's join policy `mode`.
pub fn join_policy_check(mode: &str, names_invitation: bool) -> (r: Result<(), Error>)
    ensures
        r == join_policy_spec(mode@, names_invitation),
{
    if same_text(mode, "closed") || (same_text(mode, "invitation") && !names_invitation) {
        Err(Error::InvalidLineage)
    } else {
        Ok(())
    }
}

/// What the join policy decides of a join without an authorization (a
/// `null` one): it is allowed only in an open or attested deliberation, and
/// only to the participant joining itself.
pub open spec fn join_authorization_spec(mode: Seq<char>, authorization_null: bool, self_join: bool) -> Result<(), Error> {
    if authorization_null && mode != "open"@ && mode != "attested"@ {
        Err(Error::Unauthorized)
    } else if authorization_null && !self_join {
        Err(Error::Unauthorized)
    } else {
        Ok(())
    }
}

/// Checks the authorization of a join against the join policy `mode`.
pub fn join_authorization_check(mode: &str, authorization_null: bool, self_join: bool) -> (r: Result<
    (),
    Error,
>)
    ensures
        r == join_authorization_spec(mode@, authorization_null, self_join),
{
    if authorization_null && !same_text(mode, "open") && !same_text(mode, "attested") {
        Err(Error::Unauthorized)
    } else if authorization_null && !self_join {
        Err(Error::Unauthorized)
    } else {
        Ok(())
    }
}

/// The member `key` of `v` is present and not `null`.
pub open spec fn present(v: JsonValue, key: Seq<char>) -> bool {
    field(v, key) is Some && !(field(v, key) matches Some(JsonValue::Null))
}

/// Whether an invitation covers the deliberation `deliberation` (whose
/// body is `deliberation_body`): an invitation to a deliberation covers
/// that deliberation, one to a proposition covers its deliberations, and
/// one to neither covers none. `None` when a named target is no identifier.
pub open spec fn invitation_covers_spec(invitation: JsonValue, deliberation: u128, deliberation_body: JsonValue) -> Option<bool> {
    if present(invitation, "deliberation_id"@) {
        match id_value(field(invitation, "deliberation_id"@)) {
            Some(d) => Some(d == deliberation),
            None => None,
        }
    } else if present(invitation, "proposition_id"@) {
        match (id_value(field(invitation, "proposition_id"@)), id_value(field(deliberation_body, "proposition_id"@))) {
            (Some(p), Some(q)) => Some(p == q),
            _ => None,
        }
    } else {
        Some(false)
    }
}

/// Whether the member `key` of `v` is present and not `null`.
fn is_present(v: &JsonValue, key: &str) -> (r: bool)
    ensures
        r == present(*v, key@),
{
    match v.get(key) {
        Some(JsonValue::Null) => false,
        Some(_) => true,
        None => false,
    }
}

/// Decides whether an invitation covers a deliberation. A named target
/// that is no identifier is invalid lineage.
pub fn invitation_covers(invitation: &JsonValue, deliberation: u128, deliberation_body: &JsonValue) -> (r: Result<
    bool,
    Error,
>)
    ensures
        r == match invitation_covers_spec(*invitation, deliberation, *deliberation_body) {
            Some(b) => Ok::<bool, Error>(b),
            None => Err(Error::InvalidLineage),
        },
{
    if is_present(invitation, "deliberation_id") {
        match crate::json::parse_object_id_text(invitation.get("deliberation_id")) {
            Some(d) => Ok(d == deliberation),
            None => Err(Error::InvalidLineage),
        }
    } else if is_present(invitation, "proposition_id") {
        let p = match crate::json::parse_object_id_text(invitation.get("proposition_id")) {
            Some(p) => p,
            None => return Err(Error::InvalidLineage),
        };
        match crate::json::parse_object_id_text(deliberation_body.get("proposition_id")) {
            Some(q) => Ok(p == q),
            None => Err(Error::InvalidLineage),
        }
    } else {
        Ok(false)
    }
}

/// What a participant change may do given the participant's standing: a
/// join needs a participant that is not active, a leave one that is active
/// and has not decided; any other operation is invalid.
pub open spec fn participation_spec(operation: Option<Seq<char>>, active: bool, decided: bool) -> Result<(), Error> {
    if operation == Some("join"@) && !active {
        Ok(())
    } else if operation == Some("leave"@) && active && !decided {
        Ok(())
    } else {
        Err(Error::InvalidLineage)
    }
}

/// Checks a participant change against the participant's standing.
pub fn participation_check(operation: Option<&str>, active: bool, decided: bool) -> (r: Result<(), Error>)
    ensures
        r == participation_spec(
            match operation {
                Some(o) => Some(o@),
                None => None,
            },
            active,
            decided,
        ),
{
    proof {
        reveal_strlit("join");
        reveal_strlit("leave");
        assert("join"@.len() != "leave"@.len());
    }
    match operation {
        Some(o) => if same_text(o, "join") && !active {
            Ok(())
        } else if same_text(o, "leave") && active && !decided {
            Ok(())
        } else {
            Err(Error::InvalidLineage)
        },
        None => Err(Error::InvalidLineage),
    }
}

/// A comment is written after settlement exactly when the deliberation is
/// settled in its causal closure, and not at all after settlement when the
/// deliberation closes comments on settlement.
pub open spec fn comment_phase_ok(phase: Seq<char>, settled: bool, closed_on_settlement: bool) -> bool {
    (phase == "post-settlement"@) == settled && !(phase == "post-settlement"@ && closed_on_settlement)
}

/// Whether a comment's phase fits the deliberation's settlement.
pub fn comment_phase_valid(phase: &str, settled: bool, closed_on_settlement: bool) -> (r: bool)
    ensures
        r == comment_phase_ok(phase@, settled, closed_on_settlement),
{
    let post = same_text(phase, "post-settlement");
    post == settled && !(post && closed_on_settlement)
}

/// Law: the participation rules, for every standing: a join needs a
/// participant that is not active, a leave one that is active and has not
/// decided; a closed deliberation admits no join, one by invitation only a
/// join naming an invitation, an open or attested one every join; a join
/// without authorization is allowed only to the joiner itself in an open or
/// attested deliberation; a post-settlement comment needs a settled
/// deliberation that keeps comments open, any other comment an unsettled
/// one.
pub proof fn law_participation_table(
    active: bool,
    decided: bool,
    names_invitation: bool,
    self_join: bool,
    settled: bool,
    closed: bool,
    mode: Seq<char>,
    phase: Seq<char>,
)
    ensures
        participation_spec(Some("join"@), active, decided) is Ok <==> !active,
        participation_spec(Some("leave"@), active, decided) is Ok <==> active && !decided,
        participation_spec(None, active, decided) is Err,
        join_policy_spec("closed"@, names_invitation) is Err,
        join_policy_spec("invitation"@, names_invitation) is Ok <==> names_invitation,
        join_policy_spec("open"@, names_invitation) is Ok,
        join_policy_spec("attested"@, names_invitation) is Ok,
        join_authorization_spec("open"@, true, self_join) is Ok <==> self_join,
        join_authorization_spec("attested"@, true, self_join) is Ok <==> self_join,
        join_authorization_spec("invitation"@, true, self_join) == Err::<(), Error>(Error::Unauthorized),
        join_authorization_spec("closed"@, true, self_join) == Err::<(), Error>(Error::Unauthorized),
        join_authorization_spec(mode, false, self_join) is Ok,
        comment_phase_ok("post-settlement"@, settled, closed) <==> settled && !closed,
        phase != "post-settlement"@ ==> (comment_phase_ok(phase, settled, closed) <==> !settled),
{
    reveal_strlit("join");
    reveal_strlit("leave");
    reveal_strlit("closed");
    reveal_strlit("invitation");
    reveal_strlit("open");
    reveal_strlit("attested");
    reveal_strlit("post-settlement");
    assert("join"@.len() == 4 && "join"@[0] == 'j' && "join"@[1] == 'o');
    assert("leave"@.len() == 5 && "leave"@[0] == 'l' && "leave"@[1] == 'e');
    assert("closed"@.len() == 6 && "closed"@[0] == 'c' && "closed"@[1] == 'l');
    assert("invitation"@.len() == 10 && "invitation"@[0] == 'i' && "invitation"@[1] == 'n');
    assert("open"@.len() == 4 && "open"@[0] == 'o' && "open"@[1] == 'p');
    assert("attested"@.len() == 8 && "attested"@[0] == 'a' && "attested"@[1] == 't');
    assert("post-settlement"@.len() == 15 && "post-settlement"@[0] == 'p' && "post-settlement"@[1] == 'o');
}

} // verus!
