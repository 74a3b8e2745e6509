//! Cross-object rules: what a new object's body must say of the objects
//! it names, read against the objects already stored and against its own
//! causal closure. Each rule reports the first failure, in the order the
//! store checks them.

use vstd::prelude::*;
use std::collections::HashMap;
use crate::error::Error;
use crate::lineage::{policy_succession_ok, policy_succession_valid};
use crate::json::{
    JsonValue, field, field_of, id_value, is_null, parse_object_id_text, same_member, same_member_check,
    text_value,
};
use crate::text::same_text;

verus! {

broadcast use vstd::std_specs::hash::group_hash_axioms;

/// A stored object as the rules read it: its type and the body of its
/// document.
pub struct StoredObject {
    pub object_type: String,
    pub body: JsonValue,
}

/// What the rules for one new object can look up: the stored objects it
/// may name, by identifier; the identifiers of its causal closure; its
/// direct dependencies; the actor, signing key and ledger of its envelope;
/// and, as `(actor, key)`, the stored actor-key bindings whose permitted
/// purpose is recovery.
pub struct CheckContext {
    pub objects: HashMap<u128, StoredObject>,
    pub closure: Vec<u128>,
    pub dependencies: Vec<u128>,
    pub actor: u128,
    pub signing_key: u128,
    pub ledger: u128,
    pub recovery_bindings: Vec<(u128, u128)>,
}

/// The type of stored object `id`; a missing object is a missing
/// dependency.
pub open spec fn type_spec(ctx: CheckContext, id: u128) -> Result<Seq<char>, Error> {
    if ctx.objects@.contains_key(id) {
        Ok(ctx.objects@[id].object_type@)
    } else {
        Err(Error::MissingDependency)
    }
}

/// The type and body of stored object `id`; a body that is not a JSON
/// object is invalid metadata.
pub open spec fn body_spec(ctx: CheckContext, id: u128) -> Result<(Seq<char>, JsonValue), Error> {
    if !ctx.objects@.contains_key(id) {
        Err(Error::MissingDependency)
    } else if !(ctx.objects@[id].body matches JsonValue::Object(_)) {
        Err(Error::Metadata)
    } else {
        Ok((ctx.objects@[id].object_type@, ctx.objects@[id].body))
    }
}

/// The identifier in member `key`; anything else breaks the lineage.
pub open spec fn id_spec(body: JsonValue, key: Seq<char>) -> Result<u128, Error> {
    match id_value(field(body, key)) {
        Some(x) => Ok(x),
        None => Err(Error::InvalidLineage),
    }
}

/// The identifier in member `key` when it is present and not `null`.
pub open spec fn optional_id_spec(body: JsonValue, key: Seq<char>) -> Result<Option<u128>, Error> {
    if field(body, key) is None || is_null(field(body, key)) {
        Ok(None)
    } else {
        match id_value(field(body, key)) {
            Some(x) => Ok(Some(x)),
            None => Err(Error::InvalidLineage),
        }
    }
}

/// `Ok` when `ok` holds, else a broken lineage.
pub open spec fn lineage(ok: bool) -> Result<(), Error> {
    if ok {
        Ok(())
    } else {
        Err(Error::InvalidLineage)
    }
}

fn load_type(ctx: &CheckContext, id: u128) -> (r: Result<&str, Error>)
    ensures
        match r {
            Ok(t) => type_spec(*ctx, id) == Ok::<Seq<char>, Error>(t@),
            Err(e) => type_spec(*ctx, id) == Err::<Seq<char>, Error>(e),
        },
{
    match ctx.objects.get(&id) {
        Some(o) => Ok(o.object_type.as_str()),
        None => Err(Error::MissingDependency),
    }
}

fn load_body(ctx: &CheckContext, id: u128) -> (r: Result<(&str, &JsonValue), Error>)
    ensures
        match r {
            Ok((t, b)) => body_spec(*ctx, id) == Ok::<(Seq<char>, JsonValue), Error>((t@, *b)),
            Err(e) => body_spec(*ctx, id) == Err::<(Seq<char>, JsonValue), Error>(e),
        },
{
    match ctx.objects.get(&id) {
        Some(o) => {
            if o.body.is_object() {
                Ok((o.object_type.as_str(), &o.body))
            } else {
                Err(Error::Metadata)
            }
        },
        None => Err(Error::MissingDependency),
    }
}

fn id_field(body: &JsonValue, key: &str) -> (r: Result<u128, Error>)
    ensures
        r == id_spec(*body, key@),
{
    match parse_object_id_text(body.get(key)) {
        Some(x) => Ok(x),
        None => Err(Error::InvalidLineage),
    }
}

fn optional_id_field(body: &JsonValue, key: &str) -> (r: Result<Option<u128>, Error>)
    ensures
        r == optional_id_spec(*body, key@),
{
    match body.get(key) {
        None => Ok(None),
        Some(v) => {
            if v.is_null() {
                Ok(None)
            } else {
                match parse_object_id_text(Some(v)) {
                    Some(x) => Ok(Some(x)),
                    None => Err(Error::InvalidLineage),
                }
            }
        },
    }
}

fn listed(ids: &Vec<u128>, x: u128) -> (r: bool)
    ensures
        r == ids@.contains(x),
{
    let mut i: usize = 0;
    while i < ids.len()
        invariant
            i <= ids@.len(),
            forall|k: int| 0 <= k < i ==> ids@[k] != x,
        decreases ids@.len() - i,
    {
        if ids[i] == x {
            assert(ids@[i as int] == x);
            return true;
        }
        i = i + 1;
    }
    false
}

/// The authorization a body cites in `authorization_ref`, when it cites
/// one, must be a direct dependency of the object and a grant or a
/// delegation.
pub open spec fn authorization_reference_spec(body: JsonValue, ctx: CheckContext) -> Result<(), Error> {
    match optional_id_spec(body, "authorization_ref"@) {
        Err(e) => Err(e),
        Ok(None) => Ok(()),
        Ok(Some(reference)) => if !ctx.dependencies@.contains(reference) {
            Err(Error::InvalidLineage)
        } else {
            match type_spec(ctx, reference) {
                Err(e) => Err(e),
                Ok(t) => lineage(t == "authorization_grant"@ || t == "delegation"@),
            }
        },
    }
}

/// Checks the authorization a body cites; see
/// [`authorization_reference_spec`].
pub fn authorization_reference_check(body: &JsonValue, ctx: &CheckContext) -> (r: Result<(), Error>)
    ensures
        r == authorization_reference_spec(*body, *ctx),
{
    proof {
        reveal_strlit("authorization_ref");
        reveal_strlit("authorization_grant");
        reveal_strlit("delegation");
    }
    let reference = match optional_id_field(body, "authorization_ref")? {
        None => return Ok(()),
        Some(reference) => reference,
    };
    if !listed(&ctx.dependencies, reference) {
        return Err(Error::InvalidLineage);
    }
    let t = load_type(ctx, reference)?;
    if same_text(t, "authorization_grant") || same_text(t, "delegation") {
        Ok(())
    } else {
        Err(Error::InvalidLineage)
    }
}

/// An `authorization_grant`: granting and receiving parties are actors,
/// the granting actor signs it, and a predecessor grant, when named, is a
/// grant by the same actor inside the causal closure.
pub open spec fn grant_spec(body: JsonValue, ctx: CheckContext) -> Result<(), Error> {
    match (id_spec(body, "granting_actor_id"@), id_spec(body, "receiving_actor_id"@)) {
        (Err(e), _) => Err(e),
        (Ok(_), Err(e)) => Err(e),
        (Ok(granting), Ok(receiving)) => match type_spec(ctx, granting) {
            Err(e) => Err(e),
            Ok(tg) => if tg != "actor"@ {
                Err(Error::InvalidLineage)
            } else {
                match type_spec(ctx, receiving) {
                    Err(e) => Err(e),
                    Ok(tr) => if tr != "actor"@ || granting != ctx.actor {
                        Err(Error::InvalidLineage)
                    } else {
                        match optional_id_spec(body, "predecessor_grant_id"@) {
                            Err(e) => Err(e),
                            Ok(None) => Ok(()),
                            Ok(Some(p)) => match body_spec(ctx, p) {
                                Err(e) => Err(e),
                                Ok((pt, pb)) => if pt != "authorization_grant"@ {
                                    Err(Error::InvalidLineage)
                                } else {
                                    match id_spec(pb, "granting_actor_id"@) {
                                        Err(e) => Err(e),
                                        Ok(pg) => lineage(pg == granting && ctx.closure@.contains(p)),
                                    }
                                },
                            },
                        }
                    },
                }
            },
        },
    }
}

/// Checks an `authorization_grant`; see [`grant_spec`].
pub fn authorization_grant_check(body: &JsonValue, ctx: &CheckContext) -> (r: Result<(), Error>)
    ensures
        r == grant_spec(*body, *ctx),
{
    proof {
        reveal_strlit("granting_actor_id");
        reveal_strlit("receiving_actor_id");
        reveal_strlit("actor");
        reveal_strlit("predecessor_grant_id");
        reveal_strlit("authorization_grant");
    }
    let granting = id_field(body, "granting_actor_id")?;
    let receiving = id_field(body, "receiving_actor_id")?;
    if !same_text(load_type(ctx, granting)?, "actor") {
        return Err(Error::InvalidLineage);
    }
    if !same_text(load_type(ctx, receiving)?, "actor") || granting != ctx.actor {
        return Err(Error::InvalidLineage);
    }
    let p = match optional_id_field(body, "predecessor_grant_id")? {
        None => return Ok(()),
        Some(p) => p,
    };
    let (pt, pb) = load_body(ctx, p)?;
    if !same_text(pt, "authorization_grant") {
        return Err(Error::InvalidLineage);
    }
    let pg = id_field(pb, "granting_actor_id")?;
    if pg == granting && listed(&ctx.closure, p) {
        Ok(())
    } else {
        Err(Error::InvalidLineage)
    }
}

/// A revocation of kind `revoked_type`: the object named in `key` has
/// that type and lies in the causal closure, and the authorization the
/// revocation cites passes [`authorization_reference_spec`].
pub open spec fn revocation_spec(
    body: JsonValue,
    ctx: CheckContext,
    key: Seq<char>,
    revoked_type: Seq<char>,
) -> Result<(), Error> {
    match id_spec(body, key) {
        Err(e) => Err(e),
        Ok(revoked) => match type_spec(ctx, revoked) {
            Err(e) => Err(e),
            Ok(t) => if t != revoked_type || !ctx.closure@.contains(revoked) {
                Err(Error::InvalidLineage)
            } else {
                authorization_reference_spec(body, ctx)
            },
        },
    }
}

fn revocation_check(body: &JsonValue, ctx: &CheckContext, key: &str, revoked_type: &str) -> (r: Result<
    (),
    Error,
>)
    ensures
        r == revocation_spec(*body, *ctx, key@, revoked_type@),
{
    let revoked = id_field(body, key)?;
    let t = load_type(ctx, revoked)?;
    if !same_text(t, revoked_type) || !listed(&ctx.closure, revoked) {
        return Err(Error::InvalidLineage);
    }
    authorization_reference_check(body, ctx)
}

/// Checks an `authorization_revocation`: it revokes a grant of its causal
/// closure.
pub fn authorization_revocation_check(body: &JsonValue, ctx: &CheckContext) -> (r: Result<(), Error>)
    ensures
        r == revocation_spec(*body, *ctx, "revoked_grant_id"@, "authorization_grant"@),
{
    revocation_check(body, ctx, "revoked_grant_id", "authorization_grant")
}

/// Checks a `delegation_revocation`: it revokes a delegation of its causal
/// closure.
pub fn delegation_revocation_check(body: &JsonValue, ctx: &CheckContext) -> (r: Result<(), Error>)
    ensures
        r == revocation_spec(*body, *ctx, "revoked_delegation_id"@, "delegation"@),
{
    revocation_check(body, ctx, "revoked_delegation_id", "delegation")
}

/// A `delegation`: delegator and delegatee are two different actors, and
/// the delegator signs it.
pub open spec fn delegation_spec(body: JsonValue, ctx: CheckContext) -> Result<(), Error> {
    match (id_spec(body, "delegator_actor_id"@), id_spec(body, "delegatee_actor_id"@)) {
        (Err(e), _) => Err(e),
        (Ok(_), Err(e)) => Err(e),
        (Ok(delegator), Ok(delegatee)) => if delegator == delegatee {
            Err(Error::InvalidLineage)
        } else {
            match type_spec(ctx, delegator) {
                Err(e) => Err(e),
                Ok(t1) => if t1 != "actor"@ {
                    Err(Error::InvalidLineage)
                } else {
                    match type_spec(ctx, delegatee) {
                        Err(e) => Err(e),
                        Ok(t2) => lineage(t2 == "actor"@ && delegator == ctx.actor),
                    }
                },
            }
        },
    }
}

/// Checks a `delegation`; see [`delegation_spec`].
pub fn delegation_check(body: &JsonValue, ctx: &CheckContext) -> (r: Result<(), Error>)
    ensures
        r == delegation_spec(*body, *ctx),
{
    proof {
        reveal_strlit("delegator_actor_id");
        reveal_strlit("delegatee_actor_id");
        reveal_strlit("actor");
    }
    let delegator = id_field(body, "delegator_actor_id")?;
    let delegatee = id_field(body, "delegatee_actor_id")?;
    if delegator == delegatee {
        return Err(Error::InvalidLineage);
    }
    if !same_text(load_type(ctx, delegator)?, "actor") {
        return Err(Error::InvalidLineage);
    }
    if same_text(load_type(ctx, delegatee)?, "actor") && delegator == ctx.actor {
        Ok(())
    } else {
        Err(Error::InvalidLineage)
    }
}

/// An `actor_lifecycle`: it retires an actor, and the authorization it
/// cites passes [`authorization_reference_spec`].
pub open spec fn actor_lifecycle_spec(body: JsonValue, ctx: CheckContext) -> Result<(), Error> {
    match id_spec(body, "affected_actor_id"@) {
        Err(e) => Err(e),
        Ok(affected) => match type_spec(ctx, affected) {
            Err(e) => Err(e),
            Ok(t) => if t != "actor"@ || text_value(field(body, "operation"@)) != Some("retire"@) {
                Err(Error::InvalidLineage)
            } else {
                authorization_reference_spec(body, ctx)
            },
        },
    }
}

/// Checks an `actor_lifecycle`; see [`actor_lifecycle_spec`].
pub fn actor_lifecycle_check(body: &JsonValue, ctx: &CheckContext) -> (r: Result<(), Error>)
    ensures
        r == actor_lifecycle_spec(*body, *ctx),
{
    proof {
        reveal_strlit("affected_actor_id");
        reveal_strlit("actor");
        reveal_strlit("operation");
        reveal_strlit("retire");
    }
    let affected = id_field(body, "affected_actor_id")?;
    let t = load_type(ctx, affected)?;
    let retires = match body.get("operation") {
        Some(v) => match v.as_text() {
            Some(op) => same_text(op, "retire"),
            None => false,
        },
        None => false,
    };
    if !same_text(t, "actor") || !retires {
        return Err(Error::InvalidLineage);
    }
    authorization_reference_check(body, ctx)
}

/// Member `key` is present and not `null`.
pub open spec fn given(body: JsonValue, key: Seq<char>) -> bool {
    field(body, key) is Some && !is_null(field(body, key))
}

fn given_field(body: &JsonValue, key: &str) -> (r: bool)
    ensures
        r == given(*body, key@),
{
    match body.get(key) {
        Some(v) => !v.is_null(),
        None => false,
    }
}

fn text_field<'a>(body: &'a JsonValue, key: &str) -> (r: Option<&'a str>)
    ensures
        match r {
            Some(t) => text_value(field(*body, key@)) == Some(t@),
            None => text_value(field(*body, key@)) is None,
        },
{
    match body.get(key) {
        Some(v) => v.as_text(),
        None => None,
    }
}

/// A `proposition`: its initial revision is a parentless revision of it,
/// and its initial deliberation is a deliberation of it on that revision.
pub open spec fn proposition_spec(body: JsonValue, ctx: CheckContext) -> Result<(), Error> {
    match (
        id_spec(body, "proposition_id"@),
        id_spec(body, "initial_revision_id"@),
        id_spec(body, "initial_deliberation_id"@),
    ) {
        (Err(e), _, _) => Err(e),
        (Ok(_), Err(e), _) => Err(e),
        (Ok(_), Ok(_), Err(e)) => Err(e),
        (Ok(p), Ok(rid), Ok(did)) => match body_spec(ctx, rid) {
            Err(e) => Err(e),
            Ok((rt, rb)) => match body_spec(ctx, did) {
                Err(e) => Err(e),
                Ok((dt, db)) => if rt != "revision"@ || dt != "deliberation"@ {
                    Err(Error::InvalidLineage)
                } else {
                    match id_spec(rb, "proposition_id"@) {
                        Err(e) => Err(e),
                        Ok(rp) => if rp != p {
                            Err(Error::InvalidLineage)
                        } else {
                            match id_spec(db, "proposition_id"@) {
                                Err(e) => Err(e),
                                Ok(dp) => if dp != p || !(field(rb, "parent_revision_id"@) is Some
                                    && is_null(field(rb, "parent_revision_id"@))) {
                                    Err(Error::InvalidLineage)
                                } else {
                                    match id_spec(db, "revision_id"@) {
                                        Err(e) => Err(e),
                                        Ok(dr) => lineage(dr == rid),
                                    }
                                },
                            }
                        },
                    }
                },
            },
        },
    }
}

/// Checks a `proposition`; see [`proposition_spec`].
pub fn proposition_check(body: &JsonValue, ctx: &CheckContext) -> (r: Result<(), Error>)
    ensures
        r == proposition_spec(*body, *ctx),
{
    proof {
        reveal_strlit("proposition_id");
        reveal_strlit("initial_revision_id");
        reveal_strlit("initial_deliberation_id");
        reveal_strlit("revision");
        reveal_strlit("deliberation");
        reveal_strlit("parent_revision_id");
        reveal_strlit("revision_id");
    }
    let p = id_field(body, "proposition_id")?;
    let rid = id_field(body, "initial_revision_id")?;
    let did = id_field(body, "initial_deliberation_id")?;
    let (rt, rb) = load_body(ctx, rid)?;
    let (dt, db) = load_body(ctx, did)?;
    if !same_text(rt, "revision") || !same_text(dt, "deliberation") {
        return Err(Error::InvalidLineage);
    }
    if id_field(rb, "proposition_id")? != p {
        return Err(Error::InvalidLineage);
    }
    let parentless = match rb.get("parent_revision_id") {
        Some(v) => v.is_null(),
        None => false,
    };
    if id_field(db, "proposition_id")? != p || !parentless {
        return Err(Error::InvalidLineage);
    }
    if id_field(db, "revision_id")? == rid {
        Ok(())
    } else {
        Err(Error::InvalidLineage)
    }
}

/// The content hash text a revision body states.
pub open spec fn content_hash_spec(body: JsonValue) -> Option<Seq<char>> {
    text_value(field_of(field(body, "content"@), "hash"@))
}

fn content_hash_of(body: &JsonValue) -> (r: Option<&str>)
    ensures
        match r {
            Some(t) => content_hash_spec(*body) == Some(t@),
            None => content_hash_spec(*body) is None,
        },
{
    match body.get("content") {
        Some(content) => text_field(content, "hash"),
        None => None,
    }
}

/// The lineage of a `revision`, once its embedded relationships passed: it
/// carries a reconciliation manifest exactly when its proposition's purpose
/// is reconciliation, and a parent, when named, is a revision of the same
/// proposition with different content.
pub open spec fn revision_lineage_spec(body: JsonValue, ctx: CheckContext) -> Result<(), Error> {
    match id_spec(body, "proposition_id"@) {
        Err(e) => Err(e),
        Ok(p) => match body_spec(ctx, p) {
            Err(e) => Err(e),
            Ok((_, pb)) => match text_value(field(pb, "purpose"@)) {
                None => Err(Error::InvalidLineage),
                Some(purpose) => if (purpose == "reconciliation"@) != given(
                    body,
                    "reconciliation_manifest"@,
                ) {
                    Err(Error::InvalidLineage)
                } else if !given(body, "parent_revision_id"@) {
                    Ok(())
                } else {
                    match id_value(field(body, "parent_revision_id"@)) {
                        None => Err(Error::InvalidLineage),
                        Some(parent) => match body_spec(ctx, parent) {
                            Err(e) => Err(e),
                            Ok((parent_type, parent_body)) => if parent_type != "revision"@ {
                                Err(Error::InvalidLineage)
                            } else {
                                match id_spec(parent_body, "proposition_id"@) {
                                    Err(e) => Err(e),
                                    Ok(pp) => if pp != p {
                                        Err(Error::InvalidLineage)
                                    } else {
                                        match (content_hash_spec(body), content_hash_spec(parent_body)) {
                                            (Some(current), Some(previous)) => lineage(current != previous),
                                            _ => Err(Error::InvalidLineage),
                                        }
                                    },
                                }
                            },
                        },
                    }
                },
            },
        },
    }
}

/// Checks the lineage of a `revision`; see [`revision_lineage_spec`].
pub fn revision_lineage_check(body: &JsonValue, ctx: &CheckContext) -> (r: Result<(), Error>)
    ensures
        r == revision_lineage_spec(*body, *ctx),
{
    proof {
        reveal_strlit("proposition_id");
        reveal_strlit("purpose");
        reveal_strlit("reconciliation");
        reveal_strlit("reconciliation_manifest");
        reveal_strlit("parent_revision_id");
        reveal_strlit("revision");
    }
    let p = id_field(body, "proposition_id")?;
    let (_, pb) = load_body(ctx, p)?;
    let purpose = match text_field(pb, "purpose") {
        Some(t) => t,
        None => return Err(Error::InvalidLineage),
    };
    if same_text(purpose, "reconciliation") != given_field(body, "reconciliation_manifest") {
        return Err(Error::InvalidLineage);
    }
    if !given_field(body, "parent_revision_id") {
        return Ok(());
    }
    let parent = match parse_object_id_text(body.get("parent_revision_id")) {
        Some(x) => x,
        None => return Err(Error::InvalidLineage),
    };
    let (parent_type, parent_body) = load_body(ctx, parent)?;
    if !same_text(parent_type, "revision") {
        return Err(Error::InvalidLineage);
    }
    if id_field(parent_body, "proposition_id")? != p {
        return Err(Error::InvalidLineage);
    }
    match (content_hash_of(body), content_hash_of(parent_body)) {
        (Some(current), Some(previous)) => {
            if same_text(current, previous) {
                Err(Error::InvalidLineage)
            } else {
                Ok(())
            }
        },
        _ => Err(Error::InvalidLineage),
    }
}

/// The targets of a `deliberation`: its revision is a revision of its
/// proposition, and it carries roster governance exactly when the
/// proposition's purpose is reconciliation (the roster itself is checked
/// by the roster rules).
pub open spec fn deliberation_target_spec(body: JsonValue, ctx: CheckContext) -> Result<(), Error> {
    match (id_spec(body, "proposition_id"@), id_spec(body, "revision_id"@)) {
        (Err(e), _) => Err(e),
        (Ok(_), Err(e)) => Err(e),
        (Ok(p), Ok(rid)) => match body_spec(ctx, p) {
            Err(e) => Err(e),
            Ok((_, pb)) => match body_spec(ctx, rid) {
                Err(e) => Err(e),
                Ok((rt, rb)) => if rt != "revision"@ {
                    Err(Error::InvalidLineage)
                } else {
                    match id_spec(rb, "proposition_id"@) {
                        Err(e) => Err(e),
                        Ok(rp) => if rp != p {
                            Err(Error::InvalidLineage)
                        } else {
                            match text_value(field(pb, "purpose"@)) {
                                None => Err(Error::InvalidLineage),
                                Some(purpose) => lineage(
                                    (purpose == "reconciliation"@) == given(body, "roster_governance"@),
                                ),
                            }
                        },
                    }
                },
            },
        },
    }
}

/// Checks the targets of a `deliberation`; see
/// [`deliberation_target_spec`].
pub fn deliberation_target_check(body: &JsonValue, ctx: &CheckContext) -> (r: Result<(), Error>)
    ensures
        r == deliberation_target_spec(*body, *ctx),
{
    proof {
        reveal_strlit("proposition_id");
        reveal_strlit("revision_id");
        reveal_strlit("revision");
        reveal_strlit("purpose");
        reveal_strlit("reconciliation");
        reveal_strlit("roster_governance");
    }
    let p = id_field(body, "proposition_id")?;
    let rid = id_field(body, "revision_id")?;
    let (_, pb) = load_body(ctx, p)?;
    let (rt, rb) = load_body(ctx, rid)?;
    if !same_text(rt, "revision") {
        return Err(Error::InvalidLineage);
    }
    if id_field(rb, "proposition_id")? != p {
        return Err(Error::InvalidLineage);
    }
    let purpose = match text_field(pb, "purpose") {
        Some(t) => t,
        None => return Err(Error::InvalidLineage),
    };
    if same_text(purpose, "reconciliation") == given_field(body, "roster_governance") {
        Ok(())
    } else {
        Err(Error::InvalidLineage)
    }
}

/// The target of a `settlement`: a deliberation on the settled revision
/// (the witness is checked by the settlement rules).
pub open spec fn settlement_target_spec(body: JsonValue, ctx: CheckContext) -> Result<(), Error> {
    match (id_spec(body, "deliberation_id"@), id_spec(body, "revision_id"@)) {
        (Err(e), _) => Err(e),
        (Ok(_), Err(e)) => Err(e),
        (Ok(did), Ok(rid)) => match body_spec(ctx, did) {
            Err(e) => Err(e),
            Ok((dt, db)) => if dt != "deliberation"@ {
                Err(Error::InvalidLineage)
            } else {
                match id_spec(db, "revision_id"@) {
                    Err(e) => Err(e),
                    Ok(dr) => lineage(dr == rid),
                }
            },
        },
    }
}

/// Checks the target of a `settlement`; see [`settlement_target_spec`].
pub fn settlement_target_check(body: &JsonValue, ctx: &CheckContext) -> (r: Result<(), Error>)
    ensures
        r == settlement_target_spec(*body, *ctx),
{
    proof {
        reveal_strlit("deliberation_id");
        reveal_strlit("revision_id");
        reveal_strlit("deliberation");
    }
    let did = id_field(body, "deliberation_id")?;
    let rid = id_field(body, "revision_id")?;
    let (dt, db) = load_body(ctx, did)?;
    if !same_text(dt, "deliberation") {
        return Err(Error::InvalidLineage);
    }
    if id_field(db, "revision_id")? == rid {
        Ok(())
    } else {
        Err(Error::InvalidLineage)
    }
}

/// Stored object `id` is a recovery policy of `actor` naming `key` as its
/// recovery key.
pub open spec fn is_recovery_policy_for(ctx: CheckContext, id: u128, actor: u128, key: u128) -> bool {
    &&& body_spec(ctx, id) matches Ok((t, b))
    &&& t == "recovery_policy"@
    &&& id_spec(b, "actor_id"@) == Ok::<u128, Error>(actor)
    &&& id_spec(b, "recovery_key_id"@) == Ok::<u128, Error>(key)
}

/// Some object of the causal closure is such a recovery policy.
pub open spec fn recovery_policy_in_closure(ctx: CheckContext, actor: u128, key: u128) -> bool {
    exists|i: int|
        0 <= i < ctx.closure@.len() && #[trigger] is_recovery_policy_for(ctx, ctx.closure@[i], actor, key)
}

/// Stored object `id` is a key with `purpose` `signing`.
pub open spec fn signing_key_spec(ctx: CheckContext, id: u128) -> Result<(), Error> {
    match type_spec(ctx, id) {
        Err(e) => Err(e),
        Ok(t) => if t != "key"@ {
            Err(Error::InvalidLineage)
        } else {
            match body_spec(ctx, id) {
                Err(e) => Err(e),
                Ok((_, kb)) => lineage(text_value(field(kb, "purpose"@)) == Some("signing"@)),
            }
        },
    }
}

/// The operation part of a `key_lifecycle`: `rotate` and `recover` name a
/// new signing key, `revoke` names none, and nothing else is an operation.
pub open spec fn key_operation_rule(body: JsonValue, ctx: CheckContext) -> Result<Seq<char>, Error> {
    match text_value(field(body, "operation"@)) {
        None => Err(Error::InvalidLineage),
        Some(op) => match optional_id_spec(body, "new_key_id"@) {
            Err(e) => Err(e),
            Ok(new_key) => if op == "rotate"@ || op == "recover"@ {
                match new_key {
                    None => Err(Error::InvalidLineage),
                    Some(k) => match signing_key_spec(ctx, k) {
                        Err(e) => Err(e),
                        Ok(_) => Ok(op),
                    },
                }
            } else if op == "revoke"@ {
                if new_key is Some {
                    Err(Error::InvalidLineage)
                } else {
                    Ok(op)
                }
            } else {
                Err(Error::InvalidLineage)
            },
        },
    }
}

/// A `key_lifecycle`: the affected party is an actor and the old key a
/// signing key; the operation passes [`key_operation_rule`]; a predecessor,
/// when named, is a lifecycle step of the same actor in the causal closure;
/// a recovery is signed with the recovery key of a policy of the actor in
/// the causal closure; and the cited authorization passes
/// [`authorization_reference_spec`].
pub open spec fn key_lifecycle_spec(body: JsonValue, ctx: CheckContext) -> Result<(), Error> {
    match (id_spec(body, "affected_actor_id"@), id_spec(body, "old_key_id"@)) {
        (Err(e), _) => Err(e),
        (Ok(_), Err(e)) => Err(e),
        (Ok(affected), Ok(old_key)) => match type_spec(ctx, affected) {
            Err(e) => Err(e),
            Ok(ta) => if ta != "actor"@ {
                Err(Error::InvalidLineage)
            } else {
                match signing_key_spec(ctx, old_key) {
                    Err(e) => Err(e),
                    Ok(_) => match key_operation_rule(body, ctx) {
                        Err(e) => Err(e),
                        Ok(op) => match optional_id_spec(body, "predecessor_lifecycle_id"@) {
                            Err(e) => Err(e),
                            Ok(predecessor) => match predecessor_lifecycle_spec(ctx, predecessor, affected) {
                                Err(e) => Err(e),
                                Ok(_) => if op == "recover"@ && !recovery_policy_in_closure(
                                    ctx,
                                    affected,
                                    ctx.signing_key,
                                ) {
                                    Err(Error::InvalidLineage)
                                } else {
                                    authorization_reference_spec(body, ctx)
                                },
                            },
                        },
                    },
                }
            },
        },
    }
}

/// A named predecessor of a key lifecycle step is a step of the same actor
/// in the causal closure.
pub open spec fn predecessor_lifecycle_spec(ctx: CheckContext, predecessor: Option<u128>, affected: u128) -> Result<(), Error> {
    match predecessor {
        None => Ok(()),
        Some(p) => match body_spec(ctx, p) {
            Err(e) => Err(e),
            Ok((pt, pb)) => if pt != "key_lifecycle"@ {
                Err(Error::InvalidLineage)
            } else {
                match id_spec(pb, "affected_actor_id"@) {
                    Err(e) => Err(e),
                    Ok(pa) => lineage(pa == affected && ctx.closure@.contains(p)),
                }
            },
        },
    }
}

fn signing_key_check(ctx: &CheckContext, id: u128) -> (r: Result<(), Error>)
    ensures
        r == signing_key_spec(*ctx, id),
{
    proof {
        reveal_strlit("key");
        reveal_strlit("purpose");
        reveal_strlit("signing");
    }
    if !same_text(load_type(ctx, id)?, "key") {
        return Err(Error::InvalidLineage);
    }
    let (_, kb) = load_body(ctx, id)?;
    match text_field(kb, "purpose") {
        Some(t) => {
            if same_text(t, "signing") {
                Ok(())
            } else {
                Err(Error::InvalidLineage)
            }
        },
        None => Err(Error::InvalidLineage),
    }
}

fn key_operation_check<'a>(body: &'a JsonValue, ctx: &CheckContext) -> (r: Result<&'a str, Error>)
    ensures
        match r {
            Ok(op) => key_operation_rule(*body, *ctx) == Ok::<Seq<char>, Error>(op@),
            Err(e) => key_operation_rule(*body, *ctx) == Err::<Seq<char>, Error>(e),
        },
{
    proof {
        reveal_strlit("operation");
        reveal_strlit("new_key_id");
        reveal_strlit("rotate");
        reveal_strlit("recover");
        reveal_strlit("revoke");
    }
    let op = match text_field(body, "operation") {
        Some(op) => op,
        None => return Err(Error::InvalidLineage),
    };
    let new_key = optional_id_field(body, "new_key_id")?;
    if same_text(op, "rotate") || same_text(op, "recover") {
        match new_key {
            None => Err(Error::InvalidLineage),
            Some(k) => {
                signing_key_check(ctx, k)?;
                Ok(op)
            },
        }
    } else if same_text(op, "revoke") {
        if new_key.is_some() {
            Err(Error::InvalidLineage)
        } else {
            Ok(op)
        }
    } else {
        Err(Error::InvalidLineage)
    }
}

fn predecessor_lifecycle_check(ctx: &CheckContext, predecessor: Option<u128>, affected: u128) -> (r: Result<
    (),
    Error,
>)
    ensures
        r == predecessor_lifecycle_spec(*ctx, predecessor, affected),
{
    proof {
        reveal_strlit("key_lifecycle");
        reveal_strlit("affected_actor_id");
    }
    match predecessor {
        None => Ok(()),
        Some(p) => {
            let (pt, pb) = load_body(ctx, p)?;
            if !same_text(pt, "key_lifecycle") {
                return Err(Error::InvalidLineage);
            }
            let pa = id_field(pb, "affected_actor_id")?;
            if pa == affected && listed(&ctx.closure, p) {
                Ok(())
            } else {
                Err(Error::InvalidLineage)
            }
        },
    }
}

fn recovery_policy_present(ctx: &CheckContext, actor: u128, key: u128) -> (r: bool)
    ensures
        r == recovery_policy_in_closure(*ctx, actor, key),
{
    proof {
        reveal_strlit("recovery_policy");
        reveal_strlit("actor_id");
        reveal_strlit("recovery_key_id");
    }
    let mut i: usize = 0;
    while i < ctx.closure.len()
        invariant
            i <= ctx.closure@.len(),
            forall|k: int|
                0 <= k < i ==> !#[trigger] is_recovery_policy_for(*ctx, ctx.closure@[k], actor, key),
        decreases ctx.closure@.len() - i,
    {
        let id = ctx.closure[i];
        let found = match load_body(ctx, id) {
            Ok((t, b)) => same_text(t, "recovery_policy") && matches!(id_field(b, "actor_id"), Ok(a) if a == actor)
                && matches!(id_field(b, "recovery_key_id"), Ok(k) if k == key),
            Err(_) => false,
        };
        if found {
            assert(is_recovery_policy_for(*ctx, ctx.closure@[i as int], actor, key));
            return true;
        }
        i = i + 1;
    }
    false
}

/// Checks a `key_lifecycle`; see [`key_lifecycle_spec`].
pub fn key_lifecycle_check(body: &JsonValue, ctx: &CheckContext) -> (r: Result<(), Error>)
    ensures
        r == key_lifecycle_spec(*body, *ctx),
{
    proof {
        reveal_strlit("affected_actor_id");
        reveal_strlit("old_key_id");
        reveal_strlit("actor");
        reveal_strlit("predecessor_lifecycle_id");
        reveal_strlit("recover");
    }
    let affected = id_field(body, "affected_actor_id")?;
    let old_key = id_field(body, "old_key_id")?;
    if !same_text(load_type(ctx, affected)?, "actor") {
        return Err(Error::InvalidLineage);
    }
    signing_key_check(ctx, old_key)?;
    let op = key_operation_check(body, ctx)?;
    let predecessor = optional_id_field(body, "predecessor_lifecycle_id")?;
    predecessor_lifecycle_check(ctx, predecessor, affected)?;
    if same_text(op, "recover") && !recovery_policy_present(ctx, affected, ctx.signing_key) {
        return Err(Error::InvalidLineage);
    }
    authorization_reference_check(body, ctx)
}

/// An `actor_key_binding`: it binds an actor to a key for the purpose the
/// key states, and a predecessor binding, when named, binds the same actor
/// and lies in the causal closure.
pub open spec fn key_binding_spec(body: JsonValue, ctx: CheckContext) -> Result<(), Error> {
    match (id_spec(body, "actor_id"@), id_spec(body, "key_id"@)) {
        (Err(e), _) => Err(e),
        (Ok(_), Err(e)) => Err(e),
        (Ok(actor), Ok(key)) => match type_spec(ctx, actor) {
            Err(e) => Err(e),
            Ok(ta) => if ta != "actor"@ {
                Err(Error::InvalidLineage)
            } else {
                match type_spec(ctx, key) {
                    Err(e) => Err(e),
                    Ok(tk) => if tk != "key"@ {
                        Err(Error::InvalidLineage)
                    } else {
                        match body_spec(ctx, key) {
                            Err(e) => Err(e),
                            Ok((_, kb)) => if !same_member(
                                field(kb, "purpose"@),
                                field(body, "permitted_purpose"@),
                            ) {
                                Err(Error::InvalidLineage)
                            } else {
                                match optional_id_spec(body, "predecessor_binding_id"@) {
                                    Err(e) => Err(e),
                                    Ok(None) => Ok(()),
                                    Ok(Some(p)) => match body_spec(ctx, p) {
                                        Err(e) => Err(e),
                                        Ok((pt, pb)) => if pt != "actor_key_binding"@ {
                                            Err(Error::InvalidLineage)
                                        } else {
                                            match id_spec(pb, "actor_id"@) {
                                                Err(e) => Err(e),
                                                Ok(pa) => lineage(pa == actor && ctx.closure@.contains(p)),
                                            }
                                        },
                                    },
                                }
                            },
                        }
                    },
                }
            },
        },
    }
}

/// Checks an `actor_key_binding`; see [`key_binding_spec`].
pub fn actor_key_binding_check(body: &JsonValue, ctx: &CheckContext) -> (r: Result<(), Error>)
    ensures
        r == key_binding_spec(*body, *ctx),
{
    proof {
        reveal_strlit("actor_id");
        reveal_strlit("key_id");
        reveal_strlit("actor");
        reveal_strlit("key");
        reveal_strlit("purpose");
        reveal_strlit("permitted_purpose");
        reveal_strlit("predecessor_binding_id");
        reveal_strlit("actor_key_binding");
    }
    let actor = id_field(body, "actor_id")?;
    let key = id_field(body, "key_id")?;
    if !same_text(load_type(ctx, actor)?, "actor") {
        return Err(Error::InvalidLineage);
    }
    if !same_text(load_type(ctx, key)?, "key") {
        return Err(Error::InvalidLineage);
    }
    let (_, kb) = load_body(ctx, key)?;
    if !same_member_check(kb.get("purpose"), body.get("permitted_purpose")) {
        return Err(Error::InvalidLineage);
    }
    let p = match optional_id_field(body, "predecessor_binding_id")? {
        None => return Ok(()),
        Some(p) => p,
    };
    let (pt, pb) = load_body(ctx, p)?;
    if !same_text(pt, "actor_key_binding") {
        return Err(Error::InvalidLineage);
    }
    let pa = id_field(pb, "actor_id")?;
    if pa == actor && listed(&ctx.closure, p) {
        Ok(())
    } else {
        Err(Error::InvalidLineage)
    }
}

/// One assertion a `namespace_assertion` supersedes: a namespace assertion
/// of the same namespace, target type and target, in the causal closure.
pub open spec fn superseded_ok(entry: JsonValue, body: JsonValue, ctx: CheckContext) -> Result<(), Error> {
    match id_value(Some(entry)) {
        None => Err(Error::InvalidLineage),
        Some(p) => match body_spec(ctx, p) {
            Err(e) => Err(e),
            Ok((pt, pb)) => lineage(
                pt == "namespace_assertion"@ && same_member(
                    field(pb, "namespace"@),
                    field(body, "namespace"@),
                ) && same_member(field(pb, "target_type"@), field(body, "target_type"@))
                    && same_member(field(pb, "target_id"@), field(body, "target_id"@))
                    && ctx.closure@.contains(p),
            ),
        },
    }
}

/// The superseded assertions, checked in order.
pub open spec fn superseded_all(entries: Seq<JsonValue>, body: JsonValue, ctx: CheckContext) -> Result<(), Error>
    decreases entries.len(),
{
    if entries.len() == 0 {
        Ok(())
    } else {
        match superseded_ok(entries[0], body, ctx) {
            Err(e) => Err(e),
            Ok(_) => superseded_all(entries.drop_first(), body, ctx),
        }
    }
}

/// A `namespace_assertion`: the naming authority is an actor; the target
/// is this ledger (type `ledger`) or a stored object of the stated type;
/// and each assertion it supersedes passes [`superseded_ok`].
pub open spec fn namespace_assertion_spec(body: JsonValue, ctx: CheckContext) -> Result<(), Error> {
    match (id_spec(body, "naming_authority_actor_id"@), id_spec(body, "target_id"@)) {
        (Err(e), _) => Err(e),
        (Ok(_), Err(e)) => Err(e),
        (Ok(authority), Ok(target)) => match type_spec(ctx, authority) {
            Err(e) => Err(e),
            Ok(ta) => if ta != "actor"@ {
                Err(Error::InvalidLineage)
            } else {
                match text_value(field(body, "target_type"@)) {
                    None => Err(Error::InvalidLineage),
                    Some(target_type) => match (if target_type == "ledger"@ {
                        lineage(target == ctx.ledger)
                    } else {
                        match type_spec(ctx, target) {
                            Err(e) => Err(e),
                            Ok(tt) => lineage(tt == target_type),
                        }
                    }) {
                        Err(e) => Err(e),
                        Ok(_) => if !given(body, "supersedes"@) {
                            Ok(())
                        } else {
                            match field(body, "supersedes"@) {
                                Some(JsonValue::Array(entries)) => superseded_all(entries@, body, ctx),
                                _ => Err(Error::InvalidLineage),
                            }
                        },
                    },
                }
            },
        },
    }
}

/// Checks a `namespace_assertion`; see [`namespace_assertion_spec`].
pub fn namespace_assertion_check(body: &JsonValue, ctx: &CheckContext) -> (r: Result<(), Error>)
    ensures
        r == namespace_assertion_spec(*body, *ctx),
{
    proof {
        reveal_strlit("naming_authority_actor_id");
        reveal_strlit("target_id");
        reveal_strlit("target_type");
        reveal_strlit("actor");
        reveal_strlit("ledger");
        reveal_strlit("supersedes");
        reveal_strlit("namespace");
        reveal_strlit("namespace_assertion");
    }
    let authority = id_field(body, "naming_authority_actor_id")?;
    let target = id_field(body, "target_id")?;
    if !same_text(load_type(ctx, authority)?, "actor") {
        return Err(Error::InvalidLineage);
    }
    let target_type = match text_field(body, "target_type") {
        Some(t) => t,
        None => return Err(Error::InvalidLineage),
    };
    if same_text(target_type, "ledger") {
        if target != ctx.ledger {
            return Err(Error::InvalidLineage);
        }
    } else if !same_text(load_type(ctx, target)?, target_type) {
        return Err(Error::InvalidLineage);
    }
    if !given_field(body, "supersedes") {
        return Ok(());
    }
    let entries = match body.get("supersedes") {
        Some(JsonValue::Array(entries)) => entries,
        _ => return Err(Error::InvalidLineage),
    };
    let mut i: usize = 0;
    assert(entries@.skip(0) =~= entries@);
    while i < entries.len()
        invariant
            i <= entries@.len(),
            field(*body, "supersedes"@) == Some(JsonValue::Array(*entries)),
            namespace_assertion_spec(*body, *ctx) == superseded_all(entries@, *body, *ctx),
            superseded_all(entries@, *body, *ctx) == superseded_all(entries@.skip(i as int), *body, *ctx),
        decreases entries@.len() - i,
    {
        proof {
            assert(entries@.skip(i as int).drop_first() =~= entries@.skip(i + 1));
            assert(entries@.skip(i as int)[0] == entries@[i as int]);
        }
        let p = match parse_object_id_text(Some(&entries[i])) {
            Some(p) => p,
            None => return Err(Error::InvalidLineage),
        };
        let (pt, pb) = load_body(ctx, p)?;
        if !same_text(pt, "namespace_assertion") || !same_member_check(pb.get("namespace"), body.get("namespace"))
            || !same_member_check(pb.get("target_type"), body.get("target_type"))
            || !same_member_check(pb.get("target_id"), body.get("target_id"))
            || !listed(&ctx.closure, p) {
            return Err(Error::InvalidLineage);
        }
        i = i + 1;
    }
    assert(entries@.skip(entries@.len() as int) =~= Seq::<JsonValue>::empty());
    Ok(())
}

/// Stored object `id` is a recovery policy of `actor`.
pub open spec fn policy_of(ctx: CheckContext, id: u128, actor: u128) -> bool {
    &&& body_spec(ctx, id) matches Ok((t, b))
    &&& t == "recovery_policy"@
    &&& id_spec(b, "actor_id"@) == Ok::<u128, Error>(actor)
}

/// The predecessor a stored recovery policy names, when it names a
/// readable one.
pub open spec fn policy_predecessor(ctx: CheckContext, id: u128) -> Option<u128> {
    match body_spec(ctx, id) {
        Ok((_, b)) => if given(b, "predecessor_policy_id"@) {
            id_value(field(b, "predecessor_policy_id"@))
        } else {
            None
        },
        Err(_) => None,
    }
}

/// The recovery policies of `actor` among `ids`, as `(id, predecessor)`.
pub open spec fn policies_in(ctx: CheckContext, ids: Seq<u128>, actor: u128) -> Seq<(u128, Option<u128>)>
    decreases ids.len(),
{
    if ids.len() == 0 {
        seq![]
    } else {
        let rest = policies_in(ctx, ids.drop_last(), actor);
        if policy_of(ctx, ids.last(), actor) {
            rest.push((ids.last(), policy_predecessor(ctx, ids.last())))
        } else {
            rest
        }
    }
}

/// A `recovery_policy`: it names an actor and a recovery key of that
/// actor (a key with purpose `recovery`, bound to the actor for recovery),
/// and succeeds the actor's earlier policies in its causal closure as
/// [`policy_succession_ok`] says.
pub open spec fn recovery_policy_spec(body: JsonValue, ctx: CheckContext) -> Result<(), Error> {
    match (id_spec(body, "actor_id"@), id_spec(body, "recovery_key_id"@)) {
        (Err(e), _) => Err(e),
        (Ok(_), Err(e)) => Err(e),
        (Ok(actor), Ok(key)) => match type_spec(ctx, actor) {
            Err(e) => Err(e),
            Ok(ta) => if ta != "actor"@ {
                Err(Error::InvalidLineage)
            } else {
                match type_spec(ctx, key) {
                    Err(e) => Err(e),
                    Ok(tk) => if tk != "key"@ {
                        Err(Error::InvalidLineage)
                    } else {
                        match body_spec(ctx, key) {
                            Err(e) => Err(e),
                            Ok((_, kb)) => if text_value(field(kb, "purpose"@)) != Some("recovery"@)
                                || !ctx.recovery_bindings@.contains((actor, key)) {
                                Err(Error::InvalidLineage)
                            } else {
                                match optional_id_spec(body, "predecessor_policy_id"@) {
                                    Err(e) => Err(e),
                                    Ok(predecessor) => lineage(
                                        policy_succession_ok(
                                            policies_in(ctx, ctx.closure@, actor),
                                            predecessor,
                                            ctx.closure@,
                                        ),
                                    ),
                                }
                            },
                        }
                    },
                }
            },
        },
    }
}

fn binding_listed(bindings: &Vec<(u128, u128)>, actor: u128, key: u128) -> (r: bool)
    ensures
        r == bindings@.contains((actor, key)),
{
    let mut i: usize = 0;
    while i < bindings.len()
        invariant
            i <= bindings@.len(),
            forall|k: int| 0 <= k < i ==> bindings@[k] != (actor, key),
        decreases bindings@.len() - i,
    {
        let (a, k) = bindings[i];
        if a == actor && k == key {
            assert(bindings@[i as int] == (actor, key));
            return true;
        }
        i = i + 1;
    }
    false
}

fn policies_of(ctx: &CheckContext, actor: u128) -> (r: Vec<(u128, Option<u128>)>)
    ensures
        r@ == policies_in(*ctx, ctx.closure@, actor),
{
    proof {
        reveal_strlit("recovery_policy");
        reveal_strlit("actor_id");
        reveal_strlit("predecessor_policy_id");
    }
    let mut out: Vec<(u128, Option<u128>)> = Vec::new();
    let mut i: usize = 0;
    while i < ctx.closure.len()
        invariant
            i <= ctx.closure@.len(),
            out@ == policies_in(*ctx, ctx.closure@.take(i as int), actor),
        decreases ctx.closure@.len() - i,
    {
        let id = ctx.closure[i];
        proof {
            assert(ctx.closure@.take(i + 1).drop_last() =~= ctx.closure@.take(i as int));
            assert(ctx.closure@.take(i + 1).last() == id);
        }
        match load_body(ctx, id) {
            Ok((t, b)) => {
                if same_text(t, "recovery_policy") && matches!(id_field(b, "actor_id"), Ok(a) if a == actor) {
                    let predecessor = if given_field(b, "predecessor_policy_id") {
                        parse_object_id_text(b.get("predecessor_policy_id"))
                    } else {
                        None
                    };
                    out.push((id, predecessor));
                }
            },
            Err(_) => {},
        }
        i = i + 1;
    }
    assert(ctx.closure@.take(ctx.closure@.len() as int) =~= ctx.closure@);
    out
}

/// Checks a `recovery_policy`; see [`recovery_policy_spec`].
pub fn recovery_policy_check(body: &JsonValue, ctx: &CheckContext) -> (r: Result<(), Error>)
    ensures
        r == recovery_policy_spec(*body, *ctx),
{
    proof {
        reveal_strlit("actor_id");
        reveal_strlit("recovery_key_id");
        reveal_strlit("actor");
        reveal_strlit("key");
        reveal_strlit("purpose");
        reveal_strlit("recovery");
        reveal_strlit("predecessor_policy_id");
    }
    let actor = id_field(body, "actor_id")?;
    let key = id_field(body, "recovery_key_id")?;
    if !same_text(load_type(ctx, actor)?, "actor") {
        return Err(Error::InvalidLineage);
    }
    if !same_text(load_type(ctx, key)?, "key") {
        return Err(Error::InvalidLineage);
    }
    let (_, kb) = load_body(ctx, key)?;
    let recovery_purpose = match text_field(kb, "purpose") {
        Some(t) => same_text(t, "recovery"),
        None => false,
    };
    if !recovery_purpose || !binding_listed(&ctx.recovery_bindings, actor, key) {
        return Err(Error::InvalidLineage);
    }
    let predecessor = optional_id_field(body, "predecessor_policy_id")?;
    let priors = policies_of(ctx, actor);
    if policy_succession_valid(&priors, predecessor, &ctx.closure) {
        Ok(())
    } else {
        Err(Error::InvalidLineage)
    }
}

/// An `application_relationship` that is not shared is refused by local
/// storage policy.
pub open spec fn application_relationship_spec(body: JsonValue) -> Result<(), Error> {
    if field(body, "shared"@) == Some(JsonValue::Bool(false)) {
        Err(Error::PolicyRejected)
    } else {
        Ok(())
    }
}

/// The object types whose cross-object rule needs more than a
/// [`CheckContext`] holds: the embedded relationships, roster, witness,
/// participant and lifecycle rules kept in the other modules, or parts
/// (timestamps, hashes, participant replay) computed outside the library.
pub open spec fn rule_needs_more(t: Seq<char>) -> bool {
    ||| t == "identity_attestation"@
    ||| t == "proposition_provenance"@
    ||| t == "proposition_lifecycle"@
    ||| t == "protocol_relationship"@
    ||| t == "revision"@
    ||| t == "deliberation"@
    ||| t == "standing_participant_change"@
    ||| t == "settlement"@
    ||| t == "decision"@
    ||| t == "deliberation_participant_change"@
    ||| t == "participant_invitation"@
    ||| t == "invitation_lifecycle"@
    ||| t == "deliberation_comment"@
}

/// The cross-object rule for an object of type `t`: `Some` of its outcome
/// when the rule stands here (types without a rule pass), `None` when
/// [`rule_needs_more`].
pub open spec fn cross_object_spec(t: Seq<char>, body: JsonValue, ctx: CheckContext) -> Option<Result<(), Error>> {
    if t == "actor_key_binding"@ {
        Some(key_binding_spec(body, ctx))
    } else if t == "authorization_grant"@ {
        Some(grant_spec(body, ctx))
    } else if t == "authorization_revocation"@ {
        Some(revocation_spec(body, ctx, "revoked_grant_id"@, "authorization_grant"@))
    } else if t == "delegation"@ {
        Some(delegation_spec(body, ctx))
    } else if t == "delegation_revocation"@ {
        Some(revocation_spec(body, ctx, "revoked_delegation_id"@, "delegation"@))
    } else if t == "actor_lifecycle"@ {
        Some(actor_lifecycle_spec(body, ctx))
    } else if t == "key_lifecycle"@ {
        Some(key_lifecycle_spec(body, ctx))
    } else if t == "recovery_policy"@ {
        Some(recovery_policy_spec(body, ctx))
    } else if t == "proposition"@ {
        Some(proposition_spec(body, ctx))
    } else if t == "namespace_assertion"@ {
        Some(namespace_assertion_spec(body, ctx))
    } else if t == "application_relationship"@ {
        Some(application_relationship_spec(body))
    } else if rule_needs_more(t) {
        None
    } else {
        Some(Ok(()))
    }
}

/// Applies the cross-object rule of an object of type `object_type`; see
/// [`cross_object_spec`].
pub fn cross_object_check(object_type: &str, body: &JsonValue, ctx: &CheckContext) -> (r: Option<
    Result<(), Error>,
>)
    ensures
        r == cross_object_spec(object_type@, *body, *ctx),
{
    proof {
        reveal_strlit("actor_key_binding");
        reveal_strlit("authorization_grant");
        reveal_strlit("authorization_revocation");
        reveal_strlit("revoked_grant_id");
        reveal_strlit("delegation");
        reveal_strlit("delegation_revocation");
        reveal_strlit("revoked_delegation_id");
        reveal_strlit("actor_lifecycle");
        reveal_strlit("key_lifecycle");
        reveal_strlit("recovery_policy");
        reveal_strlit("proposition");
        reveal_strlit("namespace_assertion");
        reveal_strlit("application_relationship");
        reveal_strlit("shared");
    }
    let t = object_type;
    if same_text(t, "actor_key_binding") {
        Some(actor_key_binding_check(body, ctx))
    } else if same_text(t, "authorization_grant") {
        Some(authorization_grant_check(body, ctx))
    } else if same_text(t, "authorization_revocation") {
        Some(authorization_revocation_check(body, ctx))
    } else if same_text(t, "delegation") {
        Some(delegation_check(body, ctx))
    } else if same_text(t, "delegation_revocation") {
        Some(delegation_revocation_check(body, ctx))
    } else if same_text(t, "actor_lifecycle") {
        Some(actor_lifecycle_check(body, ctx))
    } else if same_text(t, "key_lifecycle") {
        Some(key_lifecycle_check(body, ctx))
    } else if same_text(t, "recovery_policy") {
        Some(recovery_policy_check(body, ctx))
    } else if same_text(t, "proposition") {
        Some(proposition_check(body, ctx))
    } else if same_text(t, "namespace_assertion") {
        Some(namespace_assertion_check(body, ctx))
    } else if same_text(t, "application_relationship") {
        match body.get("shared") {
            Some(JsonValue::Bool(false)) => Some(Err(Error::PolicyRejected)),
            _ => Some(Ok(())),
        }
    } else if needs_more(t) {
        None
    } else {
        Some(Ok(()))
    }
}

fn needs_more(t: &str) -> (r: bool)
    ensures
        r == rule_needs_more(t@),
{
    proof {
        reveal_strlit("identity_attestation");
        reveal_strlit("proposition_provenance");
        reveal_strlit("proposition_lifecycle");
        reveal_strlit("protocol_relationship");
        reveal_strlit("revision");
        reveal_strlit("deliberation");
        reveal_strlit("standing_participant_change");
        reveal_strlit("settlement");
        reveal_strlit("decision");
        reveal_strlit("deliberation_participant_change");
        reveal_strlit("participant_invitation");
        reveal_strlit("invitation_lifecycle");
        reveal_strlit("deliberation_comment");
    }
    same_text(t, "identity_attestation") || same_text(t, "proposition_provenance") || same_text(
        t,
        "proposition_lifecycle",
    ) || same_text(t, "protocol_relationship") || same_text(t, "revision") || same_text(t, "deliberation")
        || same_text(t, "standing_participant_change") || same_text(t, "settlement") || same_text(
        t,
        "decision",
    ) || same_text(t, "deliberation_participant_change") || same_text(t, "participant_invitation")
        || same_text(t, "invitation_lifecycle") || same_text(t, "deliberation_comment")
}

/// Law: what an accepted object guarantees of the objects it names. A
/// grant is signed by its granting actor, and both parties are stored
/// actors; a delegation joins two different stored actors and is signed by
/// the delegator; an actor lifecycle step retires a stored actor; a key
/// binding binds a stored actor to a stored key for the purpose the key
/// states; a proposition starts with a parentless revision of it and a
/// deliberation of it on that revision; a settlement settles a
/// deliberation on the settled revision.
pub proof fn law_accepted_objects(body: JsonValue, ctx: CheckContext)
    ensures
        grant_spec(body, ctx) is Ok ==> exists|g: u128, r: u128|
            id_spec(body, "granting_actor_id"@) == Ok::<u128, Error>(g) && id_spec(body, "receiving_actor_id"@)
                == Ok::<u128, Error>(r) && g == ctx.actor && type_spec(ctx, g) == Ok::<Seq<char>, Error>("actor"@)
                && type_spec(ctx, r) == Ok::<Seq<char>, Error>("actor"@),
        delegation_spec(body, ctx) is Ok ==> exists|a: u128, b: u128|
            id_spec(body, "delegator_actor_id"@) == Ok::<u128, Error>(a) && id_spec(body, "delegatee_actor_id"@)
                == Ok::<u128, Error>(b) && a != b && a == ctx.actor && type_spec(ctx, a) == Ok::<Seq<char>, Error>(
                "actor"@,
            ) && type_spec(ctx, b) == Ok::<Seq<char>, Error>("actor"@),
        actor_lifecycle_spec(body, ctx) is Ok ==> text_value(field(body, "operation"@)) == Some("retire"@)
            && exists|a: u128|
            id_spec(body, "affected_actor_id"@) == Ok::<u128, Error>(a) && type_spec(ctx, a) == Ok::<
                Seq<char>,
                Error,
            >("actor"@),
        key_binding_spec(body, ctx) is Ok ==> exists|a: u128, k: u128, kt: Seq<char>, kb: JsonValue|
            id_spec(body, "actor_id"@) == Ok::<u128, Error>(a) && id_spec(body, "key_id"@) == Ok::<u128, Error>(k)
                && type_spec(ctx, a) == Ok::<Seq<char>, Error>("actor"@) && type_spec(ctx, k) == Ok::<
                Seq<char>,
                Error,
            >("key"@) && body_spec(ctx, k) == Ok::<(Seq<char>, JsonValue), Error>((kt, kb)) && same_member(
                field(kb, "purpose"@),
                field(body, "permitted_purpose"@),
            ),
        proposition_spec(body, ctx) is Ok ==> {
            let p = id_spec(body, "proposition_id"@);
            let rid = id_spec(body, "initial_revision_id"@);
            let did = id_spec(body, "initial_deliberation_id"@);
            &&& p is Ok && rid is Ok && did is Ok
            &&& body_spec(ctx, rid->Ok_0) is Ok && body_spec(ctx, rid->Ok_0)->Ok_0.0 == "revision"@
            &&& body_spec(ctx, did->Ok_0) is Ok && body_spec(ctx, did->Ok_0)->Ok_0.0 == "deliberation"@
            &&& id_spec(body_spec(ctx, rid->Ok_0)->Ok_0.1, "proposition_id"@) == p
            &&& id_spec(body_spec(ctx, did->Ok_0)->Ok_0.1, "proposition_id"@) == p
            &&& is_null(field(body_spec(ctx, rid->Ok_0)->Ok_0.1, "parent_revision_id"@))
            &&& id_spec(body_spec(ctx, did->Ok_0)->Ok_0.1, "revision_id"@) == rid
        },
        settlement_target_spec(body, ctx) is Ok ==> {
            let did = id_spec(body, "deliberation_id"@);
            let rid = id_spec(body, "revision_id"@);
            &&& did is Ok && rid is Ok
            &&& body_spec(ctx, did->Ok_0) is Ok && body_spec(ctx, did->Ok_0)->Ok_0.0 == "deliberation"@
            &&& id_spec(body_spec(ctx, did->Ok_0)->Ok_0.1, "revision_id"@) == rid
        },
{
    reveal_strlit("granting_actor_id");
    reveal_strlit("receiving_actor_id");
    reveal_strlit("actor");
    reveal_strlit("predecessor_grant_id");
    reveal_strlit("authorization_grant");
    reveal_strlit("delegator_actor_id");
    reveal_strlit("delegatee_actor_id");
    reveal_strlit("affected_actor_id");
    reveal_strlit("operation");
    reveal_strlit("retire");
    reveal_strlit("proposition_id");
    reveal_strlit("initial_revision_id");
    reveal_strlit("initial_deliberation_id");
    reveal_strlit("revision");
    reveal_strlit("deliberation");
    reveal_strlit("parent_revision_id");
    reveal_strlit("revision_id");
    reveal_strlit("deliberation_id");
    reveal_strlit("actor_id");
    reveal_strlit("key_id");
    reveal_strlit("key");
    reveal_strlit("purpose");
    reveal_strlit("permitted_purpose");
}

} // verus!
