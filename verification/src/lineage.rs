//! Lineage rules of individual object types that are decided from the
//! object and what it names: key lifecycle operations, the succession of
//! recovery policies, lifecycle operations per dimension, and reconciliation
//! revisions.

use vstd::prelude::*;
use crate::error::Error;
use crate::lifecycle::{LifecycleTransition, is_tip_id, lifecycle_predecessors_valid};
use crate::text::same_text;
use crate::json::{JsonValue, field, id_value, parse_object_id_text, text_value};

verus! {

/// What a key lifecycle object does to the old key.
#[derive(Clone, Copy, Debug, PartialEq, Eq, Structural)]
pub enum KeyLifecycleOperation {
    Rotate,
    Recover,
    Revoke,
}

/// The operation a key lifecycle object performs, given whether it names a
/// new key: rotation and recovery need one, revocation must name none.
pub open spec fn key_operation_spec(operation: Seq<char>, names_new_key: bool) -> Option<KeyLifecycleOperation> {
    if operation == "rotate"@ && names_new_key {
        Some(KeyLifecycleOperation::Rotate)
    } else if operation == "recover"@ && names_new_key {
        Some(KeyLifecycleOperation::Recover)
    } else if operation == "revoke"@ && !names_new_key {
        Some(KeyLifecycleOperation::Revoke)
    } else {
        None
    }
}

/// Reads the operation of a key lifecycle object. Any other operation, a
/// rotation or recovery without a new key, or a revocation with one, is
/// invalid lineage.
pub fn key_lifecycle_operation(operation: &str, new_key: Option<u128>) -> (r: Result<
    KeyLifecycleOperation,
    Error,
>)
    ensures
        r == match key_operation_spec(operation@, new_key is Some) {
            Some(op) => Ok::<KeyLifecycleOperation, Error>(op),
            None => Err(Error::InvalidLineage),
        },
{
    proof {
        reveal_strlit("rotate");
        reveal_strlit("recover");
        reveal_strlit("revoke");
        assert("rotate"@[2] != "revoke"@[2]);
        assert("rotate"@ != "revoke"@);
        assert("recover"@.len() != "revoke"@.len());
        assert("recover"@.len() != "rotate"@.len());
    }
    let names_new_key = new_key.is_some();
    if same_text(operation, "rotate") || same_text(operation, "recover") {
        if !names_new_key {
            return Err(Error::InvalidLineage);
        }
        if same_text(operation, "rotate") {
            Ok(KeyLifecycleOperation::Rotate)
        } else {
            Ok(KeyLifecycleOperation::Recover)
        }
    } else if same_text(operation, "revoke") {
        if names_new_key {
            Err(Error::InvalidLineage)
        } else {
            Ok(KeyLifecycleOperation::Revoke)
        }
    } else {
        Err(Error::InvalidLineage)
    }
}

/// `x` is an earlier policy of the actor that no earlier policy succeeds.
/// Each earlier policy is `(id, predecessor)`.
pub open spec fn is_policy_tip(priors: Seq<(u128, Option<u128>)>, x: u128) -> bool {
    &&& exists|i: int| 0 <= i < priors.len() && (#[trigger] priors[i]).0 == x
    &&& !exists|j: int| 0 <= j < priors.len() && (#[trigger] priors[j]).1 == Some(x)
}

/// A recovery policy succeeds correctly: the actor's first policy names no
/// predecessor, and a later one names the single current policy, which must
/// be in its causal closure.
pub open spec fn policy_succession_ok(
    priors: Seq<(u128, Option<u128>)>,
    predecessor: Option<u128>,
    closure: Seq<u128>,
) -> bool {
    match predecessor {
        None => forall|x: u128| !is_policy_tip(priors, x),
        Some(id) => (forall|x: u128| is_policy_tip(priors, x) <==> x == id) && closure.contains(id),
    }
}

/// Whether `x` is the identifier of some earlier policy.
fn policy_known(priors: &Vec<(u128, Option<u128>)>, x: u128) -> (r: bool)
    ensures
        r == exists|i: int| 0 <= i < priors@.len() && (#[trigger] priors@[i]).0 == x,
{
    let mut i: usize = 0;
    while i < priors.len()
        invariant
            i <= priors@.len(),
            forall|k: int| 0 <= k < i ==> (#[trigger] priors@[k]).0 != x,
        decreases priors@.len() - i,
    {
        if priors[i].0 == x {
            return true;
        }
        i = i + 1;
    }
    false
}

/// Whether some earlier policy names `x` as its predecessor.
fn policy_succeeded(priors: &Vec<(u128, Option<u128>)>, x: u128) -> (r: bool)
    ensures
        r == exists|j: int| 0 <= j < priors@.len() && (#[trigger] priors@[j]).1 == Some(x),
{
    let mut i: usize = 0;
    while i < priors.len()
        invariant
            i <= priors@.len(),
            forall|k: int| 0 <= k < i ==> (#[trigger] priors@[k]).1 != Some(x),
        decreases priors@.len() - i,
    {
        match priors[i].1 {
            Some(p) => if p == x {
                return true;
            },
            None => {},
        }
        i = i + 1;
    }
    false
}

/// Whether `x` occurs in `ids`.
fn listed(ids: &Vec<u128>, x: u128) -> (r: bool)
    ensures
        r == ids@.contains(x),
{
    let mut i: usize = 0;
    while i < ids.len()
        invariant
            i <= ids@.len(),
            forall|k: int| 0 <= k < i ==> ids@[k] != x,
        decreases ids@.len() - i,
    {
        if ids[i] == x {
            assert(ids@[i as int] == x);
            return true;
        }
        i = i + 1;
    }
    false
}

/// Checks how a recovery policy succeeds the actor's earlier policies,
/// each given as `(id, predecessor)`.
pub fn policy_succession_valid(
    priors: &Vec<(u128, Option<u128>)>,
    predecessor: Option<u128>,
    closure: &Vec<u128>,
) -> (r: bool)
    ensures
        r == policy_succession_ok(priors@, predecessor, closure@),
{
    let mut i: usize = 0;
    while i < priors.len()
        invariant
            i <= priors@.len(),
            forall|k: int|
                0 <= k < i ==> (#[trigger] is_policy_tip(priors@, priors@[k].0)) ==> predecessor
                    == Some(priors@[k].0),
        decreases priors@.len() - i,
    {
        let x = priors[i].0;
        if !policy_succeeded(priors, x) {
            assert(is_policy_tip(priors@, x));
            match predecessor {
                Some(id) => if id != x {
                    return false;
                },
                None => {
                    return false;
                },
            }
        }
        i = i + 1;
    }
    proof {
        assert forall|x: u128| is_policy_tip(priors@, x) implies predecessor == Some(x) by {
            let k = choose|k: int| 0 <= k < priors@.len() && (#[trigger] priors@[k]).0 == x;
            assert(is_policy_tip(priors@, priors@[k].0));
        }
    }
    match predecessor {
        None => {
            assert forall|x: u128| !is_policy_tip(priors@, x) by {
                if is_policy_tip(priors@, x) {
                    let k = choose|k: int| 0 <= k < priors@.len() && (#[trigger] priors@[k]).0 == x;
                    assert(is_policy_tip(priors@, priors@[k].0));
                }
            }
            true
        },
        Some(id) => {
            let known = policy_known(priors, id);
            let succeeded = policy_succeeded(priors, id);
            let inside = listed(closure, id);
            assert(is_policy_tip(priors@, id) == (known && !succeeded));
            known && !succeeded && inside
        },
    }
}

/// The operations a lifecycle dimension has: withdrawal and restoration, or
/// archival and unarchival.
pub open spec fn dimension_operation_ok(dimension: Seq<char>, operation: Seq<char>) -> bool {
    ||| dimension == "withdrawal"@ && (operation == "withdraw"@ || operation == "restore"@)
    ||| dimension == "archival"@ && (operation == "archive"@ || operation == "unarchive"@)
}

/// Whether `operation` belongs to the lifecycle `dimension`.
pub fn dimension_operation_valid(dimension: &str, operation: &str) -> (r: bool)
    ensures
        r == dimension_operation_ok(dimension@, operation@),
{
    proof {
        reveal_strlit("withdrawal");
        reveal_strlit("archival");
        assert("withdrawal"@.len() == 10);
        assert("archival"@.len() == 8);
        assert("withdrawal"@ != "archival"@);
    }
    if same_text(dimension, "withdrawal") {
        same_text(operation, "withdraw") || same_text(operation, "restore")
    } else if same_text(dimension, "archival") {
        same_text(operation, "archive") || same_text(operation, "unarchive")
    } else {
        false
    }
}

/// A proposition lifecycle step names exactly the current tips of the
/// earlier steps of its dimension, all in its causal closure, and names at
/// least one when there are earlier steps.
pub fn proposition_lifecycle_predecessors_valid(
    earlier: &[LifecycleTransition],
    predecessors: &Vec<u128>,
    closure: &Vec<u128>,
) -> (r: bool)
    ensures
        r == ((earlier@.len() == 0 || predecessors@.len() > 0) && (forall|x: u128|
            predecessors@.contains(x) <==> is_tip_id(earlier@, x)) && (forall|x: u128|
            predecessors@.contains(x) ==> closure@.contains(x))),
{
    (earlier.len() == 0 || predecessors.len() > 0) && lifecycle_predecessors_valid(
        earlier,
        predecessors,
        closure,
    )
}

/// A revision carries a reconciliation manifest exactly when its
/// proposition's purpose is reconciliation.
pub fn manifest_matches_purpose(purpose: &str, has_manifest: bool) -> (r: bool)
    ensures
        r == ((purpose@ == "reconciliation"@) == has_manifest),
{
    same_text(purpose, "reconciliation") == has_manifest
}

/// A standing participant change as its body states it: the operation and
/// the change it follows, if any.
pub open spec fn standing_intent_spec(body: JsonValue) -> Option<(Seq<char>, Option<u128>)> {
    let operation = text_value(field(body, "operation"@));
    let predecessor = field(body, "predecessor_change_id"@);
    if operation is None {
        None
    } else {
        match predecessor {
            None => Some((operation->0, None)),
            Some(JsonValue::Null) => Some((operation->0, None)),
            Some(p) => match id_value(Some(p)) {
                Some(id) => Some((operation->0, Some(id))),
                None => None,
            },
        }
    }
}

/// Reads the operation of a standing participant change and the change it
/// follows. A body without them is invalid lineage.
pub fn standing_change_intent(body: &JsonValue) -> (r: Result<(String, Option<u128>), Error>)
    ensures
        match r {
            Ok((operation, predecessor)) => standing_intent_spec(*body) == Some((operation@, predecessor)),
            Err(e) => e == Error::InvalidLineage && standing_intent_spec(*body) is None,
        },
{
    let operation = match body.get("operation") {
        Some(JsonValue::Text(t)) => t.as_str().to_owned(),
        _ => return Err(Error::InvalidLineage),
    };
    let predecessor = match body.get("predecessor_change_id") {
        None => None,
        Some(JsonValue::Null) => None,
        Some(p) => match parse_object_id_text(Some(p)) {
            Some(id) => Some(id),
            None => return Err(Error::InvalidLineage),
        },
    };
    Ok((operation, predecessor))
}

/// An earlier standing change of the same participant on the same
/// proposition: its id, the change it follows, and its operation.
#[derive(Clone, Debug, PartialEq, Eq)]
pub struct StandingChange {
    pub id: u128,
    pub predecessor: Option<u128>,
    pub operation: String,
}

/// `x` is an earlier change that no earlier change follows.
pub open spec fn is_standing_tip(changes: Seq<StandingChange>, x: u128) -> bool {
    &&& exists|i: int| 0 <= i < changes.len() && (#[trigger] changes[i]).id == x
    &&& !exists|j: int| 0 <= j < changes.len() && (#[trigger] changes[j]).predecessor == Some(x)
}

/// The operation of the first earlier change with id `x`.
pub open spec fn standing_operation(changes: Seq<StandingChange>, x: u128) -> Option<Seq<char>>
    decreases changes.len(),
{
    if changes.len() == 0 {
        None
    } else {
        match standing_operation(changes.drop_last(), x) {
            Some(op) => Some(op),
            None => if changes.last().id == x {
                Some(changes.last().operation@)
            } else {
                None
            },
        }
    }
}

/// How a standing change may name an authorization: not at all, as
/// `null`, or by the identifier of an authority object.
#[derive(Clone, Copy, Debug, PartialEq, Eq, Structural)]
pub enum AuthorizationRef {
    Absent,
    Null,
    Named(u128),
}

/// The authorization a body names; `None` when it names something that is
/// no identifier.
pub open spec fn authorization_ref_spec(body: JsonValue) -> Option<AuthorizationRef> {
    match field(body, "authorization_ref"@) {
        None => Some(AuthorizationRef::Absent),
        Some(JsonValue::Null) => Some(AuthorizationRef::Null),
        Some(v) => match id_value(Some(v)) {
            Some(id) => Some(AuthorizationRef::Named(id)),
            None => None,
        },
    }
}

/// Reads the authorization a standing change names.
pub fn authorization_ref_of(body: &JsonValue) -> (r: Option<AuthorizationRef>)
    ensures
        r == authorization_ref_spec(*body),
{
    match body.get("authorization_ref") {
        None => Some(AuthorizationRef::Absent),
        Some(JsonValue::Null) => Some(AuthorizationRef::Null),
        Some(v) => match parse_object_id_text(Some(v)) {
            Some(id) => Some(AuthorizationRef::Named(id)),
            None => None,
        },
    }
}

/// The rule a standing participant change follows once the earlier
/// changes of its participant are known: it follows the single current
/// change (or none, when there is none), joins only a participant that is
/// not joined and removes only one that is, is made by the participant
/// itself with a `null` authorization or by someone else with one, and a
/// named authorization lies in its causal closure. `Ok` carries the
/// authorization whose type is still to be checked.
pub open spec fn standing_rule_spec(
    changes: Seq<StandingChange>,
    operation: Seq<char>,
    predecessor: Option<u128>,
    closure: Seq<u128>,
    changed_by: u128,
    participant: u128,
    authorization: Option<AuthorizationRef>,
) -> Result<Option<u128>, Error> {
    let follows_ok = match predecessor {
        None => changes.len() == 0,
        Some(p) => (forall|x: u128| is_standing_tip(changes, x) <==> x == p) && closure.contains(p),
    };
    let joined = match predecessor {
        Some(p) => standing_operation(changes, p) == Some("join"@),
        None => false,
    };
    let operation_ok = (operation == "join"@ && !joined) || (operation == "leave"@ && joined);
    if !follows_ok || !operation_ok {
        Err(Error::InvalidLineage)
    } else if changed_by == participant && authorization != Some(AuthorizationRef::Null) {
        Err(Error::InvalidLineage)
    } else if changed_by != participant && authorization == Some(AuthorizationRef::Null) {
        Err(Error::Unauthorized)
    } else {
        match authorization {
            None => Err(Error::InvalidLineage),
            Some(AuthorizationRef::Named(id)) => if closure.contains(id) {
                Ok(Some(id))
            } else {
                Err(Error::InvalidLineage)
            },
            _ => Ok(None),
        }
    }
}

/// Whether some earlier change has id `x`.
fn standing_known(changes: &Vec<StandingChange>, x: u128) -> (r: bool)
    ensures
        r == exists|i: int| 0 <= i < changes@.len() && (#[trigger] changes@[i]).id == x,
{
    let mut i: usize = 0;
    while i < changes.len()
        invariant
            i <= changes@.len(),
            forall|k: int| 0 <= k < i ==> (#[trigger] changes@[k]).id != x,
        decreases changes@.len() - i,
    {
        if changes[i].id == x {
            return true;
        }
        i = i + 1;
    }
    false
}

/// Whether some earlier change follows `x`.
fn standing_followed(changes: &Vec<StandingChange>, x: u128) -> (r: bool)
    ensures
        r == exists|j: int| 0 <= j < changes@.len() && (#[trigger] changes@[j]).predecessor == Some(x),
{
    let mut i: usize = 0;
    while i < changes.len()
        invariant
            i <= changes@.len(),
            forall|k: int| 0 <= k < i ==> (#[trigger] changes@[k]).predecessor != Some(x),
        decreases changes@.len() - i,
    {
        match changes[i].predecessor {
            Some(p) => if p == x {
                return true;
            },
            None => {},
        }
        i = i + 1;
    }
    false
}

/// The operation of the first earlier change with id `x`.
fn standing_operation_of<'a>(changes: &'a Vec<StandingChange>, x: u128) -> (r: Option<&'a str>)
    ensures
        match r {
            Some(op) => standing_operation(changes@, x) == Some(op@),
            None => standing_operation(changes@, x) is None,
        },
{
    let mut i: usize = 0;
    while i < changes.len()
        invariant
            i <= changes@.len(),
            standing_operation(changes@.take(i as int), x) is None,
        decreases changes@.len() - i,
    {
        proof {
            assert(changes@.take(i + 1).drop_last() =~= changes@.take(i as int));
        }
        if changes[i].id == x {
            proof {
                lemma_standing_operation_prefix(changes@, x, i as int + 1);
            }
            return Some(changes[i].operation.as_str());
        }
        i = i + 1;
    }
    assert(changes@.take(changes@.len() as int) =~= changes@);
    None
}

/// Once a prefix has an operation for `x`, the whole list has the same.
proof fn lemma_standing_operation_prefix(changes: Seq<StandingChange>, x: u128, n: int)
    requires
        0 <= n <= changes.len(),
        standing_operation(changes.take(n), x) is Some,
    ensures
        standing_operation(changes, x) == standing_operation(changes.take(n), x),
    decreases changes.len() - n,
{
    if n < changes.len() {
        assert(changes.take(n + 1).drop_last() =~= changes.take(n));
        lemma_standing_operation_prefix(changes, x, n + 1);
    } else {
        assert(changes.take(n) =~= changes);
    }
}

/// Applies the standing change rule; see [`standing_rule_spec`].
pub fn standing_change_rule(
    changes: &Vec<StandingChange>,
    operation: &str,
    predecessor: Option<u128>,
    closure: &Vec<u128>,
    changed_by: u128,
    participant: u128,
    authorization: Option<AuthorizationRef>,
) -> (r: Result<Option<u128>, Error>)
    ensures
        r == standing_rule_spec(
            changes@,
            operation@,
            predecessor,
            closure@,
            changed_by,
            participant,
            authorization,
        ),
{
    proof {
        reveal_strlit("join");
        reveal_strlit("leave");
        assert("join"@.len() != "leave"@.len());
    }
    let follows_ok = match predecessor {
        None => changes.len() == 0,
        Some(p) => {
            let mut single = standing_known(changes, p) && !standing_followed(changes, p);
            assert(single == is_standing_tip(changes@, p));
            let mut i: usize = 0;
            while i < changes.len()
                invariant
                    i <= changes@.len(),
                    single ==> forall|k: int|
                        0 <= k < i ==> (#[trigger] is_standing_tip(changes@, changes@[k].id)) ==> changes@[k].id == p,
                    single ==> is_standing_tip(changes@, p),
                    !single ==> !(forall|x: u128| is_standing_tip(changes@, x) <==> x == p),
                decreases changes@.len() - i,
            {
                let x = changes[i].id;
                if single && x != p && !standing_followed(changes, x) {
                    assert(is_standing_tip(changes@, x));
                    single = false;
                }
                i = i + 1;
            }
            proof {
                if single {
                    assert forall|x: u128| is_standing_tip(changes@, x) <==> x == p by {
                        if is_standing_tip(changes@, x) {
                            let k = choose|k: int| 0 <= k < changes@.len() && (#[trigger] changes@[k]).id == x;
                            assert(is_standing_tip(changes@, changes@[k].id));
                        }
                    }
                }
            }
            single && listed(closure, p)
        },
    };
    let joined = match predecessor {
        Some(p) => match standing_operation_of(changes, p) {
            Some(op) => same_text(op, "join"),
            None => false,
        },
        None => false,
    };
    let operation_ok = (same_text(operation, "join") && !joined) || (same_text(operation, "leave") && joined);
    if !follows_ok || !operation_ok {
        return Err(Error::InvalidLineage);
    }
    let is_null = match authorization {
        Some(AuthorizationRef::Null) => true,
        _ => false,
    };
    if changed_by == participant && !is_null {
        return Err(Error::InvalidLineage);
    }
    if changed_by != participant && is_null {
        return Err(Error::Unauthorized);
    }
    match authorization {
        None => Err(Error::InvalidLineage),
        Some(AuthorizationRef::Named(id)) => if listed(closure, id) {
            Ok(Some(id))
        } else {
            Err(Error::InvalidLineage)
        },
        _ => Ok(None),
    }
}

/// Law: the key lifecycle and lifecycle dimension vocabulary. `rotate` and
/// `recover` name a new key and `revoke` none; the withdrawal dimension has
/// `withdraw` and `restore`, the archival dimension `archive` and
/// `unarchive`, and no other pairs belong together.
pub proof fn law_lineage_vocabulary(operation: Seq<char>, names_new_key: bool, dimension: Seq<char>)
    ensures
        key_operation_spec("rotate"@, names_new_key) == if names_new_key {
            Some(KeyLifecycleOperation::Rotate)
        } else {
            None
        },
        key_operation_spec("recover"@, names_new_key) == if names_new_key {
            Some(KeyLifecycleOperation::Recover)
        } else {
            None
        },
        key_operation_spec("revoke"@, names_new_key) == if names_new_key {
            None
        } else {
            Some(KeyLifecycleOperation::Revoke)
        },
        operation != "rotate"@ && operation != "recover"@ && operation != "revoke"@ ==> key_operation_spec(
            operation,
            names_new_key,
        ) is None,
        dimension_operation_ok(dimension, operation) <==> (dimension == "withdrawal"@ && (operation
            == "withdraw"@ || operation == "restore"@)) || (dimension == "archival"@ && (operation
            == "archive"@ || operation == "unarchive"@)),
        dimension_operation_ok("withdrawal"@, "archive"@) == false,
        dimension_operation_ok("archival"@, "withdraw"@) == false,
{
    reveal_strlit("rotate");
    reveal_strlit("recover");
    reveal_strlit("revoke");
    reveal_strlit("withdrawal");
    reveal_strlit("archival");
    reveal_strlit("withdraw");
    reveal_strlit("restore");
    reveal_strlit("archive");
    reveal_strlit("unarchive");
    assert("rotate"@.len() == 6 && "rotate"@[0] == 'r' && "rotate"@[1] == 'o');
    assert("recover"@.len() == 7 && "recover"@[0] == 'r' && "recover"@[1] == 'e');
    assert("revoke"@.len() == 6 && "revoke"@[0] == 'r' && "revoke"@[1] == 'e');
    assert("withdrawal"@.len() == 10 && "withdrawal"@[0] == 'w' && "withdrawal"@[1] == 'i');
    assert("archival"@.len() == 8 && "archival"@[0] == 'a' && "archival"@[1] == 'r');
    assert("withdraw"@.len() == 8 && "withdraw"@[0] == 'w' && "withdraw"@[1] == 'i');
    assert("restore"@.len() == 7 && "restore"@[0] == 'r' && "restore"@[1] == 'e');
    assert("archive"@.len() == 7 && "archive"@[0] == 'a' && "archive"@[1] == 'r');
    assert("unarchive"@.len() == 9 && "unarchive"@[0] == 'u' && "unarchive"@[1] == 'n');
}

} // verus!
