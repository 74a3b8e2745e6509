//! What an object asks authority for: the capability it exercises, the
//! target it acts on, and whether it is an administrative act; and the
//! scopes that grants and delegations carry.

use vstd::prelude::*;
use std::collections::HashMap;
use crate::error::Error;
use crate::json::{
    JsonValue,
    field,
    field_of,
    get_of,
    id_value,
    is_null,
    is_object,
    parse_object_id_text,
    text_value,
};
use crate::text::same_text;

verus! {

broadcast use vstd::std_specs::hash::group_hash_axioms;

/// A capability that authority can grant.
#[derive(Clone, Copy, Debug, PartialEq, Eq, Structural)]
pub enum Capability {
    Propose,
    Deliberate,
    Invite,
    Comment,
    Accept,
    Reject,
    Withdraw,
    Archive,
    Admin,
}

/// What an action is performed on.
#[derive(Clone, Debug, PartialEq, Eq)]
pub enum Target {
    Ledger(u128),
    Revision { ledger: u128, proposition: u128, revision: u128 },
    Deliberation { ledger: u128, proposition: u128, revision: u128, deliberation: u128 },
    Proposition { ledger: u128, proposition: u128 },
    Administration { ledger: u128, capability: Capability },
    Namespace(String),
    Actor { ledger: u128, actor: u128 },
}

/// Mathematical form of [`Target`].
pub enum TargetModel {
    Ledger(u128),
    Revision { ledger: u128, proposition: u128, revision: u128 },
    Deliberation { ledger: u128, proposition: u128, revision: u128, deliberation: u128 },
    Proposition { ledger: u128, proposition: u128 },
    Administration { ledger: u128, capability: Capability },
    Namespace(Seq<char>),
    Actor { ledger: u128, actor: u128 },
}

impl Target {
    pub open spec fn model(&self) -> TargetModel {
        match self {
            Target::Ledger(l) => TargetModel::Ledger(*l),
            Target::Revision { ledger, proposition, revision } => TargetModel::Revision {
                ledger: *ledger,
                proposition: *proposition,
                revision: *revision,
            },
            Target::Deliberation { ledger, proposition, revision, deliberation } =>
                TargetModel::Deliberation {
                ledger: *ledger,
                proposition: *proposition,
                revision: *revision,
                deliberation: *deliberation,
            },
            Target::Proposition { ledger, proposition } => TargetModel::Proposition {
                ledger: *ledger,
                proposition: *proposition,
            },
            Target::Administration { ledger, capability } => TargetModel::Administration {
                ledger: *ledger,
                capability: *capability,
            },
            Target::Namespace(n) => TargetModel::Namespace(n@),
            Target::Actor { ledger, actor } => TargetModel::Actor { ledger: *ledger, actor: *actor },
        }
    }
}

/// Where a grant or delegation applies.
#[derive(Clone, Debug, PartialEq, Eq)]
pub enum Scope {
    Ledger,
    Namespace(String),
    Proposition(u128),
    Revision(u128),
    RevisionIn { revision: u128, proposition: u128 },
    Deliberation(u128),
    DeliberationIn { deliberation: u128, proposition: u128, revision: u128 },
    Actor(u128),
    CapabilityClass(Capability),
}

/// Mathematical form of [`Scope`].
pub enum ScopeModel {
    Ledger,
    Namespace(Seq<char>),
    Proposition(u128),
    Revision(u128),
    RevisionIn { revision: u128, proposition: u128 },
    Deliberation(u128),
    DeliberationIn { deliberation: u128, proposition: u128, revision: u128 },
    Actor(u128),
    CapabilityClass(Capability),
}

impl Scope {
    pub open spec fn model(&self) -> ScopeModel {
        match self {
            Scope::Ledger => ScopeModel::Ledger,
            Scope::Namespace(n) => ScopeModel::Namespace(n@),
            Scope::Proposition(p) => ScopeModel::Proposition(*p),
            Scope::Revision(r) => ScopeModel::Revision(*r),
            Scope::RevisionIn { revision, proposition } => ScopeModel::RevisionIn {
                revision: *revision,
                proposition: *proposition,
            },
            Scope::Deliberation(d) => ScopeModel::Deliberation(*d),
            Scope::DeliberationIn { deliberation, proposition, revision } =>
                ScopeModel::DeliberationIn {
                deliberation: *deliberation,
                proposition: *proposition,
                revision: *revision,
            },
            Scope::Actor(a) => ScopeModel::Actor(*a),
            Scope::CapabilityClass(c) => ScopeModel::CapabilityClass(*c),
        }
    }
}

/// The capability of a capability name.
pub open spec fn capability_named(s: Seq<char>) -> Option<Capability> {
    if s == "propose"@ {
        Some(Capability::Propose)
    } else if s == "deliberate"@ {
        Some(Capability::Deliberate)
    } else if s == "invite"@ {
        Some(Capability::Invite)
    } else if s == "comment"@ {
        Some(Capability::Comment)
    } else if s == "accept"@ {
        Some(Capability::Accept)
    } else if s == "reject"@ {
        Some(Capability::Reject)
    } else if s == "withdraw"@ {
        Some(Capability::Withdraw)
    } else if s == "archive"@ {
        Some(Capability::Archive)
    } else if s == "admin"@ {
        Some(Capability::Admin)
    } else {
        None
    }
}

/// The capability a JSON value names.
pub open spec fn capability_spec(v: Option<JsonValue>) -> Option<Capability> {
    match text_value(v) {
        Some(s) => capability_named(s),
        None => None,
    }
}

/// Reads a capability name; `InvalidLineage` for anything that is not one.
pub fn parse_capability(value: &JsonValue) -> (r: Result<Capability, Error>)
    ensures
        match r {
            Ok(c) => capability_spec(Some(*value)) == Some(c),
            Err(e) => capability_spec(Some(*value)) is None && e == Error::InvalidLineage,
        },
{
    let s = match value.as_text() {
        Some(s) => s,
        None => {
            return Err(Error::InvalidLineage);
        },
    };
    if same_text(s, "propose") {
        Ok(Capability::Propose)
    } else if same_text(s, "deliberate") {
        Ok(Capability::Deliberate)
    } else if same_text(s, "invite") {
        Ok(Capability::Invite)
    } else if same_text(s, "comment") {
        Ok(Capability::Comment)
    } else if same_text(s, "accept") {
        Ok(Capability::Accept)
    } else if same_text(s, "reject") {
        Ok(Capability::Reject)
    } else if same_text(s, "withdraw") {
        Ok(Capability::Withdraw)
    } else if same_text(s, "archive") {
        Ok(Capability::Archive)
    } else if same_text(s, "admin") {
        Ok(Capability::Admin)
    } else {
        Err(Error::InvalidLineage)
    }
}

/// The body object of a stored object in the closure.
pub open spec fn closure_body(closure: Map<u128, JsonValue>, id: u128) -> Option<JsonValue> {
    if closure.contains_key(id) {
        let b = field(closure[id], "body"@);
        if is_object(b) {
            b
        } else {
            None
        }
    } else {
        None
    }
}

/// The scope a grant or delegation carries; `None` when it is malformed.
/// Revision and deliberation scopes are refined by the scoped object when
/// the closure holds it.
pub open spec fn scope_spec(
    value: Option<JsonValue>,
    closure: Option<Map<u128, JsonValue>>,
) -> Option<ScopeModel> {
    if !is_object(value) {
        None
    } else {
        match text_value(field_of(value, "type"@)) {
            None => None,
            Some(t) => if t == "ledger"@ {
                Some(ScopeModel::Ledger)
            } else if t == "namespace"@ {
                match text_value(field_of(value, "name"@)) {
                    Some(n) => Some(ScopeModel::Namespace(n)),
                    None => None,
                }
            } else if t == "proposition"@ {
                match id_value(field_of(value, "id"@)) {
                    Some(p) => Some(ScopeModel::Proposition(p)),
                    None => None,
                }
            } else if t == "revision"@ {
                match id_value(field_of(value, "id"@)) {
                    None => None,
                    Some(r) => match closure {
                        None => Some(ScopeModel::Revision(r)),
                        Some(c) => if !c.contains_key(r) {
                            Some(ScopeModel::Revision(r))
                        } else {
                            let b = field(c[r], "body"@);
                            let p = if is_object(b) {
                                field_of(b, "proposition_id"@)
                            } else {
                                None
                            };
                            match p {
                                None => Some(ScopeModel::Revision(r)),
                                Some(_) => match id_value(p) {
                                    Some(pid) => Some(
                                        ScopeModel::RevisionIn { revision: r, proposition: pid },
                                    ),
                                    None => None,
                                },
                            }
                        },
                    },
                }
            } else if t == "deliberation"@ {
                match id_value(field_of(value, "id"@)) {
                    None => None,
                    Some(d) => match closure {
                        None => Some(ScopeModel::Deliberation(d)),
                        Some(c) => if !c.contains_key(d) || !is_object(field(c[d], "body"@)) {
                            Some(ScopeModel::Deliberation(d))
                        } else {
                            let b = field(c[d], "body"@);
                            match (
                                id_value(field_of(b, "proposition_id"@)),
                                id_value(field_of(b, "revision_id"@)),
                            ) {
                                (Some(p), Some(r)) => Some(
                                    ScopeModel::DeliberationIn {
                                        deliberation: d,
                                        proposition: p,
                                        revision: r,
                                    },
                                ),
                                _ => None,
                            }
                        },
                    },
                }
            } else if t == "actor"@ {
                match id_value(field_of(value, "id"@)) {
                    Some(a) => Some(ScopeModel::Actor(a)),
                    None => None,
                }
            } else if t == "capability_class"@ {
                match capability_spec(field_of(value, "capability"@)) {
                    Some(c) => Some(ScopeModel::CapabilityClass(c)),
                    None => None,
                }
            } else {
                None
            },
        }
    }
}

pub open spec fn opt_ref(v: Option<&JsonValue>) -> Option<JsonValue> {
    match v {
        Some(x) => Some(*x),
        None => None,
    }
}

/// Reads the scope of a grant or delegation; `InvalidLineage` when it is
/// malformed.
pub fn parse_scope(
    value: Option<&JsonValue>,
    closure: Option<&HashMap<u128, JsonValue>>,
) -> (r: Result<Scope, Error>)
    ensures
        match r {
            Ok(s) => scope_spec(opt_ref(value), match closure {
                Some(c) => Some(c@),
                None => None,
            }) == Some(s.model()),
            Err(e) => scope_spec(opt_ref(value), match closure {
                Some(c) => Some(c@),
                None => None,
            }) is None && e == Error::InvalidLineage,
        },
{
    let scope = match value {
        Some(v) => {
            if !v.is_object() {
                return Err(Error::InvalidLineage);
            }
            v
        },
        None => {
            return Err(Error::InvalidLineage);
        },
    };
    let t = match get_of(Some(scope), "type") {
        Some(x) => match x.as_text() {
            Some(t) => t,
            None => {
                return Err(Error::InvalidLineage);
            },
        },
        None => {
            return Err(Error::InvalidLineage);
        },
    };
    if same_text(t, "ledger") {
        Ok(Scope::Ledger)
    } else if same_text(t, "namespace") {
        match get_of(Some(scope), "name") {
            Some(x) => match x.as_text() {
                Some(n) => Ok(Scope::Namespace(n.to_owned())),
                None => Err(Error::InvalidLineage),
            },
            None => Err(Error::InvalidLineage),
        }
    } else if same_text(t, "proposition") {
        match parse_object_id_text(get_of(Some(scope), "id")) {
            Some(p) => Ok(Scope::Proposition(p)),
            None => Err(Error::InvalidLineage),
        }
    } else if same_text(t, "revision") {
        let revision = match parse_object_id_text(get_of(Some(scope), "id")) {
            Some(r) => r,
            None => {
                return Err(Error::InvalidLineage);
            },
        };
        let c = match closure {
            Some(c) => c,
            None => {
                return Ok(Scope::Revision(revision));
            },
        };
        let stored = match c.get(&revision) {
            Some(v) => v,
            None => {
                return Ok(Scope::Revision(revision));
            },
        };
        let body = stored.get("body");
        let p = match body {
            Some(b) => if b.is_object() {
                b.get("proposition_id")
            } else {
                None
            },
            None => None,
        };
        match p {
            None => Ok(Scope::Revision(revision)),
            Some(_) => match parse_object_id_text(p) {
                Some(proposition) => Ok(Scope::RevisionIn { revision, proposition }),
                None => Err(Error::InvalidLineage),
            },
        }
    } else if same_text(t, "deliberation") {
        let deliberation = match parse_object_id_text(get_of(Some(scope), "id")) {
            Some(d) => d,
            None => {
                return Err(Error::InvalidLineage);
            },
        };
        let c = match closure {
            Some(c) => c,
            None => {
                return Ok(Scope::Deliberation(deliberation));
            },
        };
        let stored = match c.get(&deliberation) {
            Some(v) => v,
            None => {
                return Ok(Scope::Deliberation(deliberation));
            },
        };
        let body = match stored.get("body") {
            Some(b) => if b.is_object() {
                b
            } else {
                return Ok(Scope::Deliberation(deliberation));
            },
            None => {
                return Ok(Scope::Deliberation(deliberation));
            },
        };
        let proposition = parse_object_id_text(body.get("proposition_id"));
        let revision = parse_object_id_text(body.get("revision_id"));
        match (proposition, revision) {
            (Some(proposition), Some(revision)) => Ok(
                Scope::DeliberationIn { deliberation, proposition, revision },
            ),
            _ => Err(Error::InvalidLineage),
        }
    } else if same_text(t, "actor") {
        match parse_object_id_text(get_of(Some(scope), "id")) {
            Some(a) => Ok(Scope::Actor(a)),
            None => Err(Error::InvalidLineage),
        }
    } else if same_text(t, "capability_class") {
        match get_of(Some(scope), "capability") {
            Some(c) => match parse_capability(c) {
                Ok(c) => Ok(Scope::CapabilityClass(c)),
                Err(e) => Err(e),
            },
            None => Err(Error::InvalidLineage),
        }
    } else {
        Err(Error::InvalidLineage)
    }
}

/// The deliberation target of deliberation `d`, read from the closure.
pub open spec fn deliberation_target(
    closure: Map<u128, JsonValue>,
    ledger: u128,
    d: u128,
) -> Option<TargetModel> {
    let b = closure_body(closure, d);
    if b is None {
        None
    } else {
        match (id_value(field_of(b, "proposition_id"@)), id_value(field_of(b, "revision_id"@))) {
            (Some(p), Some(r)) => Some(
                TargetModel::Deliberation { ledger, proposition: p, revision: r, deliberation: d },
            ),
            _ => None,
        }
    }
}

/// The target of invitation `i`: its proposition, or else its
/// deliberation.
pub open spec fn invitation_target(
    closure: Map<u128, JsonValue>,
    ledger: u128,
    i: u128,
) -> Option<TargetModel> {
    let b = closure_body(closure, i);
    if b is None {
        None
    } else if field_of(b, "proposition_id"@) is Some {
        match id_value(field_of(b, "proposition_id"@)) {
            Some(p) => Some(TargetModel::Proposition { ledger, proposition: p }),
            None => None,
        }
    } else {
        match id_value(field_of(b, "deliberation_id"@)) {
            Some(d) => deliberation_target(closure, ledger, d),
            None => None,
        }
    }
}

/// An action descriptor.
pub type ActionModel = Option<(Capability, TargetModel, bool)>;

/// The descriptor of an object of type `t`, or `None` when its lineage
/// cannot establish it (the outer `Option`).
pub open spec fn action_for_type(
    t: Seq<char>,
    object: JsonValue,
    body: Option<JsonValue>,
    closure: Map<u128, JsonValue>,
    ledger: u128,
) -> Option<ActionModel> {
    let proposition = id_value(field_of(body, "proposition_id"@));
    let revision = id_value(field_of(body, "revision_id"@));
    let deliberation = id_value(field_of(body, "deliberation_id"@));
    if t == "proposition"@ {
        Some(Some((Capability::Propose, TargetModel::Ledger(ledger), false)))
    } else if t == "revision"@ || t == "deliberation"@ {
        match (proposition, revision) {
            (Some(p), Some(r)) => Some(
                Some(
                    (
                        if t == "revision"@ {
                            Capability::Propose
                        } else {
                            Capability::Deliberate
                        },
                        TargetModel::Revision { ledger, proposition: p, revision: r },
                        false,
                    ),
                ),
            ),
            _ => None,
        }
    } else if t == "decision"@ {
        let value = text_value(field_of(body, "value"@));
        let capability = if value == Some("accepted"@) {
            Some(Capability::Accept)
        } else if value == Some("rejected"@) {
            Some(Capability::Reject)
        } else {
            None
        };
        match (deliberation, capability) {
            (Some(d), Some(c)) => match deliberation_target(closure, ledger, d) {
                Some(target) => Some(Some((c, target, false))),
                None => None,
            },
            _ => None,
        }
    } else if t == "deliberation_comment"@ {
        match deliberation {
            Some(d) => match deliberation_target(closure, ledger, d) {
                Some(target) => Some(Some((Capability::Comment, target, false))),
                None => None,
            },
            None => None,
        }
    } else if t == "standing_participant_change"@ {
        match proposition {
            Some(p) => Some(
                Some(
                    (
                        Capability::Deliberate,
                        TargetModel::Proposition { ledger, proposition: p },
                        false,
                    ),
                ),
            ),
            None => None,
        }
    } else if t == "deliberation_participant_change"@ {
        let participant = id_value(field_of(body, "participant_actor_id"@));
        let operation = text_value(field_of(body, "operation"@));
        let unauthorized_ref = is_null(field_of(body, "authorization_ref"@));
        let actor = id_value(field(object, "actor_id"@));
        if participant is None || operation is None || (unauthorized_ref && actor is None) {
            None
        } else if unauthorized_ref && actor == participant && (operation == Some("join"@)
            || operation == Some("leave"@)) {
            Some(None)
        } else {
            match deliberation {
                Some(d) => match deliberation_target(closure, ledger, d) {
                    Some(target) => Some(Some((Capability::Deliberate, target, false))),
                    None => None,
                },
                None => None,
            }
        }
    } else if t == "participant_invitation"@ {
        if field_of(body, "proposition_id"@) is Some {
            match proposition {
                Some(p) => Some(
                    Some(
                        (
                            Capability::Invite,
                            TargetModel::Proposition { ledger, proposition: p },
                            false,
                        ),
                    ),
                ),
                None => None,
            }
        } else {
            match deliberation {
                Some(d) => match deliberation_target(closure, ledger, d) {
                    Some(target) => Some(Some((Capability::Invite, target, false))),
                    None => None,
                },
                None => None,
            }
        }
    } else if t == "invitation_lifecycle"@ {
        let operation = text_value(field_of(body, "operation"@));
        if operation is None {
            None
        } else if operation == Some("decline"@) {
            Some(None)
        } else {
            match id_value(field_of(body, "invitation_id"@)) {
                Some(i) => match invitation_target(closure, ledger, i) {
                    Some(target) => Some(Some((Capability::Invite, target, false))),
                    None => None,
                },
                None => None,
            }
        }
    } else if t == "authorization_grant"@ || t == "authorization_revocation"@ || t
        == "delegation"@ || t == "delegation_revocation"@ {
        Some(
            Some(
                (
                    Capability::Admin,
                    TargetModel::Administration { ledger, capability: Capability::Admin },
                    true,
                ),
            ),
        )
    } else if t == "namespace_assertion"@ {
        match text_value(field_of(body, "namespace"@)) {
            Some(n) => Some(Some((Capability::Admin, TargetModel::Namespace(n), true))),
            None => None,
        }
    } else if t == "key_lifecycle"@ || t == "actor_lifecycle"@ {
        let affected = id_value(field_of(body, "affected_actor_id"@));
        let actor = id_value(field(object, "actor_id"@));
        match (affected, actor) {
            (Some(a), Some(x)) => if x == a && is_null(field_of(body, "authorization_ref"@)) {
                Some(None)
            } else {
                Some(Some((Capability::Admin, TargetModel::Actor { ledger, actor: a }, true)))
            },
            _ => None,
        }
    } else if t == "proposition_lifecycle"@ {
        let operation = text_value(field_of(body, "operation"@));
        let capability = if operation == Some("withdraw"@) || operation == Some("restore"@) {
            Some(Capability::Withdraw)
        } else if operation == Some("archive"@) || operation == Some("unarchive"@) {
            Some(Capability::Archive)
        } else {
            None
        };
        match (capability, proposition) {
            (Some(c), Some(p)) => Some(
                Some((c, TargetModel::Proposition { ledger, proposition: p }, false)),
            ),
            _ => None,
        }
    } else {
        Some(None)
    }
}

/// The action descriptor of a protocol object: `Metadata` when it has no
/// body object, `InvalidLineage` when its id or the fields its type needs
/// are missing or malformed, `Ok(None)` for objects that need no
/// authority.
pub open spec fn action_spec(
    t: Seq<char>,
    object: JsonValue,
    closure: Map<u128, JsonValue>,
    ledger: u128,
) -> Result<ActionModel, Error> {
    let body = field(object, "body"@);
    if !is_object(body) {
        Err(Error::Metadata)
    } else if id_value(field(object, "id"@)) is None {
        Err(Error::InvalidLineage)
    } else {
        match action_for_type(t, object, body, closure, ledger) {
            Some(a) => Ok(a),
            None => Err(Error::InvalidLineage),
        }
    }
}

/// Mathematical form of an action descriptor result.
pub open spec fn descriptor_model(d: Option<(Capability, Target, bool)>) -> ActionModel {
    match d {
        Some((c, t, a)) => Some((c, t.model(), a)),
        None => None,
    }
}

fn body_text<'a>(body: &'a JsonValue, key: &str) -> (r: Option<&'a str>)
    ensures
        match r {
            Some(s) => text_value(field(*body, key@)) == Some(s@),
            None => text_value(field(*body, key@)) is None,
        },
{
    match body.get(key) {
        Some(v) => v.as_text(),
        None => None,
    }
}

fn body_id(body: &JsonValue, key: &str) -> (r: Option<u128>)
    ensures
        r == id_value(field(*body, key@)),
{
    parse_object_id_text(body.get(key))
}

fn closure_body_of(closure: &HashMap<u128, JsonValue>, id: u128) -> (r: Option<&JsonValue>)
    ensures
        match r {
            Some(b) => closure_body(closure@, id) == Some(*b),
            None => closure_body(closure@, id) is None,
        },
{
    match closure.get(&id) {
        Some(stored) => match stored.get("body") {
            Some(b) => if b.is_object() {
                Some(b)
            } else {
                None
            },
            None => None,
        },
        None => None,
    }
}

fn target_for_deliberation(closure: &HashMap<u128, JsonValue>, ledger: u128, d: u128) -> (r:
    Option<Target>)
    ensures
        match r {
            Some(t) => deliberation_target(closure@, ledger, d) == Some(t.model()),
            None => deliberation_target(closure@, ledger, d) is None,
        },
{
    let body = match closure_body_of(closure, d) {
        Some(b) => b,
        None => {
            return None;
        },
    };
    match (body_id(body, "proposition_id"), body_id(body, "revision_id")) {
        (Some(proposition), Some(revision)) => Some(
            Target::Deliberation { ledger, proposition, revision, deliberation: d },
        ),
        _ => None,
    }
}

fn target_for_invitation(closure: &HashMap<u128, JsonValue>, ledger: u128, i: u128) -> (r:
    Option<Target>)
    ensures
        match r {
            Some(t) => invitation_target(closure@, ledger, i) == Some(t.model()),
            None => invitation_target(closure@, ledger, i) is None,
        },
{
    let body = match closure_body_of(closure, i) {
        Some(b) => b,
        None => {
            return None;
        },
    };
    if body.get("proposition_id").is_some() {
        match body_id(body, "proposition_id") {
            Some(proposition) => Some(Target::Proposition { ledger, proposition }),
            None => None,
        }
    } else {
        match body_id(body, "deliberation_id") {
            Some(d) => target_for_deliberation(closure, ledger, d),
            None => None,
        }
    }
}

fn with_deliberation_target(
    closure: &HashMap<u128, JsonValue>,
    ledger: u128,
    deliberation: Option<u128>,
    capability: Capability,
) -> (r: Option<Option<(Capability, Target, bool)>>)
    ensures
        match r {
            Some(d) => (match deliberation {
                Some(x) => match deliberation_target(closure@, ledger, x) {
                    Some(target) => Some(Some((capability, target, false))),
                    None => None,
                },
                None => None,
            }) == Some(descriptor_model(d)),
            None => (match deliberation {
                Some(x) => match deliberation_target(closure@, ledger, x) {
                    Some(target) => Some(Some((capability, target, false))),
                    None => None,
                },
                None => None,
            }) is None,
        },
{
    match deliberation {
        Some(d) => match target_for_deliberation(closure, ledger, d) {
            Some(target) => Some(Some((capability, target, false))),
            None => None,
        },
        None => None,
    }
}

fn action_by_type(
    object_type: &str,
    object: &JsonValue,
    body: &JsonValue,
    closure: &HashMap<u128, JsonValue>,
    ledger: u128,
) -> (r: Option<Option<(Capability, Target, bool)>>)
    ensures
        match r {
            Some(d) => action_for_type(object_type@, *object, Some(*body), closure@, ledger) == Some(
                descriptor_model(d),
            ),
            None => action_for_type(object_type@, *object, Some(*body), closure@, ledger) is None,
        },
{
    let t = object_type;
    let proposition = body_id(body, "proposition_id");
    let revision = body_id(body, "revision_id");
    let deliberation = body_id(body, "deliberation_id");
    proof {
        reveal_strlit("accepted");
        reveal_strlit("rejected");
        reveal_strlit("join");
        reveal_strlit("leave");
        reveal_strlit("decline");
        reveal_strlit("withdraw");
        reveal_strlit("restore");
        reveal_strlit("archive");
        reveal_strlit("unarchive");
    }
    if same_text(t, "proposition") {
        Some(Some((Capability::Propose, Target::Ledger(ledger), false)))
    } else if same_text(t, "revision") || same_text(t, "deliberation") {
        let capability = if same_text(t, "revision") {
            Capability::Propose
        } else {
            Capability::Deliberate
        };
        match (proposition, revision) {
            (Some(p), Some(r)) => Some(
                Some((capability, Target::Revision { ledger, proposition: p, revision: r }, false)),
            ),
            _ => None,
        }
    } else if same_text(t, "decision") {
        let capability = match body_text(body, "value") {
            Some(v) => if same_text(v, "accepted") {
                Some(Capability::Accept)
            } else if same_text(v, "rejected") {
                Some(Capability::Reject)
            } else {
                None
            },
            None => None,
        };
        match capability {
            Some(c) => with_deliberation_target(closure, ledger, deliberation, c),
            None => None,
        }
    } else if same_text(t, "deliberation_comment") {
        with_deliberation_target(closure, ledger, deliberation, Capability::Comment)
    } else if same_text(t, "standing_participant_change") {
        match proposition {
            Some(p) => Some(
                Some(
                    (
                        Capability::Deliberate,
                        Target::Proposition { ledger, proposition: p },
                        false,
                    ),
                ),
            ),
            None => None,
        }
    } else if same_text(t, "deliberation_participant_change") {
        let participant = body_id(body, "participant_actor_id");
        let operation = body_text(body, "operation");
        let unauthorized_ref = match body.get("authorization_ref") {
            Some(v) => v.is_null(),
            None => false,
        };
        let actor = parse_object_id_text(object.get("actor_id"));
        if participant.is_none() || operation.is_none() || (unauthorized_ref && actor.is_none()) {
            return None;
        }
        let op = operation.unwrap();
        if unauthorized_ref && actor == participant && (same_text(op, "join") || same_text(
            op,
            "leave",
        )) {
            Some(None)
        } else {
            with_deliberation_target(closure, ledger, deliberation, Capability::Deliberate)
        }
    } else if same_text(t, "participant_invitation") {
        if body.get("proposition_id").is_some() {
            match proposition {
                Some(p) => Some(
                    Some(
                        (Capability::Invite, Target::Proposition { ledger, proposition: p }, false),
                    ),
                ),
                None => None,
            }
        } else {
            with_deliberation_target(closure, ledger, deliberation, Capability::Invite)
        }
    } else if same_text(t, "invitation_lifecycle") {
        let operation = match body_text(body, "operation") {
            Some(op) => op,
            None => {
                return None;
            },
        };
        if same_text(operation, "decline") {
            Some(None)
        } else {
            match body_id(body, "invitation_id") {
                Some(i) => match target_for_invitation(closure, ledger, i) {
                    Some(target) => Some(Some((Capability::Invite, target, false))),
                    None => None,
                },
                None => None,
            }
        }
    } else if same_text(t, "authorization_grant") || same_text(t, "authorization_revocation")
        || same_text(t, "delegation") || same_text(t, "delegation_revocation") {
        Some(
            Some(
                (
                    Capability::Admin,
                    Target::Administration { ledger, capability: Capability::Admin },
                    true,
                ),
            ),
        )
    } else if same_text(t, "namespace_assertion") {
        match body_text(body, "namespace") {
            Some(n) => Some(Some((Capability::Admin, Target::Namespace(n.to_owned()), true))),
            None => None,
        }
    } else if same_text(t, "key_lifecycle") || same_text(t, "actor_lifecycle") {
        let affected = body_id(body, "affected_actor_id");
        let actor = parse_object_id_text(object.get("actor_id"));
        match (affected, actor) {
            (Some(a), Some(x)) => {
                let unauthorized_ref = match body.get("authorization_ref") {
                    Some(v) => v.is_null(),
                    None => false,
                };
                if x == a && unauthorized_ref {
                    Some(None)
                } else {
                    Some(Some((Capability::Admin, Target::Actor { ledger, actor: a }, true)))
                }
            },
            _ => None,
        }
    } else if same_text(t, "proposition_lifecycle") {
        let capability = match body_text(body, "operation") {
            Some(op) => if same_text(op, "withdraw") || same_text(op, "restore") {
                Some(Capability::Withdraw)
            } else if same_text(op, "archive") || same_text(op, "unarchive") {
                Some(Capability::Archive)
            } else {
                None
            },
            None => None,
        };
        match (capability, proposition) {
            (Some(c), Some(p)) => Some(
                Some((c, Target::Proposition { ledger, proposition: p }, false)),
            ),
            _ => None,
        }
    } else {
        Some(None)
    }
}

/// What a protocol object asks authority for: the capability, the target
/// and whether the act is administrative; `Ok(None)` for objects that need
/// no authority. `object` is the object's JSON; `closure` maps identifiers
/// of the objects in its causal closure to their JSON; `ledger` is the
/// object's ledger.
pub fn action_descriptor(
    object_type: &str,
    object: &JsonValue,
    closure: &HashMap<u128, JsonValue>,
    ledger: u128,
) -> (r: Result<Option<(Capability, Target, bool)>, Error>)
    ensures
        match r {
            Ok(d) => action_spec(object_type@, *object, closure@, ledger) == Ok::<
                ActionModel,
                Error,
            >(descriptor_model(d)),
            Err(e) => action_spec(object_type@, *object, closure@, ledger) == Err::<
                ActionModel,
                Error,
            >(e),
        },
{
    let body = match object.get("body") {
        Some(b) => if b.is_object() {
            b
        } else {
            return Err(Error::Metadata);
        },
        None => {
            return Err(Error::Metadata);
        },
    };
    if parse_object_id_text(object.get("id")).is_none() {
        return Err(Error::InvalidLineage);
    }
    match action_by_type(object_type, object, body, closure, ledger) {
        Some(d) => Ok(d),
        None => Err(Error::InvalidLineage),
    }
}

/// Some item of the array member `capabilities` of `body` is the string
/// `"deliberate"`.
pub open spec fn grants_deliberate(body: JsonValue) -> bool {
    match field(body, "capabilities"@) {
        Some(JsonValue::Array(items)) => exists|i: int|
            0 <= i < items@.len() && #[trigger] text_value(Some(items@[i])) == Some("deliberate"@),
        _ => false,
    }
}

/// The scope of an authority covers the deliberation `deliberation` on
/// `revision` of `proposition`: a ledger scope, or a scope of one of them
/// that names it.
pub open spec fn scope_covers(scope: JsonValue, proposition: u128, revision: u128, deliberation: u128) -> bool {
    let kind = text_value(field(scope, "type"@));
    let id = id_value(field(scope, "id"@));
    ||| kind == Some("ledger"@)
    ||| kind == Some("proposition"@) && id == Some(proposition)
    ||| kind == Some("revision"@) && id == Some(revision)
    ||| kind == Some("deliberation"@) && id == Some(deliberation)
}

/// What the selection authority of a roster allows: the authority object
/// must be a grant or a delegation whose receiving actor is the authority's
/// actor and which confers `deliberate`, with a scope that covers the
/// deliberation.
pub open spec fn selection_authority_spec(
    authority_actor: u128,
    authority_type: Seq<char>,
    body: JsonValue,
    proposition: u128,
    revision: u128,
    deliberation: u128,
) -> Result<(), Error> {
    let grant = authority_type == "authorization_grant"@;
    let receiving = if grant {
        id_value(field(body, "receiving_actor_id"@))
    } else {
        id_value(field(body, "delegatee_actor_id"@))
    };
    let confers = if grant {
        grants_deliberate(body)
    } else {
        text_value(field(body, "capability"@)) == Some("deliberate"@)
    };
    if !grant && authority_type != "delegation"@ {
        Err(Error::InvalidLineage)
    } else if receiving is None {
        Err(Error::InvalidLineage)
    } else if receiving != Some(authority_actor) || !confers {
        Err(Error::Unauthorized)
    } else if !is_object(field(body, "scope"@)) {
        Err(Error::InvalidLineage)
    } else if !scope_covers(field(body, "scope"@)->0, proposition, revision, deliberation) {
        Err(Error::Unauthorized)
    } else {
        Ok(())
    }
}

/// Checks the authority that selected a reconciliation roster, given the
/// type and body of the authority object.
pub fn selection_authority_check(
    authority_actor: u128,
    authority_type: &str,
    body: &JsonValue,
    proposition: u128,
    revision: u128,
    deliberation: u128,
) -> (r: Result<(), Error>)
    ensures
        r == selection_authority_spec(
            authority_actor,
            authority_type@,
            *body,
            proposition,
            revision,
            deliberation,
        ),
{
    proof {
        reveal_strlit("authorization_grant");
        reveal_strlit("delegation");
        assert("authorization_grant"@.len() != "delegation"@.len());
    }
    let grant = same_text(authority_type, "authorization_grant");
    if !grant && !same_text(authority_type, "delegation") {
        return Err(Error::InvalidLineage);
    }
    let receiving = if grant {
        body_id(body, "receiving_actor_id")
    } else {
        body_id(body, "delegatee_actor_id")
    };
    let confers = if grant {
        match body.get("capabilities") {
            Some(JsonValue::Array(items)) => {
                let mut found = false;
                let mut i: usize = 0;
                while i < items.len()
                    invariant
                        i <= items@.len(),
                        found == exists|k: int|
                            0 <= k < i && #[trigger] text_value(Some(items@[k])) == Some("deliberate"@),
                    decreases items@.len() - i,
                {
                    let is_deliberate = match &items[i] {
                        JsonValue::Text(t) => same_text(t.as_str(), "deliberate"),
                        _ => false,
                    };
                    assert(is_deliberate == (text_value(Some(items@[i as int])) == Some("deliberate"@)));
                    found = found || is_deliberate;
                    i = i + 1;
                }
                found
            },
            _ => false,
        }
    } else {
        match body_text(body, "capability") {
            Some(t) => same_text(t, "deliberate"),
            None => false,
        }
    };
    let receiving = match receiving {
        Some(a) => a,
        None => return Err(Error::InvalidLineage),
    };
    if receiving != authority_actor || !confers {
        return Err(Error::Unauthorized);
    }
    let scope = match body.get("scope") {
        Some(s) => s,
        None => return Err(Error::InvalidLineage),
    };
    if !scope.is_object() {
        return Err(Error::InvalidLineage);
    }
    proof {
        reveal_strlit("ledger");
        reveal_strlit("proposition");
        reveal_strlit("revision");
        reveal_strlit("deliberation");
        assert("ledger"@.len() == 6 && "proposition"@.len() == 11);
        assert("revision"@.len() == 8 && "deliberation"@.len() == 12);
    }
    let id = body_id(scope, "id");
    let covered = match body_text(scope, "type") {
        Some(kind) => if same_text(kind, "ledger") {
            true
        } else if same_text(kind, "proposition") {
            id == Some(proposition)
        } else if same_text(kind, "revision") {
            id == Some(revision)
        } else if same_text(kind, "deliberation") {
            id == Some(deliberation)
        } else {
            false
        },
        None => false,
    };
    if !covered {
        return Err(Error::Unauthorized);
    }
    Ok(())
}

/// The operation a proposition lifecycle object states.
pub open spec fn lifecycle_operation(object: JsonValue) -> Option<Seq<char>> {
    text_value(field_of(field(object, "body"@), "operation"@))
}

/// Law: the capability each kind of object asks for, stated as a table
/// over every object the descriptor accepts: proposals and revisions need
/// `propose`; deliberations and participant changes `deliberate`;
/// decisions `accept` or `reject` as they decide; comments `comment`;
/// invitations `invite`; grants, delegations, their revocations, namespace
/// assertions and key or actor lifecycle steps `admin`, administratively;
/// withdrawing or restoring a proposition `withdraw`, archiving or
/// unarchiving it `archive`. Other object types need no authority.
#[verifier::rlimit(100)]
pub proof fn law_capability_table(
    t: Seq<char>,
    object: JsonValue,
    closure: Map<u128, JsonValue>,
    ledger: u128,
    c: Capability,
    target: TargetModel,
    admin: bool,
)
    ensures
        action_spec(t, object, closure, ledger) == Ok::<ActionModel, Error>(Some((c, target, admin))) ==> {
            &&& (t == "proposition"@ || t == "revision"@) ==> c == Capability::Propose && !admin
            &&& (t == "deliberation"@ || t == "standing_participant_change"@ || t
                == "deliberation_participant_change"@) ==> c == Capability::Deliberate && !admin
            &&& t == "decision"@ ==> !admin && (text_value(field_of(field(object, "body"@), "value"@))
                == Some("accepted"@) ==> c == Capability::Accept) && (text_value(
                field_of(field(object, "body"@), "value"@),
            ) == Some("rejected"@) ==> c == Capability::Reject) && (c == Capability::Accept || c
                == Capability::Reject)
            &&& t == "deliberation_comment"@ ==> c == Capability::Comment && !admin
            &&& (t == "participant_invitation"@ || t == "invitation_lifecycle"@) ==> c
                == Capability::Invite && !admin
            &&& (t == "authorization_grant"@ || t == "authorization_revocation"@ || t == "delegation"@
                || t == "delegation_revocation"@ || t == "namespace_assertion"@ || t == "key_lifecycle"@
                || t == "actor_lifecycle"@) ==> c == Capability::Admin && admin
            &&& t == "proposition_lifecycle"@ ==> !admin && (lifecycle_operation(object) == Some(
                "withdraw"@,
            ) || lifecycle_operation(object) == Some("restore"@) ==> c == Capability::Withdraw) && (
            lifecycle_operation(object) == Some("archive"@) || lifecycle_operation(object) == Some(
                "unarchive"@,
            ) ==> c == Capability::Archive) && (c == Capability::Withdraw || c == Capability::Archive)
        },
        is_object(field(object, "body"@)) && id_value(field(object, "id"@)) is Some && !(t == "proposition"@ || t == "revision"@ || t == "deliberation"@ || t == "decision"@ || t == "deliberation_comment"@ || t == "standing_participant_change"@ || t == "deliberation_participant_change"@ || t == "participant_invitation"@ || t == "invitation_lifecycle"@ || t == "authorization_grant"@ || t == "authorization_revocation"@ || t == "delegation"@ || t == "delegation_revocation"@ || t == "namespace_assertion"@ || t == "key_lifecycle"@ || t == "actor_lifecycle"@ || t == "proposition_lifecycle"@)
            ==> action_spec(t, object, closure, ledger) == Ok::<ActionModel, Error>(None),
{
    reveal_strlit("accepted");
    reveal_strlit("actor_lifecycle");
    reveal_strlit("archive");
    reveal_strlit("authorization_grant");
    reveal_strlit("authorization_revocation");
    reveal_strlit("decision");
    reveal_strlit("decline");
    reveal_strlit("delegation");
    reveal_strlit("delegation_revocation");
    reveal_strlit("deliberation");
    reveal_strlit("deliberation_comment");
    reveal_strlit("deliberation_participant_change");
    reveal_strlit("invitation_lifecycle");
    reveal_strlit("join");
    reveal_strlit("key_lifecycle");
    reveal_strlit("leave");
    reveal_strlit("namespace_assertion");
    reveal_strlit("participant_invitation");
    reveal_strlit("proposition");
    reveal_strlit("proposition_lifecycle");
    reveal_strlit("rejected");
    reveal_strlit("restore");
    reveal_strlit("revision");
    reveal_strlit("standing_participant_change");
    reveal_strlit("unarchive");
    reveal_strlit("withdraw");
    assert("accepted"@.len() == 8 && "accepted"@[0] == 'a' && "accepted"@[1] == 'c' && "accepted"@[2] == 'c' && "accepted"@[3] == 'e');
    assert("actor_lifecycle"@.len() == 15 && "actor_lifecycle"@[0] == 'a' && "actor_lifecycle"@[1] == 'c' && "actor_lifecycle"@[2] == 't' && "actor_lifecycle"@[3] == 'o');
    assert("archive"@.len() == 7 && "archive"@[0] == 'a' && "archive"@[1] == 'r' && "archive"@[2] == 'c' && "archive"@[3] == 'h');
    assert("authorization_grant"@.len() == 19 && "authorization_grant"@[0] == 'a' && "authorization_grant"@[1] == 'u' && "authorization_grant"@[2] == 't' && "authorization_grant"@[3] == 'h');
    assert("authorization_revocation"@.len() == 24 && "authorization_revocation"@[0] == 'a' && "authorization_revocation"@[1] == 'u' && "authorization_revocation"@[2] == 't' && "authorization_revocation"@[3] == 'h');
    assert("decision"@.len() == 8 && "decision"@[0] == 'd' && "decision"@[1] == 'e' && "decision"@[2] == 'c' && "decision"@[3] == 'i');
    assert("decline"@.len() == 7 && "decline"@[0] == 'd' && "decline"@[1] == 'e' && "decline"@[2] == 'c' && "decline"@[3] == 'l');
    assert("delegation"@.len() == 10 && "delegation"@[0] == 'd' && "delegation"@[1] == 'e' && "delegation"@[2] == 'l' && "delegation"@[3] == 'e');
    assert("delegation_revocation"@.len() == 21 && "delegation_revocation"@[0] == 'd' && "delegation_revocation"@[1] == 'e' && "delegation_revocation"@[2] == 'l' && "delegation_revocation"@[3] == 'e');
    assert("deliberation"@.len() == 12 && "deliberation"@[0] == 'd' && "deliberation"@[1] == 'e' && "deliberation"@[2] == 'l' && "deliberation"@[3] == 'i');
    assert("deliberation_comment"@.len() == 20 && "deliberation_comment"@[0] == 'd' && "deliberation_comment"@[1] == 'e' && "deliberation_comment"@[2] == 'l' && "deliberation_comment"@[3] == 'i');
    assert("deliberation_participant_change"@.len() == 31 && "deliberation_participant_change"@[0] == 'd' && "deliberation_participant_change"@[1] == 'e' && "deliberation_participant_change"@[2] == 'l' && "deliberation_participant_change"@[3] == 'i');
    assert("invitation_lifecycle"@.len() == 20 && "invitation_lifecycle"@[0] == 'i' && "invitation_lifecycle"@[1] == 'n' && "invitation_lifecycle"@[2] == 'v' && "invitation_lifecycle"@[3] == 'i');
    assert("join"@.len() == 4 && "join"@[0] == 'j' && "join"@[1] == 'o' && "join"@[2] == 'i' && "join"@[3] == 'n');
    assert("key_lifecycle"@.len() == 13 && "key_lifecycle"@[0] == 'k' && "key_lifecycle"@[1] == 'e' && "key_lifecycle"@[2] == 'y' && "key_lifecycle"@[3] == '_');
    assert("leave"@.len() == 5 && "leave"@[0] == 'l' && "leave"@[1] == 'e' && "leave"@[2] == 'a' && "leave"@[3] == 'v');
    assert("namespace_assertion"@.len() == 19 && "namespace_assertion"@[0] == 'n' && "namespace_assertion"@[1] == 'a' && "namespace_assertion"@[2] == 'm' && "namespace_assertion"@[3] == 'e');
    assert("participant_invitation"@.len() == 22 && "participant_invitation"@[0] == 'p' && "participant_invitation"@[1] == 'a' && "participant_invitation"@[2] == 'r' && "participant_invitation"@[3] == 't');
    assert("proposition"@.len() == 11 && "proposition"@[0] == 'p' && "proposition"@[1] == 'r' && "proposition"@[2] == 'o' && "proposition"@[3] == 'p');
    assert("proposition_lifecycle"@.len() == 21 && "proposition_lifecycle"@[0] == 'p' && "proposition_lifecycle"@[1] == 'r' && "proposition_lifecycle"@[2] == 'o' && "proposition_lifecycle"@[3] == 'p');
    assert("rejected"@.len() == 8 && "rejected"@[0] == 'r' && "rejected"@[1] == 'e' && "rejected"@[2] == 'j' && "rejected"@[3] == 'e');
    assert("restore"@.len() == 7 && "restore"@[0] == 'r' && "restore"@[1] == 'e' && "restore"@[2] == 's' && "restore"@[3] == 't');
    assert("revision"@.len() == 8 && "revision"@[0] == 'r' && "revision"@[1] == 'e' && "revision"@[2] == 'v' && "revision"@[3] == 'i');
    assert("standing_participant_change"@.len() == 27 && "standing_participant_change"@[0] == 's' && "standing_participant_change"@[1] == 't' && "standing_participant_change"@[2] == 'a' && "standing_participant_change"@[3] == 'n');
    assert("unarchive"@.len() == 9 && "unarchive"@[0] == 'u' && "unarchive"@[1] == 'n' && "unarchive"@[2] == 'a' && "unarchive"@[3] == 'r');
    assert("withdraw"@.len() == 8 && "withdraw"@[0] == 'w' && "withdraw"@[1] == 'i' && "withdraw"@[2] == 't' && "withdraw"@[3] == 'h');
}

/// Law: withdrawing or restoring a proposition asks for the `withdraw`
/// capability on that proposition, and archiving or unarchiving it for the
/// `archive` capability, never administratively.
pub proof fn law_proposition_lifecycle_capability(
    object: JsonValue,
    closure: Map<u128, JsonValue>,
    ledger: u128,
    proposition: u128,
)
    requires
        is_object(field(object, "body"@)),
        id_value(field(object, "id"@)) is Some,
        id_value(field_of(field(object, "body"@), "proposition_id"@)) == Some(proposition),
    ensures
        (lifecycle_operation(object) == Some("withdraw"@) || lifecycle_operation(object) == Some(
            "restore"@,
        )) ==> action_spec("proposition_lifecycle"@, object, closure, ledger) == Ok::<ActionModel, Error>(
            Some((Capability::Withdraw, TargetModel::Proposition { ledger, proposition }, false)),
        ),
        (lifecycle_operation(object) == Some("archive"@) || lifecycle_operation(object) == Some(
            "unarchive"@,
        )) ==> action_spec("proposition_lifecycle"@, object, closure, ledger) == Ok::<ActionModel, Error>(
            Some((Capability::Archive, TargetModel::Proposition { ledger, proposition }, false)),
        ),
{
    reveal_strlit("accepted");
    reveal_strlit("actor_lifecycle");
    reveal_strlit("archive");
    reveal_strlit("authorization_grant");
    reveal_strlit("authorization_revocation");
    reveal_strlit("decision");
    reveal_strlit("decline");
    reveal_strlit("delegation");
    reveal_strlit("delegation_revocation");
    reveal_strlit("deliberation");
    reveal_strlit("deliberation_comment");
    reveal_strlit("deliberation_participant_change");
    reveal_strlit("invitation_lifecycle");
    reveal_strlit("join");
    reveal_strlit("key_lifecycle");
    reveal_strlit("leave");
    reveal_strlit("namespace_assertion");
    reveal_strlit("participant_invitation");
    reveal_strlit("proposition");
    reveal_strlit("proposition_lifecycle");
    reveal_strlit("rejected");
    reveal_strlit("restore");
    reveal_strlit("revision");
    reveal_strlit("standing_participant_change");
    reveal_strlit("unarchive");
    reveal_strlit("withdraw");
    assert("accepted"@.len() == 8 && "accepted"@[0] == 'a' && "accepted"@[1] == 'c' && "accepted"@[2] == 'c' && "accepted"@[3] == 'e');
    assert("actor_lifecycle"@.len() == 15 && "actor_lifecycle"@[0] == 'a' && "actor_lifecycle"@[1] == 'c' && "actor_lifecycle"@[2] == 't' && "actor_lifecycle"@[3] == 'o');
    assert("archive"@.len() == 7 && "archive"@[0] == 'a' && "archive"@[1] == 'r' && "archive"@[2] == 'c' && "archive"@[3] == 'h');
    assert("authorization_grant"@.len() == 19 && "authorization_grant"@[0] == 'a' && "authorization_grant"@[1] == 'u' && "authorization_grant"@[2] == 't' && "authorization_grant"@[3] == 'h');
    assert("authorization_revocation"@.len() == 24 && "authorization_revocation"@[0] == 'a' && "authorization_revocation"@[1] == 'u' && "authorization_revocation"@[2] == 't' && "authorization_revocation"@[3] == 'h');
    assert("decision"@.len() == 8 && "decision"@[0] == 'd' && "decision"@[1] == 'e' && "decision"@[2] == 'c' && "decision"@[3] == 'i');
    assert("decline"@.len() == 7 && "decline"@[0] == 'd' && "decline"@[1] == 'e' && "decline"@[2] == 'c' && "decline"@[3] == 'l');
    assert("delegation"@.len() == 10 && "delegation"@[0] == 'd' && "delegation"@[1] == 'e' && "delegation"@[2] == 'l' && "delegation"@[3] == 'e');
    assert("delegation_revocation"@.len() == 21 && "delegation_revocation"@[0] == 'd' && "delegation_revocation"@[1] == 'e' && "delegation_revocation"@[2] == 'l' && "delegation_revocation"@[3] == 'e');
    assert("deliberation"@.len() == 12 && "deliberation"@[0] == 'd' && "deliberation"@[1] == 'e' && "deliberation"@[2] == 'l' && "deliberation"@[3] == 'i');
    assert("deliberation_comment"@.len() == 20 && "deliberation_comment"@[0] == 'd' && "deliberation_comment"@[1] == 'e' && "deliberation_comment"@[2] == 'l' && "deliberation_comment"@[3] == 'i');
    assert("deliberation_participant_change"@.len() == 31 && "deliberation_participant_change"@[0] == 'd' && "deliberation_participant_change"@[1] == 'e' && "deliberation_participant_change"@[2] == 'l' && "deliberation_participant_change"@[3] == 'i');
    assert("invitation_lifecycle"@.len() == 20 && "invitation_lifecycle"@[0] == 'i' && "invitation_lifecycle"@[1] == 'n' && "invitation_lifecycle"@[2] == 'v' && "invitation_lifecycle"@[3] == 'i');
    assert("join"@.len() == 4 && "join"@[0] == 'j' && "join"@[1] == 'o' && "join"@[2] == 'i' && "join"@[3] == 'n');
    assert("key_lifecycle"@.len() == 13 && "key_lifecycle"@[0] == 'k' && "key_lifecycle"@[1] == 'e' && "key_lifecycle"@[2] == 'y' && "key_lifecycle"@[3] == '_');
    assert("leave"@.len() == 5 && "leave"@[0] == 'l' && "leave"@[1] == 'e' && "leave"@[2] == 'a' && "leave"@[3] == 'v');
    assert("namespace_assertion"@.len() == 19 && "namespace_assertion"@[0] == 'n' && "namespace_assertion"@[1] == 'a' && "namespace_assertion"@[2] == 'm' && "namespace_assertion"@[3] == 'e');
    assert("participant_invitation"@.len() == 22 && "participant_invitation"@[0] == 'p' && "participant_invitation"@[1] == 'a' && "participant_invitation"@[2] == 'r' && "participant_invitation"@[3] == 't');
    assert("proposition"@.len() == 11 && "proposition"@[0] == 'p' && "proposition"@[1] == 'r' && "proposition"@[2] == 'o' && "proposition"@[3] == 'p');
    assert("proposition_lifecycle"@.len() == 21 && "proposition_lifecycle"@[0] == 'p' && "proposition_lifecycle"@[1] == 'r' && "proposition_lifecycle"@[2] == 'o' && "proposition_lifecycle"@[3] == 'p');
    assert("rejected"@.len() == 8 && "rejected"@[0] == 'r' && "rejected"@[1] == 'e' && "rejected"@[2] == 'j' && "rejected"@[3] == 'e');
    assert("restore"@.len() == 7 && "restore"@[0] == 'r' && "restore"@[1] == 'e' && "restore"@[2] == 's' && "restore"@[3] == 't');
    assert("revision"@.len() == 8 && "revision"@[0] == 'r' && "revision"@[1] == 'e' && "revision"@[2] == 'v' && "revision"@[3] == 'i');
    assert("standing_participant_change"@.len() == 27 && "standing_participant_change"@[0] == 's' && "standing_participant_change"@[1] == 't' && "standing_participant_change"@[2] == 'a' && "standing_participant_change"@[3] == 'n');
    assert("unarchive"@.len() == 9 && "unarchive"@[0] == 'u' && "unarchive"@[1] == 'n' && "unarchive"@[2] == 'a' && "unarchive"@[3] == 'r');
    assert("withdraw"@.len() == 8 && "withdraw"@[0] == 'w' && "withdraw"@[1] == 'i' && "withdraw"@[2] == 't' && "withdraw"@[3] == 'h');
}

/// The member `key` of an object's body.
pub open spec fn body_member(object: JsonValue, key: Seq<char>) -> Option<JsonValue> {
    field_of(field(object, "body"@), key)
}

/// Law: what each kind of object asks authority over, for every object the
/// descriptor accepts: a proposal the ledger; a revision or deliberation
/// the revision it names of the proposition it names; a standing change or
/// proposition lifecycle step the proposition it names; grants,
/// delegations and their revocations the ledger's administration; a
/// namespace assertion its namespace; a key or actor lifecycle step the
/// affected actor.
#[verifier::rlimit(100)]
pub proof fn law_action_targets(
    t: Seq<char>,
    object: JsonValue,
    closure: Map<u128, JsonValue>,
    ledger: u128,
    c: Capability,
    target: TargetModel,
    admin: bool,
)
    ensures
        action_spec(t, object, closure, ledger) == Ok::<ActionModel, Error>(Some((c, target, admin))) ==> {
            &&& t == "proposition"@ ==> target == TargetModel::Ledger(ledger)
            &&& (t == "revision"@ || t == "deliberation"@) ==> exists|p: u128, r: u128|
                id_value(body_member(object, "proposition_id"@)) == Some(p) && id_value(
                    body_member(object, "revision_id"@),
                ) == Some(r) && target == (TargetModel::Revision { ledger, proposition: p, revision: r })
            &&& (t == "standing_participant_change"@ || t == "proposition_lifecycle"@) ==> exists|p: u128|
                id_value(body_member(object, "proposition_id"@)) == Some(p) && target
                    == (TargetModel::Proposition { ledger, proposition: p })
            &&& (t == "authorization_grant"@ || t == "authorization_revocation"@ || t == "delegation"@
                || t == "delegation_revocation"@) ==> target == (TargetModel::Administration {
                ledger,
                capability: Capability::Admin,
            })
            &&& t == "namespace_assertion"@ ==> exists|n: Seq<char>|
                text_value(body_member(object, "namespace"@)) == Some(n) && target
                    == TargetModel::Namespace(n)
            &&& (t == "key_lifecycle"@ || t == "actor_lifecycle"@) ==> exists|a: u128|
                id_value(body_member(object, "affected_actor_id"@)) == Some(a) && target
                    == (TargetModel::Actor { ledger, actor: a })
        },
{
    reveal_strlit("accepted");
    reveal_strlit("actor_lifecycle");
    reveal_strlit("archive");
    reveal_strlit("authorization_grant");
    reveal_strlit("authorization_revocation");
    reveal_strlit("decision");
    reveal_strlit("decline");
    reveal_strlit("delegation");
    reveal_strlit("delegation_revocation");
    reveal_strlit("deliberation");
    reveal_strlit("deliberation_comment");
    reveal_strlit("deliberation_participant_change");
    reveal_strlit("invitation_lifecycle");
    reveal_strlit("join");
    reveal_strlit("key_lifecycle");
    reveal_strlit("leave");
    reveal_strlit("namespace_assertion");
    reveal_strlit("participant_invitation");
    reveal_strlit("proposition");
    reveal_strlit("proposition_lifecycle");
    reveal_strlit("rejected");
    reveal_strlit("restore");
    reveal_strlit("revision");
    reveal_strlit("standing_participant_change");
    reveal_strlit("unarchive");
    reveal_strlit("withdraw");
    assert("accepted"@.len() == 8 && "accepted"@[0] == 'a' && "accepted"@[1] == 'c' && "accepted"@[2] == 'c' && "accepted"@[3] == 'e');
    assert("actor_lifecycle"@.len() == 15 && "actor_lifecycle"@[0] == 'a' && "actor_lifecycle"@[1] == 'c' && "actor_lifecycle"@[2] == 't' && "actor_lifecycle"@[3] == 'o');
    assert("archive"@.len() == 7 && "archive"@[0] == 'a' && "archive"@[1] == 'r' && "archive"@[2] == 'c' && "archive"@[3] == 'h');
    assert("authorization_grant"@.len() == 19 && "authorization_grant"@[0] == 'a' && "authorization_grant"@[1] == 'u' && "authorization_grant"@[2] == 't' && "authorization_grant"@[3] == 'h');
    assert("authorization_revocation"@.len() == 24 && "authorization_revocation"@[0] == 'a' && "authorization_revocation"@[1] == 'u' && "authorization_revocation"@[2] == 't' && "authorization_revocation"@[3] == 'h');
    assert("decision"@.len() == 8 && "decision"@[0] == 'd' && "decision"@[1] == 'e' && "decision"@[2] == 'c' && "decision"@[3] == 'i');
    assert("decline"@.len() == 7 && "decline"@[0] == 'd' && "decline"@[1] == 'e' && "decline"@[2] == 'c' && "decline"@[3] == 'l');
    assert("delegation"@.len() == 10 && "delegation"@[0] == 'd' && "delegation"@[1] == 'e' && "delegation"@[2] == 'l' && "delegation"@[3] == 'e');
    assert("delegation_revocation"@.len() == 21 && "delegation_revocation"@[0] == 'd' && "delegation_revocation"@[1] == 'e' && "delegation_revocation"@[2] == 'l' && "delegation_revocation"@[3] == 'e');
    assert("deliberation"@.len() == 12 && "deliberation"@[0] == 'd' && "deliberation"@[1] == 'e' && "deliberation"@[2] == 'l' && "deliberation"@[3] == 'i');
    assert("deliberation_comment"@.len() == 20 && "deliberation_comment"@[0] == 'd' && "deliberation_comment"@[1] == 'e' && "deliberation_comment"@[2] == 'l' && "deliberation_comment"@[3] == 'i');
    assert("deliberation_participant_change"@.len() == 31 && "deliberation_participant_change"@[0] == 'd' && "deliberation_participant_change"@[1] == 'e' && "deliberation_participant_change"@[2] == 'l' && "deliberation_participant_change"@[3] == 'i');
    assert("invitation_lifecycle"@.len() == 20 && "invitation_lifecycle"@[0] == 'i' && "invitation_lifecycle"@[1] == 'n' && "invitation_lifecycle"@[2] == 'v' && "invitation_lifecycle"@[3] == 'i');
    assert("join"@.len() == 4 && "join"@[0] == 'j' && "join"@[1] == 'o' && "join"@[2] == 'i' && "join"@[3] == 'n');
    assert("key_lifecycle"@.len() == 13 && "key_lifecycle"@[0] == 'k' && "key_lifecycle"@[1] == 'e' && "key_lifecycle"@[2] == 'y' && "key_lifecycle"@[3] == '_');
    assert("leave"@.len() == 5 && "leave"@[0] == 'l' && "leave"@[1] == 'e' && "leave"@[2] == 'a' && "leave"@[3] == 'v');
    assert("namespace_assertion"@.len() == 19 && "namespace_assertion"@[0] == 'n' && "namespace_assertion"@[1] == 'a' && "namespace_assertion"@[2] == 'm' && "namespace_assertion"@[3] == 'e');
    assert("participant_invitation"@.len() == 22 && "participant_invitation"@[0] == 'p' && "participant_invitation"@[1] == 'a' && "participant_invitation"@[2] == 'r' && "participant_invitation"@[3] == 't');
    assert("proposition"@.len() == 11 && "proposition"@[0] == 'p' && "proposition"@[1] == 'r' && "proposition"@[2] == 'o' && "proposition"@[3] == 'p');
    assert("proposition_lifecycle"@.len() == 21 && "proposition_lifecycle"@[0] == 'p' && "proposition_lifecycle"@[1] == 'r' && "proposition_lifecycle"@[2] == 'o' && "proposition_lifecycle"@[3] == 'p');
    assert("rejected"@.len() == 8 && "rejected"@[0] == 'r' && "rejected"@[1] == 'e' && "rejected"@[2] == 'j' && "rejected"@[3] == 'e');
    assert("restore"@.len() == 7 && "restore"@[0] == 'r' && "restore"@[1] == 'e' && "restore"@[2] == 's' && "restore"@[3] == 't');
    assert("revision"@.len() == 8 && "revision"@[0] == 'r' && "revision"@[1] == 'e' && "revision"@[2] == 'v' && "revision"@[3] == 'i');
    assert("standing_participant_change"@.len() == 27 && "standing_participant_change"@[0] == 's' && "standing_participant_change"@[1] == 't' && "standing_participant_change"@[2] == 'a' && "standing_participant_change"@[3] == 'n');
    assert("unarchive"@.len() == 9 && "unarchive"@[0] == 'u' && "unarchive"@[1] == 'n' && "unarchive"@[2] == 'a' && "unarchive"@[3] == 'r');
    assert("withdraw"@.len() == 8 && "withdraw"@[0] == 'w' && "withdraw"@[1] == 'i' && "withdraw"@[2] == 't' && "withdraw"@[3] == 'h');
}

/// Law: the capability names a grant may list, name by name; no other text
/// names a capability.
pub proof fn law_capability_names(s: Seq<char>)
    ensures
        capability_named("propose"@) == Some(Capability::Propose),
        capability_named("deliberate"@) == Some(Capability::Deliberate),
        capability_named("invite"@) == Some(Capability::Invite),
        capability_named("comment"@) == Some(Capability::Comment),
        capability_named("accept"@) == Some(Capability::Accept),
        capability_named("reject"@) == Some(Capability::Reject),
        capability_named("withdraw"@) == Some(Capability::Withdraw),
        capability_named("archive"@) == Some(Capability::Archive),
        capability_named("admin"@) == Some(Capability::Admin),
        !(s == "propose"@ || s == "deliberate"@ || s == "invite"@ || s == "comment"@ || s == "accept"@ || s == "reject"@ || s == "withdraw"@ || s == "archive"@ || s == "admin"@) ==> capability_named(s) is None,
{
    reveal_strlit("propose");
    reveal_strlit("deliberate");
    reveal_strlit("invite");
    reveal_strlit("comment");
    reveal_strlit("accept");
    reveal_strlit("reject");
    reveal_strlit("withdraw");
    reveal_strlit("archive");
    reveal_strlit("admin");
    assert("propose"@.len() == 7 && "propose"@[0] == 'p' && "propose"@[1] == 'r' && "propose"@[2] == 'o');
    assert("deliberate"@.len() == 10 && "deliberate"@[0] == 'd' && "deliberate"@[1] == 'e' && "deliberate"@[2] == 'l');
    assert("invite"@.len() == 6 && "invite"@[0] == 'i' && "invite"@[1] == 'n' && "invite"@[2] == 'v');
    assert("comment"@.len() == 7 && "comment"@[0] == 'c' && "comment"@[1] == 'o' && "comment"@[2] == 'm');
    assert("accept"@.len() == 6 && "accept"@[0] == 'a' && "accept"@[1] == 'c' && "accept"@[2] == 'c');
    assert("reject"@.len() == 6 && "reject"@[0] == 'r' && "reject"@[1] == 'e' && "reject"@[2] == 'j');
    assert("withdraw"@.len() == 8 && "withdraw"@[0] == 'w' && "withdraw"@[1] == 'i' && "withdraw"@[2] == 't');
    assert("archive"@.len() == 7 && "archive"@[0] == 'a' && "archive"@[1] == 'r' && "archive"@[2] == 'c');
    assert("admin"@.len() == 5 && "admin"@[0] == 'a' && "admin"@[1] == 'd' && "admin"@[2] == 'm');
}

} // verus!
