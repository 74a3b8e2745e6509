//! The rows a stored object adds to the typed projections, for the object
//! families whose rows are read from the document alone.

use vstd::prelude::*;
use vstd::utf8::encode_utf8;
use crate::codec::{b64url_decode, decode_b64url};
use crate::error::Error;
use crate::json::{JsonValue, field, id_value, parse_object_id_text, text_value};
use crate::text::same_text;

verus! {

/// A projection row.
pub enum ProjectionRow {
    /// `projected_actor`
    Actor { actor_id: u128, actor_type: String },
    /// `projected_key`
    Key { key_id: u128, purpose: String, public_key: Vec<u8> },
    /// `projected_binding`
    Binding { binding_id: u128, actor_id: u128, key_id: u128, permitted_purpose: String },
    /// Marks the authorities of a grant revoked.
    RevokeGrant { grant_id: u128 },
    /// `projected_deliberation`, not yet settled.
    Deliberation { deliberation_id: u128, proposition_id: u128, revision_id: u128 },
    /// `projected_lifecycle`
    Lifecycle {
        target_id: Option<u128>,
        dimension: Option<String>,
        operation: String,
        effective_at: Option<String>,
    },
}

/// Mathematical form of a [`ProjectionRow`].
pub enum RowModel {
    Actor { actor_id: u128, actor_type: Seq<char> },
    Key { key_id: u128, purpose: Seq<char>, public_key: Seq<u8> },
    Binding { binding_id: u128, actor_id: u128, key_id: u128, permitted_purpose: Seq<char> },
    RevokeGrant { grant_id: u128 },
    Deliberation { deliberation_id: u128, proposition_id: u128, revision_id: u128 },
    Lifecycle {
        target_id: Option<u128>,
        dimension: Option<Seq<char>>,
        operation: Seq<char>,
        effective_at: Option<Seq<char>>,
    },
}

pub open spec fn text_model(t: Option<String>) -> Option<Seq<char>> {
    match t {
        Some(s) => Some(s@),
        None => None,
    }
}

impl ProjectionRow {
    pub open spec fn model(&self) -> RowModel {
        match self {
            ProjectionRow::Actor { actor_id, actor_type } => RowModel::Actor {
                actor_id: *actor_id,
                actor_type: actor_type@,
            },
            ProjectionRow::Key { key_id, purpose, public_key } => RowModel::Key {
                key_id: *key_id,
                purpose: purpose@,
                public_key: public_key@,
            },
            ProjectionRow::Binding { binding_id, actor_id, key_id, permitted_purpose } => RowModel::Binding {
                binding_id: *binding_id,
                actor_id: *actor_id,
                key_id: *key_id,
                permitted_purpose: permitted_purpose@,
            },
            ProjectionRow::RevokeGrant { grant_id } => RowModel::RevokeGrant { grant_id: *grant_id },
            ProjectionRow::Deliberation { deliberation_id, proposition_id, revision_id } => RowModel::Deliberation {
                deliberation_id: *deliberation_id,
                proposition_id: *proposition_id,
                revision_id: *revision_id,
            },
            ProjectionRow::Lifecycle { target_id, dimension, operation, effective_at } => RowModel::Lifecycle {
                target_id: *target_id,
                dimension: text_model(*dimension),
                operation: operation@,
                effective_at: text_model(*effective_at),
            },
        }
    }
}

/// The lifecycle families, whose row names their target.
pub open spec fn lifecycle_family(t: Seq<char>) -> bool {
    ||| t == "key_lifecycle"@
    ||| t == "actor_lifecycle"@
    ||| t == "recovery_policy"@
    ||| t == "invitation_lifecycle"@
    ||| t == "proposition_lifecycle"@
    ||| t == "delegation_revocation"@
}

/// The families whose row is formed here.
pub open spec fn row_family(t: Seq<char>) -> bool {
    ||| t == "actor"@
    ||| t == "key"@
    ||| t == "actor_key_binding"@
    ||| t == "authorization_revocation"@
    ||| t == "deliberation"@
    ||| lifecycle_family(t)
}

/// The identifier in `v`, where a missing or unreadable one breaks the
/// lineage.
pub open spec fn row_id(v: Option<JsonValue>) -> Result<u128, Error> {
    match id_value(v) {
        Some(x) => Ok(x),
        None => Err(Error::InvalidLineage),
    }
}

/// The text in `v`, where a missing one is a projection mismatch.
pub open spec fn row_text(v: Option<JsonValue>) -> Result<Seq<char>, Error> {
    match text_value(v) {
        Some(t) => Ok(t),
        None => Err(Error::ProjectedMismatch),
    }
}

/// The first of the target members of a lifecycle body that holds text.
pub open spec fn lifecycle_target_text(body: JsonValue) -> Option<Seq<char>> {
    if text_value(field(body, "affected_actor_id"@)) is Some {
        text_value(field(body, "affected_actor_id"@))
    } else if text_value(field(body, "actor_id"@)) is Some {
        text_value(field(body, "actor_id"@))
    } else if text_value(field(body, "invitation_id"@)) is Some {
        text_value(field(body, "invitation_id"@))
    } else if text_value(field(body, "proposition_id"@)) is Some {
        text_value(field(body, "proposition_id"@))
    } else if text_value(field(body, "revoked_grant_id"@)) is Some {
        text_value(field(body, "revoked_grant_id"@))
    } else {
        text_value(field(body, "revoked_delegation_id"@))
    }
}

/// The row of a family that [`row_family`] names, read from its document
/// and (already checked to be an object) body.
pub open spec fn family_row_spec(t: Seq<char>, document: JsonValue, body: JsonValue) -> Result<RowModel, Error> {
    if t == "actor"@ {
        match row_id(field(document, "id"@)) {
            Err(e) => Err(e),
            Ok(actor_id) => match row_text(field(body, "actor_type"@)) {
                Err(e) => Err(e),
                Ok(actor_type) => Ok(RowModel::Actor { actor_id, actor_type }),
            },
        }
    } else if t == "key"@ {
        match row_id(field(document, "id"@)) {
            Err(e) => Err(e),
            Ok(key_id) => match field(body, "public_key"@) {
                Some(JsonValue::Object(_)) => match row_text(field(field(body, "public_key"@)->0, "bytes"@)) {
                    Err(e) => Err(e),
                    Ok(text) => match b64url_decode(encode_utf8(text)) {
                        None => Err(Error::ProjectedMismatch),
                        Some(public_key) => match row_text(field(body, "purpose"@)) {
                            Err(e) => Err(e),
                            Ok(purpose) => Ok(RowModel::Key { key_id, purpose, public_key }),
                        },
                    },
                },
                _ => Err(Error::ProjectedMismatch),
            },
        }
    } else if t == "actor_key_binding"@ {
        match (row_id(field(document, "id"@)), row_id(field(body, "actor_id"@)), row_id(field(body, "key_id"@))) {
            (Err(e), _, _) => Err(e),
            (Ok(_), Err(e), _) => Err(e),
            (Ok(_), Ok(_), Err(e)) => Err(e),
            (Ok(binding_id), Ok(actor_id), Ok(key_id)) => match row_text(field(body, "permitted_purpose"@)) {
                Err(e) => Err(e),
                Ok(permitted_purpose) => Ok(RowModel::Binding { binding_id, actor_id, key_id, permitted_purpose }),
            },
        }
    } else if t == "authorization_revocation"@ {
        match row_id(field(body, "revoked_grant_id"@)) {
            Err(e) => Err(e),
            Ok(grant_id) => Ok(RowModel::RevokeGrant { grant_id }),
        }
    } else if t == "deliberation"@ {
        match (row_id(field(body, "deliberation_id"@)), row_id(field(body, "proposition_id"@)), row_id(field(body, "revision_id"@))) {
            (Err(e), _, _) => Err(e),
            (Ok(_), Err(e), _) => Err(e),
            (Ok(_), Ok(_), Err(e)) => Err(e),
            (Ok(deliberation_id), Ok(proposition_id), Ok(revision_id)) => Ok(
                RowModel::Deliberation { deliberation_id, proposition_id, revision_id },
            ),
        }
    } else {
        Ok(
            RowModel::Lifecycle {
                target_id: match lifecycle_target_text(body) {
                    Some(text) => crate::ids::uuid_text_value(text),
                    None => None,
                },
                dimension: text_value(field(body, "dimension"@)),
                operation: match text_value(field(body, "operation"@)) {
                    Some(op) => op,
                    None => "update"@,
                },
                effective_at: text_value(field(body, "effective_at"@)),
            },
        )
    }
}

/// The projection row of an object of type `t` with document `document`:
/// `None` for a family whose rows are not formed here (they need canonical
/// encodings, content-hash parsing or the deliberation projectors) or that
/// has none; otherwise the row, or the error the projector reports (a body
/// that is not an object, a missing member, an unreadable identifier).
pub open spec fn projection_row_spec(t: Seq<char>, document: JsonValue) -> Option<Result<RowModel, Error>> {
    if !row_family(t) {
        None
    } else {
        match field(document, "body"@) {
            Some(JsonValue::Object(fs)) => Some(family_row_spec(t, document, JsonValue::Object(fs))),
            _ => Some(Err(Error::ProjectedMismatch)),
        }
    }
}

fn id_of(v: Option<&JsonValue>) -> (r: Result<u128, Error>)
    ensures
        r == row_id(
            match v {
                Some(x) => Some(*x),
                None => None,
            },
        ),
{
    match parse_object_id_text(v) {
        Some(x) => Ok(x),
        None => Err(Error::InvalidLineage),
    }
}

fn text_of(v: Option<&JsonValue>) -> (r: Result<String, Error>)
    ensures
        match r {
            Ok(s) => row_text(
                match v {
                    Some(x) => Some(*x),
                    None => None,
                },
            ) == Ok::<Seq<char>, Error>(s@),
            Err(e) => row_text(
                match v {
                    Some(x) => Some(*x),
                    None => None,
                },
            ) == Err::<Seq<char>, Error>(e),
        },
{
    match v {
        Some(x) => match x.as_text() {
            Some(t) => Ok(t.to_owned()),
            None => Err(Error::ProjectedMismatch),
        },
        None => Err(Error::ProjectedMismatch),
    }
}

fn optional_text(v: Option<&JsonValue>) -> (r: Option<String>)
    ensures
        text_model(r) == text_value(
            match v {
                Some(x) => Some(*x),
                None => None,
            },
        ),
{
    match v {
        Some(x) => match x.as_text() {
            Some(t) => Some(t.to_owned()),
            None => None,
        },
        None => None,
    }
}

fn lifecycle_target<'a>(body: &'a JsonValue) -> (r: Option<&'a str>)
    ensures
        match r {
            Some(t) => lifecycle_target_text(*body) == Some(t@),
            None => lifecycle_target_text(*body) is None,
        },
{
    proof {
        reveal_strlit("affected_actor_id");
        reveal_strlit("actor_id");
        reveal_strlit("invitation_id");
        reveal_strlit("proposition_id");
        reveal_strlit("revoked_grant_id");
        reveal_strlit("revoked_delegation_id");
    }
    let keys = ["affected_actor_id", "actor_id", "invitation_id", "proposition_id", "revoked_grant_id", "revoked_delegation_id"];
    let mut i: usize = 0;
    while i < 6
        invariant
            i <= 6,
            keys@ == seq!["affected_actor_id", "actor_id", "invitation_id", "proposition_id", "revoked_grant_id", "revoked_delegation_id"],
            forall|k: int| 0 <= k < i ==> text_value(field(*body, #[trigger] keys@[k]@)) is None,
        decreases 6 - i,
    {
        match body.get(keys[i]) {
            Some(v) => match v.as_text() {
                Some(t) => {
                    return Some(t);
                },
                None => {},
            },
            None => {},
        }
        i = i + 1;
    }
    None
}

/// Forms the projection row of an object; see [`projection_row_spec`].
pub fn projection_row(object_type: &str, document: &JsonValue) -> (r: Option<Result<ProjectionRow, Error>>)
    ensures
        match r {
            None => projection_row_spec(object_type@, *document) is None,
            Some(Ok(row)) => projection_row_spec(object_type@, *document) == Some(Ok::<RowModel, Error>(row.model())),
            Some(Err(e)) => projection_row_spec(object_type@, *document) == Some(Err::<RowModel, Error>(e)),
        },
{
    proof {
        reveal_strlit("actor");
        reveal_strlit("key");
        reveal_strlit("actor_key_binding");
        reveal_strlit("authorization_revocation");
        reveal_strlit("deliberation");
        reveal_strlit("key_lifecycle");
        reveal_strlit("actor_lifecycle");
        reveal_strlit("recovery_policy");
        reveal_strlit("invitation_lifecycle");
        reveal_strlit("proposition_lifecycle");
        reveal_strlit("delegation_revocation");
        reveal_strlit("body");
        reveal_strlit("id");
        reveal_strlit("actor_type");
        reveal_strlit("public_key");
        reveal_strlit("bytes");
        reveal_strlit("purpose");
        reveal_strlit("actor_id");
        reveal_strlit("key_id");
        reveal_strlit("permitted_purpose");
        reveal_strlit("revoked_grant_id");
        reveal_strlit("deliberation_id");
        reveal_strlit("proposition_id");
        reveal_strlit("revision_id");
        reveal_strlit("dimension");
        reveal_strlit("operation");
        reveal_strlit("update");
        reveal_strlit("effective_at");
    }
    let t = object_type;
    let lifecycle = same_text(t, "key_lifecycle") || same_text(t, "actor_lifecycle") || same_text(
        t,
        "recovery_policy",
    ) || same_text(t, "invitation_lifecycle") || same_text(t, "proposition_lifecycle") || same_text(
        t,
        "delegation_revocation",
    );
    let actor = same_text(t, "actor");
    let key = same_text(t, "key");
    let binding = same_text(t, "actor_key_binding");
    let revocation = same_text(t, "authorization_revocation");
    let deliberation = same_text(t, "deliberation");
    if !(actor || key || binding || revocation || deliberation || lifecycle) {
        return None;
    }
    let body = match document.get("body") {
        Some(b) => {
            if b.is_object() {
                b
            } else {
                return Some(Err(Error::ProjectedMismatch));
            }
        },
        None => return Some(Err(Error::ProjectedMismatch)),
    };
    let row = if actor {
        let actor_id = match id_of(document.get("id")) {
            Ok(x) => x,
            Err(e) => return Some(Err(e)),
        };
        match text_of(body.get("actor_type")) {
            Ok(actor_type) => ProjectionRow::Actor { actor_id, actor_type },
            Err(e) => return Some(Err(e)),
        }
    } else if key {
        let key_id = match id_of(document.get("id")) {
            Ok(x) => x,
            Err(e) => return Some(Err(e)),
        };
        let public_key = match body.get("public_key") {
            Some(p) => {
                if p.is_object() {
                    p
                } else {
                    return Some(Err(Error::ProjectedMismatch));
                }
            },
            None => return Some(Err(Error::ProjectedMismatch)),
        };
        let text = match text_of(public_key.get("bytes")) {
            Ok(t) => t,
            Err(e) => return Some(Err(e)),
        };
        let bytes = match decode_b64url(text.as_str()) {
            Some(b) => b,
            None => return Some(Err(Error::ProjectedMismatch)),
        };
        match text_of(body.get("purpose")) {
            Ok(purpose) => ProjectionRow::Key { key_id, purpose, public_key: bytes },
            Err(e) => return Some(Err(e)),
        }
    } else if binding {
        let binding_id = match id_of(document.get("id")) {
            Ok(x) => x,
            Err(e) => return Some(Err(e)),
        };
        let actor_id = match id_of(body.get("actor_id")) {
            Ok(x) => x,
            Err(e) => return Some(Err(e)),
        };
        let key_id = match id_of(body.get("key_id")) {
            Ok(x) => x,
            Err(e) => return Some(Err(e)),
        };
        match text_of(body.get("permitted_purpose")) {
            Ok(permitted_purpose) => ProjectionRow::Binding { binding_id, actor_id, key_id, permitted_purpose },
            Err(e) => return Some(Err(e)),
        }
    } else if revocation {
        match id_of(body.get("revoked_grant_id")) {
            Ok(grant_id) => ProjectionRow::RevokeGrant { grant_id },
            Err(e) => return Some(Err(e)),
        }
    } else if deliberation {
        let deliberation_id = match id_of(body.get("deliberation_id")) {
            Ok(x) => x,
            Err(e) => return Some(Err(e)),
        };
        let proposition_id = match id_of(body.get("proposition_id")) {
            Ok(x) => x,
            Err(e) => return Some(Err(e)),
        };
        match id_of(body.get("revision_id")) {
            Ok(revision_id) => ProjectionRow::Deliberation { deliberation_id, proposition_id, revision_id },
            Err(e) => return Some(Err(e)),
        }
    } else {
        let target_id = match lifecycle_target(body) {
            Some(text) => crate::ids::parse_uuid_text(text),
            None => None,
        };
        let operation = match optional_text(body.get("operation")) {
            Some(op) => op,
            None => "update".to_owned(),
        };
        ProjectionRow::Lifecycle {
            target_id,
            dimension: optional_text(body.get("dimension")),
            operation,
            effective_at: optional_text(body.get("effective_at")),
        }
    };
    Some(Ok(row))
}

} // verus!
