//! The identifier members of a protocol object and the entries of its
//! dependency list, checked before anything is looked up.

use vstd::prelude::*;
use crate::error::Error;
use crate::ids::{
    hyphenated_hex,
    is_rfc4122_variant,
    parse_uuid_text,
    uuid_hyphenated_text,
    uuid_is_rfc4122,
    uuid_text_value,
    uuid_version_num,
    version_of,
};
use crate::json::{JsonValue, field, field_of, id_value, is_object, parse_object_id_text, text_value};
use crate::names::{role_is_valid, valid_dependency_role};
use crate::text::same_text;

verus! {

/// The identifier a member names when it is written canonically: a string
/// that parses as a version 7 UUID of the RFC 4122 variant and is exactly
/// that UUID's lower-case hyphenated form. `None` for anything else.
pub open spec fn canonical_id(v: Option<JsonValue>) -> Option<u128> {
    match text_value(v) {
        Some(t) => match uuid_text_value(t) {
            Some(id) => if version_of(id) == 7 && is_rfc4122_variant(id) && hyphenated_hex(id)
                == t {
                Some(id)
            } else {
                None
            },
            None => None,
        },
        None => None,
    }
}

/// Reads the identifier member `name` of an object, which must be written
/// canonically.
pub fn uuid_bytes(object: &JsonValue, name: &'static str) -> (r: Result<u128, Error>)
    ensures
        r == match canonical_id(field(*object, name@)) {
            Some(id) => Ok::<u128, Error>(id),
            None => Err(Error::InvalidUuid(name)),
        },
{
    let text = match object.get(name) {
        Some(JsonValue::Text(t)) => t.as_str(),
        _ => return Err(Error::InvalidUuid(name)),
    };
    let id = match parse_uuid_text(text) {
        Some(id) => id,
        None => return Err(Error::InvalidUuid(name)),
    };
    if uuid_version_num(id) != 7 || !uuid_is_rfc4122(id) {
        return Err(Error::InvalidUuid(name));
    }
    let written = uuid_hyphenated_text(id);
    if !same_text(written.as_str(), text) {
        return Err(Error::InvalidUuid(name));
    }
    Ok(id)
}

/// One entry of an object's dependency list.
#[derive(Clone, Debug, PartialEq, Eq)]
pub struct DependencyRef {
    pub object_id: u128,
    /// The content hash as written; the hash type parses it.
    pub content_hash: String,
    pub role: String,
}

/// A dependency entry holds no member but `object_id`, `content_hash` and
/// `role`.
pub open spec fn only_dependency_keys(members: Seq<(String, JsonValue)>) -> bool {
    forall|i: int|
        0 <= i < members.len() ==> {
            let k = (#[trigger] members[i]).0@;
            k == "object_id"@ || k == "content_hash"@ || k == "role"@
        }
}

/// What a dependency entry gives, checked against the object's own
/// identifier and the identifiers of the entries before it: the entry's
/// identifier, hash text and role.
pub open spec fn dependency_spec(entry: JsonValue, object_id: u128, seen: Seq<u128>) -> Result<
    (u128, Seq<char>, Seq<char>),
    Error,
> {
    match entry {
        JsonValue::Object(members) => if !only_dependency_keys(members@) {
            Err(Error::InvalidDependency)
        } else {
            match canonical_id(field(entry, "object_id"@)) {
                None => Err(Error::InvalidUuid("object_id")),
                Some(id) => {
                    let hash = text_value(field(entry, "content_hash"@));
                    let role = text_value(field(entry, "role"@));
                    if seen.contains(id) || hash is None || role is None || !role_is_valid(
                        vstd::utf8::encode_utf8(role->0),
                    ) || id == object_id {
                        Err(Error::InvalidDependency)
                    } else {
                        Ok((id, hash->0, role->0))
                    }
                },
            }
        },
        _ => Err(Error::InvalidDependency),
    }
}

/// Whether `key` is one of the members a dependency entry may hold.
fn dependency_key(key: &str) -> (r: bool)
    ensures
        r == (key@ == "object_id"@ || key@ == "content_hash"@ || key@ == "role"@),
{
    same_text(key, "object_id") || same_text(key, "content_hash") || same_text(key, "role")
}

/// Whether `id` occurs in `seen`.
fn contains_id(seen: &Vec<u128>, id: u128) -> (r: bool)
    ensures
        r == seen@.contains(id),
{
    let mut i: usize = 0;
    while i < seen.len()
        invariant
            i <= seen@.len(),
            forall|j: int| 0 <= j < i ==> seen@[j] != id,
        decreases seen@.len() - i,
    {
        if seen[i] == id {
            assert(seen@[i as int] == id);
            return true;
        }
        i = i + 1;
    }
    false
}

/// Checks one entry of the dependency list of the object `object_id`;
/// `seen` holds the identifiers of the entries before it.
pub fn dependency_ref(entry: &JsonValue, object_id: u128, seen: &Vec<u128>) -> (r: Result<
    DependencyRef,
    Error,
>)
    ensures
        match r {
            Ok(d) => dependency_spec(*entry, object_id, seen@) == Ok::<
                (u128, Seq<char>, Seq<char>),
                Error,
            >((d.object_id, d.content_hash@, d.role@)),
            Err(e) => dependency_spec(*entry, object_id, seen@) == Err::<
                (u128, Seq<char>, Seq<char>),
                Error,
            >(e),
        },
{
    let members = match entry {
        JsonValue::Object(members) => members,
        _ => return Err(Error::InvalidDependency),
    };
    let mut i: usize = 0;
    while i < members.len()
        invariant
            i <= members@.len(),
            *entry == JsonValue::Object(*members),
            forall|j: int|
                0 <= j < i ==> {
                    let k = (#[trigger] members@[j]).0@;
                    k == "object_id"@ || k == "content_hash"@ || k == "role"@
                },
        decreases members@.len() - i,
    {
        if !dependency_key(members[i].0.as_str()) {
            assert(!only_dependency_keys(members@)) by {
                let m = members@[i as int];
            }
            return Err(Error::InvalidDependency);
        }
        i = i + 1;
    }
    let id = uuid_bytes(entry, "object_id")?;
    if contains_id(seen, id) {
        return Err(Error::InvalidDependency);
    }
    let content_hash = match entry.get("content_hash") {
        Some(JsonValue::Text(t)) => t.as_str().to_owned(),
        _ => return Err(Error::InvalidDependency),
    };
    let role = match entry.get("role") {
        Some(JsonValue::Text(t)) => t.as_str(),
        _ => return Err(Error::InvalidDependency),
    };
    if !valid_dependency_role(role) || id == object_id {
        return Err(Error::InvalidDependency);
    }
    Ok(DependencyRef { object_id: id, content_hash, role: role.to_owned() })
}

/// What the bootstrap of a ledger needs of each object it stages.
#[derive(Debug, PartialEq, Eq)]
pub struct CycleObject {
    pub id: u128,
    pub object_type: String,
    /// The identifiers of the object's dependencies, in order.
    pub dependencies: Vec<u128>,
    /// The object's canonical document.
    pub document: JsonValue,
}

/// The object types that a genesis object may depend on within the
/// bootstrap cycle.
pub open spec fn is_bootstrap_type(t: Seq<char>) -> bool {
    t == "actor"@ || t == "key"@ || t == "actor_key_binding"@ || t == "authorization_grant"@ || t
        == "namespace_assertion"@
}

pub open spec fn is_genesis(o: CycleObject) -> bool {
    o.object_type@ == "genesis"@
}

/// The root grant a genesis object names in its body.
pub open spec fn root_grant_of(o: CycleObject) -> Option<u128> {
    id_value(field_of(field(o.document, "body"@), "root_grant"@))
}

/// Why a genesis object cannot take part in the bootstrap cycle: a body
/// that is not an object, or a root grant that names no identifier.
pub open spec fn genesis_error(o: CycleObject) -> Option<Error> {
    if !is_genesis(o) {
        None
    } else if !is_object(field(o.document, "body"@)) {
        Some(Error::Metadata)
    } else if root_grant_of(o) is None {
        Some(Error::InvalidLineage)
    } else {
        None
    }
}

/// The first error among the genesis objects of `objects[..n]`.
pub open spec fn cycle_error_upto(objects: Seq<CycleObject>, n: int) -> Option<Error>
    decreases n,
{
    if n <= 0 {
        None
    } else {
        match cycle_error_upto(objects, n - 1) {
            Some(e) => Some(e),
            None => genesis_error(objects[n - 1]),
        }
    }
}

/// Once a genesis object has failed, the first error stays the same.
proof fn lemma_cycle_error_stays(objects: Seq<CycleObject>, n: int, m: int)
    requires
        n <= m,
        cycle_error_upto(objects, n) is Some,
    ensures
        cycle_error_upto(objects, m) == cycle_error_upto(objects, n),
    decreases m - n,
{
    if n < m {
        lemma_cycle_error_stays(objects, n, m - 1);
    }
}

/// Some staged object has identifier `x` (and, if asked, a bootstrap type).
pub open spec fn staged(objects: Seq<CycleObject>, x: u128, bootstrap_only: bool) -> bool {
    exists|c: int|
        0 <= c < objects.len() && (#[trigger] objects[c]).id == x && (!bootstrap_only
            || is_bootstrap_type(objects[c].object_type@))
}

/// The genesis object `g` brings `x` into the cycle: its own identifier,
/// a staged dependency of a bootstrap type, or its staged root grant.
pub open spec fn contributes(objects: Seq<CycleObject>, g: CycleObject, x: u128) -> bool {
    ||| x == g.id
    ||| g.dependencies@.contains(x) && staged(objects, x, true)
    ||| root_grant_of(g) == Some(x) && staged(objects, x, false)
}

/// `x` is brought into the cycle by a genesis object among `objects[..n]`.
pub open spec fn in_cycle_upto(objects: Seq<CycleObject>, n: int, x: u128) -> bool {
    exists|g: int| 0 <= g < n && is_genesis(objects[g]) && contributes(objects, #[trigger] objects[g], x)
}

/// `x` is in `before`, is the identifier of `g`, or is a staged
/// dependency of a bootstrap type among the first `j` of `g`.
pub open spec fn gathered(objects: Seq<CycleObject>, before: Seq<u128>, g: CycleObject, j: int, x: u128) -> bool {
    ||| before.contains(x)
    ||| x == g.id
    ||| g.dependencies@.subrange(0, j).contains(x) && staged(objects, x, true)
}

/// Whether some staged object has identifier `x` (and, if asked, a
/// bootstrap type).
fn find_staged(objects: &Vec<CycleObject>, x: u128, bootstrap_only: bool) -> (r: bool)
    ensures
        r == staged(objects@, x, bootstrap_only),
{
    let mut i: usize = 0;
    while i < objects.len()
        invariant
            i <= objects@.len(),
            forall|c: int|
                0 <= c < i ==> !((#[trigger] objects@[c]).id == x && (!bootstrap_only
                    || is_bootstrap_type(objects@[c].object_type@))),
        decreases objects@.len() - i,
    {
        let o = &objects[i];
        if o.id == x {
            if !bootstrap_only {
                return true;
            }
            let t = o.object_type.as_str();
            if same_text(t, "actor") || same_text(t, "key") || same_text(t, "actor_key_binding")
                || same_text(t, "authorization_grant") || same_text(t, "namespace_assertion") {
                return true;
            }
        }
        i = i + 1;
    }
    false
}

/// Adds `x` to `ids` unless it is there.
fn push_unique(ids: &mut Vec<u128>, x: u128)
    ensures
        forall|y: u128| final(ids)@.contains(y) <==> (old(ids)@.contains(y) || y == x),
        old(ids)@.no_duplicates() ==> final(ids)@.no_duplicates(),
{
    if !contains_id(ids, x) {
        ids.push(x);
        proof {
            assert forall|a: int, b: int|
                0 <= a < b < final(ids)@.len() && old(ids)@.no_duplicates() implies final(ids)@[a]
                != final(ids)@[b] by {
                if b == old(ids)@.len() {
                    assert(old(ids)@[a] == final(ids)@[a]);
                }
            }
            assert forall|y: u128| final(ids)@.contains(y) <==> (old(ids)@.contains(y) || y == x) by {
                if old(ids)@.contains(y) {
                    let k = choose|k: int| 0 <= k < old(ids)@.len() && old(ids)@[k] == y;
                    assert(final(ids)@[k] == y);
                }
                if final(ids)@.contains(y) && y != x {
                    let k = choose|k: int| 0 <= k < final(ids)@.len() && final(ids)@[k] == y;
                    assert(old(ids)@[k] == y);
                }
                if y == x {
                    assert(final(ids)@[old(ids)@.len() as int] == x);
                }
            }
        }
    }
}

/// The objects of a bootstrap that authorise one another and so are not
/// checked against earlier authority: each genesis object, its staged
/// dependencies of a bootstrap type, and its staged root grant.
pub fn bootstrap_cycle_ids(objects: &Vec<CycleObject>) -> (r: Result<Vec<u128>, Error>)
    ensures
        match r {
            Ok(ids) => cycle_error_upto(objects@, objects@.len() as int) is None && ids@.no_duplicates()
                && forall|x: u128| ids@.contains(x) <==> in_cycle_upto(objects@, objects@.len() as int, x),
            Err(e) => cycle_error_upto(objects@, objects@.len() as int) == Some(e),
        },
{
    let mut ids: Vec<u128> = Vec::new();
    let mut i: usize = 0;
    while i < objects.len()
        invariant
            i <= objects@.len(),
            cycle_error_upto(objects@, i as int) is None,
            ids@.no_duplicates(),
            forall|x: u128| ids@.contains(x) <==> in_cycle_upto(objects@, i as int, x),
        decreases objects@.len() - i,
    {
        let g = &objects[i];
        proof {
            assert(cycle_error_upto(objects@, i + 1) == genesis_error(objects@[i as int]));
        }
        if !same_text(g.object_type.as_str(), "genesis") {
            proof {
                assert forall|x: u128| ids@.contains(x) <==> in_cycle_upto(objects@, i + 1, x) by {
                    if in_cycle_upto(objects@, i + 1, x) {
                        let h = choose|h: int|
                            0 <= h < i + 1 && is_genesis(objects@[h]) && contributes(
                                objects@,
                                #[trigger] objects@[h],
                                x,
                            );
                        assert(h != i);
                    }
                }
            }
            i = i + 1;
            continue;
        }
        let ghost before = ids@;
        push_unique(&mut ids, g.id);
        let mut j: usize = 0;
        while j < g.dependencies.len()
            invariant
                j <= g.dependencies@.len(),
                ids@.no_duplicates(),
                forall|x: u128|
                    #[trigger] ids@.contains(x) <==> gathered(objects@, before, *g, j as int, x),
            decreases g.dependencies@.len() - j,
        {
            let d = g.dependencies[j];
            let ghost prev = ids@;
            if find_staged(objects, d, true) {
                push_unique(&mut ids, d);
            }
            proof {
                assert(g.dependencies@.subrange(0, j + 1) =~= g.dependencies@.subrange(0, j as int).push(d));
                assert forall|x: u128| #[trigger] ids@.contains(x) <== gathered(objects@, before, *g, j + 1, x) by {
                    assert(prev.contains(x) <==> gathered(objects@, before, *g, j as int, x));
                }
                assert forall|x: u128| #[trigger] ids@.contains(x) ==> gathered(objects@, before, *g, j + 1, x) by {
                    assert(prev.contains(x) <==> gathered(objects@, before, *g, j as int, x));
                    let upto = g.dependencies@.subrange(0, j as int);
                    if upto.contains(x) {
                        let k = choose|k: int| 0 <= k < upto.len() && upto[k] == x;
                        assert(g.dependencies@.subrange(0, j + 1)[k] == x);
                    }
                    if x == d {
                        assert(g.dependencies@.subrange(0, j + 1)[j as int] == d);
                    }
                }
            }
            j = j + 1;
        }
        assert(g.dependencies@.subrange(0, g.dependencies@.len() as int) =~= g.dependencies@);
        let body = match g.document.get("body") {
            Some(b) => b,
            None => {
                proof {
                    lemma_cycle_error_stays(objects@, i + 1, objects@.len() as int);
                }
                return Err(Error::Metadata);
            },
        };
        if !body.is_object() {
            proof {
                lemma_cycle_error_stays(objects@, i + 1, objects@.len() as int);
            }
            return Err(Error::Metadata);
        }
        let root = match parse_object_id_text(body.get("root_grant")) {
            Some(root) => root,
            None => {
                proof {
                    lemma_cycle_error_stays(objects@, i + 1, objects@.len() as int);
                }
                return Err(Error::InvalidLineage);
            },
        };
        if find_staged(objects, root, false) {
            push_unique(&mut ids, root);
        }
        proof {
            assert forall|x: u128| ids@.contains(x) <==> in_cycle_upto(objects@, i + 1, x) by {
                if in_cycle_upto(objects@, i + 1, x) && !in_cycle_upto(objects@, i as int, x) {
                    let h = choose|h: int|
                        0 <= h < i + 1 && is_genesis(objects@[h]) && contributes(
                            objects@,
                            #[trigger] objects@[h],
                            x,
                        );
                    assert(h == i);
                    if g.dependencies@.contains(x) && staged(objects@, x, true) {
                        let k = choose|k: int| 0 <= k < g.dependencies@.len() && g.dependencies@[k] == x;
                        assert(g.dependencies@[k] == x);
                    }
                }
                if ids@.contains(x) && !before.contains(x) {
                    if x != g.id && x != root {
                        let k = choose|k: int| 0 <= k < g.dependencies@.len() && #[trigger] g.dependencies@[k] == x;
                        assert(g.dependencies@.contains(x));
                    }
                    assert(contributes(objects@, objects@[i as int], x));
                }
            }
        }
        i = i + 1;
    }
    Ok(ids)
}

} // verus!
