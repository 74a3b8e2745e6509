//! The JSON documents that protocol objects are made of, as plain values.

use vstd::prelude::*;
use crate::ids::{parse_uuid_text, uuid_text_value};
use crate::text::same_text;

verus! {

/// A JSON value. Numbers keep their text; objects keep their members in
/// order, with distinct keys.
#[derive(Debug, PartialEq, Eq)]
pub enum JsonValue {
    Null,
    Bool(bool),
    Number(String),
    Text(String),
    Array(Vec<JsonValue>),
    Object(Vec<(String, JsonValue)>),
}

/// The value of the first member named `key`.
pub open spec fn member(fields: Seq<(String, JsonValue)>, key: Seq<char>) -> Option<JsonValue>
    decreases fields.len(),
{
    if fields.len() == 0 {
        None
    } else if fields[0].0@ == key {
        Some(fields[0].1)
    } else {
        member(fields.drop_first(), key)
    }
}

/// The member found for `key` is that of the first field with that key.
pub proof fn lemma_member_found(fields: Seq<(String, JsonValue)>, key: Seq<char>, i: int)
    requires
        0 <= i < fields.len(),
        fields[i].0@ == key,
        forall|j: int| 0 <= j < i ==> fields[j].0@ != key,
    ensures
        member(fields, key) == Some(fields[i].1),
    decreases i,
{
    if i > 0 {
        lemma_member_found(fields.drop_first(), key, i - 1);
    }
}

/// The member `key` of a JSON object; `None` for a missing member or a
/// value that is not an object.
pub open spec fn field(v: JsonValue, key: Seq<char>) -> Option<JsonValue> {
    match v {
        JsonValue::Object(fields) => member(fields@, key),
        _ => None,
    }
}

/// The member `key` of an optional object.
pub open spec fn field_of(v: Option<JsonValue>, key: Seq<char>) -> Option<JsonValue> {
    match v {
        Some(x) => field(x, key),
        None => None,
    }
}

/// The text of a JSON string.
pub open spec fn text_value(v: Option<JsonValue>) -> Option<Seq<char>> {
    match v {
        Some(JsonValue::Text(s)) => Some(s@),
        _ => None,
    }
}

/// The value is present and is an object.
pub open spec fn is_object(v: Option<JsonValue>) -> bool {
    v matches Some(JsonValue::Object(_))
}

/// The value is present and is `null`.
pub open spec fn is_null(v: Option<JsonValue>) -> bool {
    v matches Some(JsonValue::Null)
}

/// The identifier a JSON string holds, `None` for anything else.
pub open spec fn id_value(v: Option<JsonValue>) -> Option<u128> {
    match v {
        Some(JsonValue::Text(s)) => uuid_text_value(s@),
        _ => None,
    }
}

impl JsonValue {
    /// The member `key` of this value when it is an object.
    pub fn get(&self, key: &str) -> (r: Option<&JsonValue>)
        ensures
            match r {
                Some(v) => field(*self, key@) == Some(*v),
                None => field(*self, key@) is None,
            },
    {
        match self {
            JsonValue::Object(fields) => {
                let mut i: usize = 0;
                assert(field(*self, key@) == member(fields@, key@));
                assert(fields@.skip(0) =~= fields@);
                while i < fields.len()
                    invariant
                        i <= fields@.len(),
                        field(*self, key@) == member(fields@, key@),
                        member(fields@, key@) == member(fields@.skip(i as int), key@),
                    decreases fields@.len() - i,
                {
                    proof {
                        assert(fields@.skip(i as int).drop_first() =~= fields@.skip(i + 1));
                        assert(fields@.skip(i as int)[0] == fields@[i as int]);
                    }
                    if same_text(fields[i].0.as_str(), key) {
                        assert(member(fields@.skip(i as int), key@) == Some(fields@[i as int].1));
                        return Some(&fields[i].1);
                    }
                    i = i + 1;
                }
                None
            },
            _ => None,
        }
    }

    /// The text of this value when it is a string.
    pub fn as_text(&self) -> (r: Option<&str>)
        ensures
            match r {
                Some(s) => text_value(Some(*self)) == Some(s@),
                None => text_value(Some(*self)) is None,
            },
    {
        match self {
            JsonValue::Text(s) => Some(s.as_str()),
            _ => None,
        }
    }

    /// Whether this value is `null`.
    pub fn is_null(&self) -> (r: bool)
        ensures
            r == (*self matches JsonValue::Null),
    {
        match self {
            JsonValue::Null => true,
            _ => false,
        }
    }

    /// Whether this value is an object.
    pub fn is_object(&self) -> (r: bool)
        ensures
            r == (*self matches JsonValue::Object(_)),
    {
        match self {
            JsonValue::Object(_) => true,
            _ => false,
        }
    }
}

/// The value of a decimal numeral: its digits, most significant first.
pub open spec fn decimal_value(t: Seq<char>) -> nat
    decreases t.len(),
{
    if t.len() == 0 {
        0
    } else {
        decimal_value(t.drop_last()) * 10 + (t.last() as nat - '0' as nat) as nat
    }
}

/// The text is a non-empty run of ASCII digits.
pub open spec fn all_digits(t: Seq<char>) -> bool {
    t.len() > 0 && forall|i: int| 0 <= i < t.len() ==> '0' <= #[trigger] t[i] <= '9'
}

/// The unsigned 64-bit integer a JSON value holds: a number written with
/// digits alone whose value fits. Numbers with a sign, a fraction or an
/// exponent hold none.
pub open spec fn u64_value(v: Option<JsonValue>) -> Option<u64> {
    match v {
        Some(JsonValue::Number(t)) => if all_digits(t@) && decimal_value(t@) <= u64::MAX {
            Some(decimal_value(t@) as u64)
        } else {
            None
        },
        _ => None,
    }
}

impl JsonValue {
    /// The unsigned 64-bit integer this value holds, if any.
    pub fn as_u64(&self) -> (r: Option<u64>)
        ensures
            r == u64_value(Some(*self)),
    {
        let t = match self {
            JsonValue::Number(t) => t,
            _ => return None,
        };
        let chars = t.as_str();
        let n = chars.unicode_len();
        if n == 0 {
            return None;
        }
        let mut value: u64 = 0;
        let mut i: usize = 0;
        while i < n
            invariant
                n == chars@.len(),
                *self == JsonValue::Number(*t),
                chars@ == t@,
                i <= n,
                forall|k: int| 0 <= k < i ==> '0' <= #[trigger] chars@[k] <= '9',
                value == decimal_value(chars@.take(i as int)),
            decreases n - i,
        {
            let c = chars.get_char(i);
            if c < '0' || c > '9' {
                assert(!all_digits(t@));
                return None;
            }
            let d: u64 = (c as u32 - '0' as u32) as u64;
            assert(chars@.take(i + 1).drop_last() =~= chars@.take(i as int));
            if value > (u64::MAX - d) / 10 {
                proof {
                    if all_digits(chars@) {
                        lemma_decimal_prefix_bound(chars@, i as int + 1);
                    }
                }
                return None;
            }
            value = value * 10 + d;
            i = i + 1;
        }
        assert(chars@.take(n as int) =~= chars@);
        Some(value)
    }
}

/// The value of a numeral is at least that of any of its prefixes.
proof fn lemma_decimal_prefix_bound(t: Seq<char>, k: int)
    requires
        0 <= k <= t.len(),
        forall|i: int| 0 <= i < t.len() ==> '0' <= #[trigger] t[i] <= '9',
    ensures
        decimal_value(t.take(k)) <= decimal_value(t),
    decreases t.len() - k,
{
    if k < t.len() {
        lemma_decimal_prefix_bound(t, k + 1);
        assert(t.take(k + 1).drop_last() =~= t.take(k));
    } else {
        assert(t.take(k) =~= t);
    }
}

/// The member `key` of an optional value.
pub fn get_of<'a>(v: Option<&'a JsonValue>, key: &str) -> (r: Option<&'a JsonValue>)
    ensures
        match r {
            Some(x) => field_of(match v {
                Some(y) => Some(*y),
                None => None,
            }, key@) == Some(*x),
            None => field_of(match v {
                Some(y) => Some(*y),
                None => None,
            }, key@) is None,
        },
{
    match v {
        Some(x) => x.get(key),
        None => None,
    }
}

/// Reads an object identifier from a JSON string.
pub fn parse_object_id_text(value: Option<&JsonValue>) -> (r: Option<u128>)
    ensures
        r == id_value(match value {
            Some(y) => Some(*y),
            None => None,
        }),
{
    match value {
        Some(JsonValue::Text(s)) => parse_uuid_text(s.as_str()),
        _ => None,
    }
}

/// Structural JSON equality, as serde_json compares values: scalars by
/// value (numbers by their text), arrays item by item, and objects as maps
/// (the same number of members, each member of one found with an equal
/// value in the other; members have distinct keys).
pub open spec fn json_same(a: JsonValue, b: JsonValue) -> bool
    decreases a,
{
    match (a, b) {
        (JsonValue::Null, JsonValue::Null) => true,
        (JsonValue::Bool(x), JsonValue::Bool(y)) => x == y,
        (JsonValue::Number(x), JsonValue::Number(y)) => x@ == y@,
        (JsonValue::Text(x), JsonValue::Text(y)) => x@ == y@,
        (JsonValue::Array(xs), JsonValue::Array(ys)) => xs@.len() == ys@.len() && items_same(xs@, ys@),
        (JsonValue::Object(fs), JsonValue::Object(gs)) => fs@.len() == gs@.len() && members_same(
            fs@,
            gs@,
        ),
        _ => false,
    }
}

/// The items of `xs` equal those of `ys`, in order.
pub open spec fn items_same(xs: Seq<JsonValue>, ys: Seq<JsonValue>) -> bool
    decreases xs,
{
    if xs.len() == 0 {
        true
    } else {
        ys.len() > 0 && json_same(xs[0], ys[0]) && items_same(
            xs.subrange(1, xs.len() as int),
            ys.subrange(1, ys.len() as int),
        )
    }
}

/// Each member of `fs` has an equal member of the same key in `gs`.
pub open spec fn members_same(fs: Seq<(String, JsonValue)>, gs: Seq<(String, JsonValue)>) -> bool
    decreases fs,
{
    if fs.len() == 0 {
        true
    } else {
        match member(gs, fs[0].0@) {
            Some(w) => json_same(fs[0].1, w) && members_same(fs.subrange(1, fs.len() as int), gs),
            None => false,
        }
    }
}

/// Two optional members are the same: both absent, or equal values.
pub open spec fn same_member(a: Option<JsonValue>, b: Option<JsonValue>) -> bool {
    match (a, b) {
        (None, None) => true,
        (Some(x), Some(y)) => json_same(x, y),
        _ => false,
    }
}

/// Compares two JSON values; see [`json_same`].
pub fn json_equal(a: &JsonValue, b: &JsonValue) -> (r: bool)
    ensures
        r == json_same(*a, *b),
    decreases *a,
{
    match (a, b) {
        (JsonValue::Null, JsonValue::Null) => true,
        (JsonValue::Bool(x), JsonValue::Bool(y)) => *x == *y,
        (JsonValue::Number(x), JsonValue::Number(y)) => same_text(x.as_str(), y.as_str()),
        (JsonValue::Text(x), JsonValue::Text(y)) => same_text(x.as_str(), y.as_str()),
        (JsonValue::Array(xs), JsonValue::Array(ys)) => {
            if xs.len() != ys.len() {
                return false;
            }
            let mut i: usize = 0;
            assert(xs@.subrange(0, xs@.len() as int) =~= xs@);
            assert(ys@.subrange(0, ys@.len() as int) =~= ys@);
            while i < xs.len()
                invariant
                    *a == JsonValue::Array(*xs),
                    *b == JsonValue::Array(*ys),
                    xs@.len() == ys@.len(),
                    i <= xs@.len(),
                    items_same(xs@, ys@) == items_same(
                        xs@.subrange(i as int, xs@.len() as int),
                        ys@.subrange(i as int, ys@.len() as int),
                    ),
                decreases xs@.len() - i,
            {
                let ghost rx = xs@.subrange(i as int, xs@.len() as int);
                let ghost ry = ys@.subrange(i as int, ys@.len() as int);
                proof {
                    assert(rx[0] == xs@[i as int]);
                    assert(ry[0] == ys@[i as int]);
                    assert(rx.subrange(1, rx.len() as int) =~= xs@.subrange(i + 1, xs@.len() as int));
                    assert(ry.subrange(1, ry.len() as int) =~= ys@.subrange(i + 1, ys@.len() as int));
                    assert(decreases_to!(*a => (*a)->Array_0));
                    assert((*a)->Array_0 == *xs);
                    assert(decreases_to!(*xs => xs@));
                    assert(decreases_to!(xs@ => xs@[i as int]));
                    assert(decreases_to!(*a => xs@[i as int]));
                }
                if !json_equal(&xs[i], &ys[i]) {
                    return false;
                }
                i = i + 1;
            }
            true
        },
        (JsonValue::Object(fs), JsonValue::Object(gs)) => {
            if fs.len() != gs.len() {
                return false;
            }
            let mut i: usize = 0;
            assert(fs@.subrange(0, fs@.len() as int) =~= fs@);
            while i < fs.len()
                invariant
                    *a == JsonValue::Object(*fs),
                    *b == JsonValue::Object(*gs),
                    i <= fs@.len(),
                    members_same(fs@, gs@) == members_same(fs@.subrange(i as int, fs@.len() as int), gs@),
                decreases fs@.len() - i,
            {
                let ghost rf = fs@.subrange(i as int, fs@.len() as int);
                proof {
                    assert(rf[0] == fs@[i as int]);
                    assert(rf.subrange(1, rf.len() as int) =~= fs@.subrange(i + 1, fs@.len() as int));
                    assert(decreases_to!(*a => (*a)->Object_0));
                    assert((*a)->Object_0 == *fs);
                    assert(decreases_to!(*fs => fs@));
                    assert(decreases_to!(fs@ => fs@[i as int]));
                    assert(decreases_to!(fs@[i as int] => fs@[i as int].1));
                    assert(decreases_to!(*a => fs@[i as int].1));
                }
                match b.get(fs[i].0.as_str()) {
                    Some(w) => {
                        if !json_equal(&fs[i].1, w) {
                            return false;
                        }
                    },
                    None => {
                        return false;
                    },
                }
                i = i + 1;
            }
            true
        },
        _ => false,
    }
}

/// Compares two optional members; see [`same_member`].
pub fn same_member_check(a: Option<&JsonValue>, b: Option<&JsonValue>) -> (r: bool)
    ensures
        r == same_member(
            match a {
                Some(x) => Some(*x),
                None => None,
            },
            match b {
                Some(x) => Some(*x),
                None => None,
            },
        ),
{
    match (a, b) {
        (None, None) => true,
        (Some(x), Some(y)) => json_equal(x, y),
        _ => false,
    }
}

} // verus!
