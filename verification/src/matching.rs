//! Choosing the objects a short reference resolves to, among the rows its
//! key ranges found.

use vstd::prelude::*;
use crate::reference::{
    all_hex, blob_le, has_hex_prefix, law_prefix_range_exact, law_uuid_prefix_range_exact,
    no_upper_hex, prefix_range_spec, reference_plan_spec, split_reference_spec, tail_matches,
    text_starts_with, uuid_prefix_range_spec, uuid_tail_prefix_matches, uuid_text, ReferencePlanModel,
};
use crate::text::{ascii_lower, ascii_lower_text};
use crate::text::same_text;

verus! {

/// An object found by one of a reference's key ranges.
pub struct ReferenceCandidate {
    pub object_id: u128,
    pub content_hash: [u8; 32],
    pub object_type: String,
    pub ledger_id: Vec<u8>,
}

/// Byte-wise lexicographic order of equally long byte strings.
pub open spec fn bytes_lt(a: Seq<u8>, b: Seq<u8>) -> bool {
    exists|i: int|
        0 <= i < a.len() && i < b.len() && a.take(i) == b.take(i) && #[trigger] a[i] < b[i]
}

/// The order of matches: by content hash, then by object id.
pub open spec fn key_lt(a: ReferenceCandidate, b: ReferenceCandidate) -> bool {
    bytes_lt(a.content_hash@, b.content_hash@) || (a.content_hash@ == b.content_hash@
        && a.object_id < b.object_id)
}

/// Where a stable insertion puts `x` into `s`: after the last element that
/// is not greater than `x`.
pub open spec fn insert_pos(s: Seq<ReferenceCandidate>, x: ReferenceCandidate) -> int
    decreases s.len(),
{
    if s.len() == 0 {
        0
    } else if key_lt(x, s.last()) {
        insert_pos(s.drop_last(), x)
    } else {
        s.len() as int
    }
}

/// Stable sort of `s` by [`key_lt`].
pub open spec fn sort_spec(s: Seq<ReferenceCandidate>) -> Seq<ReferenceCandidate>
    decreases s.len(),
{
    if s.len() == 0 {
        s
    } else {
        let sorted = sort_spec(s.drop_last());
        sorted.insert(insert_pos(sorted, s.last()), s.last())
    }
}

/// Drops each element whose object id equals that of the element kept just
/// before it.
pub open spec fn dedup_spec(s: Seq<ReferenceCandidate>) -> Seq<ReferenceCandidate>
    decreases s.len(),
{
    if s.len() == 0 {
        s
    } else {
        let d = dedup_spec(s.drop_last());
        if d.len() > 0 && d.last().object_id == s.last().object_id {
            d
        } else {
            d.push(s.last())
        }
    }
}

/// A match is kept when its id fits the short reference's tail (if any),
/// it belongs to the ledger, and its type is allowed (all types when none
/// is listed).
pub open spec fn keeps(
    tail: Option<Seq<char>>,
    ledger: Seq<u8>,
    allowed: Seq<&str>,
    c: ReferenceCandidate,
) -> bool {
    &&& match tail {
        Some(t) => tail_matches(c.object_id, t),
        None => true,
    }
    &&& c.ledger_id@ == ledger
    &&& (allowed.len() == 0 || exists|i: int| 0 <= i < allowed.len() && allowed[i]@ == c.object_type@)
}

pub open spec fn keep_pred(tail: Option<Seq<char>>, ledger: Seq<u8>, allowed: Seq<&str>) -> spec_fn(
    ReferenceCandidate,
) -> bool {
    |c: ReferenceCandidate| keeps(tail, ledger, allowed, c)
}

/// The matches a reference resolves to.
pub open spec fn selection_spec(
    matches: Seq<ReferenceCandidate>,
    tail: Option<Seq<char>>,
    ledger: Seq<u8>,
    allowed: Seq<&str>,
) -> Seq<ReferenceCandidate> {
    dedup_spec(sort_spec(matches.filter(keep_pred(tail, ledger, allowed))))
}

fn less(a: &ReferenceCandidate, b: &ReferenceCandidate) -> (r: bool)
    ensures
        r == key_lt(*a, *b),
{
    let mut i: usize = 0;
    while i < 32
        invariant
            i <= 32,
            a.content_hash@.len() == 32,
            b.content_hash@.len() == 32,
            a.content_hash@.take(i as int) == b.content_hash@.take(i as int),
        decreases 32 - i,
    {
        let x = a.content_hash[i];
        let y = b.content_hash[i];
        if x != y {
            proof {
                if x < y {
                    assert(bytes_lt(a.content_hash@, b.content_hash@));
                } else {
                    assert(!bytes_lt(a.content_hash@, b.content_hash@)) by {
                        if bytes_lt(a.content_hash@, b.content_hash@) {
                            let j = choose|j: int|
                                0 <= j < 32 && a.content_hash@.take(j) == b.content_hash@.take(j)
                                    && #[trigger] a.content_hash@[j] < b.content_hash@[j];
                            if j < i {
                                assert(a.content_hash@.take(i as int)[j] == a.content_hash@[j]);
                                assert(b.content_hash@.take(i as int)[j] == b.content_hash@[j]);
                            } else if j > i {
                                assert(a.content_hash@.take(j)[i as int] == x);
                                assert(b.content_hash@.take(j)[i as int] == y);
                            }
                        }
                    }
                }
            }
            return x < y;
        }
        proof {
            assert(a.content_hash@.take(i + 1) =~= a.content_hash@.take(i as int).push(x));
            assert(b.content_hash@.take(i + 1) =~= b.content_hash@.take(i as int).push(y));
        }
        i = i + 1;
    }
    proof {
        assert(a.content_hash@ =~= a.content_hash@.take(32));
        assert(b.content_hash@ =~= b.content_hash@.take(32));
        assert(!bytes_lt(a.content_hash@, b.content_hash@)) by {
            if bytes_lt(a.content_hash@, b.content_hash@) {
                let j = choose|j: int|
                    0 <= j < 32 && a.content_hash@.take(j) == b.content_hash@.take(j)
                        && #[trigger] a.content_hash@[j] < b.content_hash@[j];
            }
        }
    }
    a.object_id < b.object_id
}

fn type_allowed(allowed: &[&str], t: &str) -> (r: bool)
    ensures
        r == (allowed@.len() == 0 || exists|i: int|
            0 <= i < allowed@.len() && allowed@[i]@ == t@),
{
    if allowed.len() == 0 {
        return true;
    }
    let mut i: usize = 0;
    while i < allowed.len()
        invariant
            i <= allowed@.len(),
            forall|j: int| 0 <= j < i ==> allowed@[j]@ != t@,
        decreases allowed@.len() - i,
    {
        if same_text(allowed[i], t) {
            return true;
        }
        i = i + 1;
    }
    false
}

fn bytes_equal(a: &[u8], b: &[u8]) -> (r: bool)
    ensures
        r == (a@ == b@),
{
    if a.len() != b.len() {
        return false;
    }
    let mut i: usize = 0;
    while i < a.len()
        invariant
            a@.len() == b@.len(),
            i <= a@.len(),
            forall|j: int| 0 <= j < i ==> a@[j] == b@[j],
        decreases a@.len() - i,
    {
        if a[i] != b[i] {
            return false;
        }
        i = i + 1;
    }
    assert(a@ =~= b@);
    true
}

/// Selects the objects a reference resolves to: the matches that fit the
/// reference's tail, the ledger and the allowed types, ordered by content
/// hash and object id, with repeated objects removed.
pub fn select_reference_matches(
    matches: Vec<ReferenceCandidate>,
    tail: Option<&str>,
    ledger: &[u8],
    allowed_types: &[&str],
) -> (r: Vec<ReferenceCandidate>)
    ensures
        r@ == selection_spec(
            matches@,
            match tail {
                Some(t) => Some(t@),
                None => None,
            },
            ledger@,
            allowed_types@,
        ),
{
    let ghost t = match tail {
        Some(t) => Some(t@),
        None => None,
    };
    let ghost given = matches@;
    let ghost pred = keep_pred(t, ledger@, allowed_types@);
    let mut rest = matches;
    let mut sorted: Vec<ReferenceCandidate> = Vec::new();
    let mut i: usize = 0;
    let n = rest.len();
    assert(given.skip(0) =~= given);
    while i < n
        invariant
            n == given.len(),
            i <= n,
            rest@ == given.skip(i as int),
            pred == keep_pred(t, ledger@, allowed_types@),
            t == match tail {
                Some(t) => Some(t@),
                None => None::<Seq<char>>,
            },
            sorted@ == sort_spec(given.take(i as int).filter(pred)),
        decreases n - i,
    {
        let c = rest.remove(0);
        proof {
            assert(c == given[i as int]);
            assert(rest@ =~= given.skip(i + 1));
            reveal(Seq::filter);
            assert(given.take(i + 1).drop_last() =~= given.take(i as int));
            assert(given.take(i + 1).last() == c);
        }
        let tail_ok = match tail {
            Some(tl) => uuid_tail_prefix_matches(c.object_id, tl),
            None => true,
        };
        let keep = tail_ok && bytes_equal(c.ledger_id.as_slice(), ledger) && type_allowed(
            allowed_types,
            c.object_type.as_str(),
        );
        proof {
            assert(keep == pred(c));
        }
        if keep {
            let ghost before = sorted@;
            let mut p = sorted.len();
            assert(before.take(p as int) =~= before);
            while p > 0 && less(&c, &sorted[p - 1])
                invariant
                    sorted@ == before,
                    p <= before.len(),
                    insert_pos(before, c) == insert_pos(before.take(p as int), c),
                decreases p,
            {
                proof {
                    assert(before.take(p as int).last() == before[p - 1]);
                    assert(before.take(p as int).drop_last() =~= before.take(p - 1));
                }
                p = p - 1;
            }
            proof {
                if p > 0 {
                    assert(before.take(p as int).last() == before[p - 1]);
                }
                assert(insert_pos(before.take(p as int), c) == p);
            }
            sorted.insert(p, c);
            proof {
                let kept_after = given.take(i + 1).filter(pred);
                assert(kept_after.drop_last() == given.take(i as int).filter(pred));
                assert(kept_after.last() == c);
            }
        } else {
            proof {
                assert(given.take(i + 1).filter(pred) == given.take(i as int).filter(pred));
            }
        }
        i = i + 1;
    }
    assert(given.take(n as int) =~= given);
    let ghost s = sorted@;
    let mut out: Vec<ReferenceCandidate> = Vec::new();
    let m = sorted.len();
    let mut j: usize = 0;
    assert(s.skip(0) =~= s);
    while j < m
        invariant
            m == s.len(),
            j <= m,
            sorted@ == s.skip(j as int),
            out@ == dedup_spec(s.take(j as int)),
        decreases m - j,
    {
        let c = sorted.remove(0);
        proof {
            assert(c == s[j as int]);
            assert(sorted@ =~= s.skip(j + 1));
            assert(s.take(j + 1).drop_last() =~= s.take(j as int));
            assert(s.take(j + 1).last() == c);
        }
        let dup = out.len() > 0 && out[out.len() - 1].object_id == c.object_id;
        if !dup {
            out.push(c);
        }
        j = j + 1;
    }
    assert(s.take(m as int) =~= s);
    out
}

/// The sixteen bytes of an identifier, most significant first (the order
/// the store keeps them in).
pub open spec fn id_bytes(x: u128) -> Seq<u8> {
    Seq::new(16, |i: int| ((x >> ((8 * (15 - i)) as u128)) & 0xff) as u8)
}

/// A stored object lies in one of a plan's key ranges: its identifier
/// bytes in the object range, or its content hash in the hash range.
pub open spec fn in_plan_ranges(plan: ReferencePlanModel, c: ReferenceCandidate) -> bool {
    ||| (plan.object_id_range matches Some((low, high)) && blob_le(low, id_bytes(c.object_id))
        && blob_le(id_bytes(c.object_id), high))
    ||| (plan.content_hash_range matches Some((low, high)) && blob_le(low, c.content_hash@)
        && blob_le(c.content_hash@, high))
}

/// A stored object fits the (lower-cased) reference `n`: for a `head-tail`
/// short form, its identifier's hex digits start with the head and its last
/// twelve digits with the tail; otherwise its canonical hyphenated id text
/// starts with `n`, or `n` is a dash-free hex prefix of its content hash.
pub open spec fn reference_matches(n: Seq<char>, c: ReferenceCandidate) -> bool {
    match split_reference_spec(n) {
        Some((head, tail)) => has_hex_prefix(id_bytes(c.object_id), head) && tail_matches(
            c.object_id,
            tail,
        ),
        None => (n.len() > 0 && text_starts_with(uuid_text(id_bytes(c.object_id)), n)) || (
        !n.contains('-') && all_hex(n) && 0 < n.len() <= 64 && has_hex_prefix(c.content_hash@, n)),
    }
}

/// The type of `c` is allowed (every type, when none is listed).
pub open spec fn type_is_allowed(allowed: Seq<&str>, c: ReferenceCandidate) -> bool {
    allowed.len() == 0 || exists|i: int| 0 <= i < allowed.len() && allowed[i]@ == c.object_type@
}

/// The tail a plan hands to the selection.
pub open spec fn plan_tail(plan: ReferencePlanModel) -> Option<Seq<char>> {
    match plan.split {
        Some((_, t)) => Some(t),
        None => None,
    }
}

/// No two elements share an object id unless they are the same object.
pub open spec fn ids_are_keys(s: Seq<ReferenceCandidate>) -> bool {
    forall|i: int, j: int|
        0 <= i < s.len() && 0 <= j < s.len() && #[trigger] s[i].object_id == #[trigger] s[j].object_id
            ==> s[i] == s[j]
}

proof fn lemma_lower_has_no_upper_hex(r: Seq<char>)
    ensures
        no_upper_hex(ascii_lower_text(r)),
{
    assert forall|i: int| 0 <= i < ascii_lower_text(r).len() implies !('A' <= #[trigger] ascii_lower_text(
        r,
    )[i] && ascii_lower_text(r)[i] <= 'F') by {
        let c = r[i];
        assert(ascii_lower_text(r)[i] == ascii_lower(c));
        if 'A' <= c && c <= 'Z' {
            vstd::utf8::char_u32_cast(ascii_lower(c), ascii_lower(c) as u32);
        }
    }
}

proof fn lemma_insert_contains(s: Seq<ReferenceCandidate>, k: int, x: ReferenceCandidate, y: ReferenceCandidate)
    requires
        0 <= k <= s.len(),
    ensures
        s.insert(k, x).contains(y) <==> (s.contains(y) || y == x),
{
    let t = s.insert(k, x);
    if s.contains(y) {
        let j = choose|j: int| 0 <= j < s.len() && s[j] == y;
        if j < k {
            assert(t[j] == y);
        } else {
            assert(t[j + 1] == y);
        }
    }
    if y == x {
        assert(t[k] == x);
    }
    if t.contains(y) {
        let j = choose|j: int| 0 <= j < t.len() && t[j] == y;
        if j < k {
            assert(s[j] == y);
        } else if j > k {
            assert(s[j - 1] == y);
        }
    }
}

proof fn lemma_insert_pos_bounds(s: Seq<ReferenceCandidate>, x: ReferenceCandidate)
    ensures
        0 <= insert_pos(s, x) <= s.len(),
    decreases s.len(),
{
    if s.len() > 0 && key_lt(x, s.last()) {
        lemma_insert_pos_bounds(s.drop_last(), x);
    }
}

/// Sorting keeps exactly the elements.
proof fn lemma_sort_contains(s: Seq<ReferenceCandidate>, y: ReferenceCandidate)
    ensures
        sort_spec(s).contains(y) <==> s.contains(y),
    decreases s.len(),
{
    if s.len() > 0 {
        let sorted = sort_spec(s.drop_last());
        lemma_sort_contains(s.drop_last(), y);
        lemma_sort_len(s.drop_last());
        lemma_insert_pos_bounds(sorted, s.last());
        lemma_insert_contains(sorted, insert_pos(sorted, s.last()), s.last(), y);
        if s.contains(y) && y != s.last() {
            let j = choose|j: int| 0 <= j < s.len() && s[j] == y;
            assert(s.drop_last()[j] == y);
        }
        if s.drop_last().contains(y) {
            let j = choose|j: int| 0 <= j < s.drop_last().len() && s.drop_last()[j] == y;
            assert(s[j] == y);
        }
        assert(s[s.len() - 1] == s.last());
    }
}

proof fn lemma_sort_len(s: Seq<ReferenceCandidate>)
    ensures
        sort_spec(s).len() == s.len(),
    decreases s.len(),
{
    if s.len() > 0 {
        lemma_sort_len(s.drop_last());
        lemma_insert_pos_bounds(sort_spec(s.drop_last()), s.last());
    }
}

/// Removing repeated ids keeps every element when equal ids mean equal
/// objects.
proof fn lemma_dedup_contains(s: Seq<ReferenceCandidate>, y: ReferenceCandidate)
    requires
        ids_are_keys(s),
    ensures
        dedup_spec(s).contains(y) <==> s.contains(y),
        forall|z: ReferenceCandidate| dedup_spec(s).contains(z) ==> s.contains(z),
    decreases s.len(),
{
    if s.len() > 0 {
        let p = s.drop_last();
        assert(ids_are_keys(p)) by {
            assert forall|i: int, j: int|
                0 <= i < p.len() && 0 <= j < p.len() && #[trigger] p[i].object_id == #[trigger] p[j].object_id
                    implies p[i] == p[j] by {
                assert(s[i] == p[i] && s[j] == p[j]);
            }
        }
        lemma_dedup_contains(p, y);
        let d = dedup_spec(p);
        assert forall|z: ReferenceCandidate| d.contains(z) implies s.contains(z) by {
            lemma_dedup_contains(p, z);
            let j = choose|j: int| 0 <= j < p.len() && p[j] == z;
            assert(s[j] == z);
        }
        if d.len() > 0 && d.last().object_id == s.last().object_id {
            assert(d.contains(d.last())) by {
                assert(d[d.len() - 1] == d.last());
            }
            let j = choose|j: int| 0 <= j < s.len() && s[j] == d.last();
            assert(s[s.len() - 1] == s.last());
            assert(s[j] == s[s.len() - 1]);
        }
        if s.contains(y) && y != s.last() {
            let j = choose|j: int| 0 <= j < s.len() && s[j] == y;
            assert(p[j] == y);
        }
        if p.contains(y) {
            let j = choose|j: int| 0 <= j < p.len() && p[j] == y;
            assert(s[j] == y);
        }
        assert(s[s.len() - 1] == s.last());
        let dd = dedup_spec(s);
        assert forall|z: ReferenceCandidate| dd.contains(z) implies s.contains(z) by {
            if d.contains(z) {
            } else {
                let j = choose|j: int| 0 <= j < dd.len() && dd[j] == z;
                assert(j == d.len());
            }
        }
        if !(d.len() > 0 && d.last().object_id == s.last().object_id) {
            assert(d.push(s.last())[d.len() as int] == s.last());
            if d.contains(y) {
                let j = choose|j: int| 0 <= j < d.len() && d[j] == y;
                assert(d.push(s.last())[j] == y);
            }
        }
    }
}

proof fn lemma_found_is_candidate(
    reference: Seq<char>,
    ledger: Seq<u8>,
    allowed: Seq<&str>,
    c: ReferenceCandidate,
)
    requires
        c.content_hash@.len() == 32,
    ensures
        (in_plan_ranges(reference_plan_spec(reference), c) && keeps(
            plan_tail(reference_plan_spec(reference)),
            ledger,
            allowed,
            c,
        )) <==> (c.ledger_id@ == ledger && type_is_allowed(allowed, c) && reference_matches(
            ascii_lower_text(reference),
            c,
        )),
{
    let n = ascii_lower_text(reference);
    let plan = reference_plan_spec(reference);
    let v = id_bytes(c.object_id);
    match split_reference_spec(n) {
        Some((head, tail)) => {
            assert(n[5] == '-');
            assert(n.contains('-'));
            assert(all_hex(head));
            assert(head.len() == 5);
            law_prefix_range_exact(head, 16, v);
        },
        None => {
            lemma_lower_has_no_upper_hex(reference);
            law_uuid_prefix_range_exact(n, v);
            if !n.contains('-') && all_hex(n) && prefix_range_spec(n, 32) is Some {
                law_prefix_range_exact(n, 32, c.content_hash@);
            }
        },
    }
}

/// Law: resolving a short reference gives exactly the stored objects of
/// the ledger, of an allowed type, that the lower-cased reference fits
/// ([`reference_matches`]), when `found` holds exactly the stored objects
/// that the plan's key ranges find (in any order, any number of times) and
/// object ids are keys of the store.
pub proof fn law_resolution_exact(
    reference: Seq<char>,
    stored: Seq<ReferenceCandidate>,
    found: Seq<ReferenceCandidate>,
    ledger: Seq<u8>,
    allowed: Seq<&str>,
)
    requires
        ids_are_keys(stored),
        forall|c: ReferenceCandidate|
            #[trigger] found.contains(c) <==> stored.contains(c) && in_plan_ranges(
                reference_plan_spec(reference),
                c,
            ),
    ensures
        forall|c: ReferenceCandidate|
            #[trigger] selection_spec(found, plan_tail(reference_plan_spec(reference)), ledger, allowed).contains(c)
                <==> (stored.contains(c) && c.ledger_id@ == ledger && type_is_allowed(allowed, c)
                && reference_matches(ascii_lower_text(reference), c)),
{
    let tail = plan_tail(reference_plan_spec(reference));
    let pred = keep_pred(tail, ledger, allowed);
    let f = found.filter(pred);
    let sorted = sort_spec(f);
    assert forall|c: ReferenceCandidate| #[trigger] f.contains(c) <==> found.contains(c) && pred(c) by {
        if found.contains(c) && pred(c) {
            let j = choose|j: int| 0 <= j < found.len() && found[j] == c;
            found.lemma_filter_contains(pred, j);
        }
        if f.contains(c) {
            found.lemma_filter_contains_rev(pred, c);
            let j = choose|j: int| 0 <= j < f.len() && f[j] == c;
            #[allow(deprecated)]
            found.filter_lemma(pred);
        }
    }
    assert(ids_are_keys(sorted)) by {
        assert forall|i: int, j: int|
            0 <= i < sorted.len() && 0 <= j < sorted.len() && #[trigger] sorted[i].object_id
                == #[trigger] sorted[j].object_id implies sorted[i] == sorted[j] by {
            assert(sorted.contains(sorted[i]));
            assert(sorted.contains(sorted[j]));
            lemma_sort_contains(f, sorted[i]);
            lemma_sort_contains(f, sorted[j]);
            let a = choose|a: int| 0 <= a < stored.len() && stored[a] == sorted[i];
            let b = choose|b: int| 0 <= b < stored.len() && stored[b] == sorted[j];
        }
    }
    assert forall|c: ReferenceCandidate|
        #[trigger] selection_spec(found, tail, ledger, allowed).contains(c) <==> (stored.contains(c)
            && c.ledger_id@ == ledger && type_is_allowed(allowed, c) && reference_matches(
            ascii_lower_text(reference),
            c,
        )) by {
        lemma_dedup_contains(sorted, c);
        lemma_sort_contains(f, c);
        lemma_found_is_candidate(reference, ledger, allowed, c);
    }
}

/// `a` comes no later than `b` in the order of matches.
pub open spec fn key_le(a: ReferenceCandidate, b: ReferenceCandidate) -> bool {
    !key_lt(b, a)
}

/// The matches are in the order of [`key_lt`].
pub open spec fn sorted_by_key(s: Seq<ReferenceCandidate>) -> bool {
    forall|i: int, j: int| 0 <= i < j < s.len() ==> key_le(#[trigger] s[i], #[trigger] s[j])
}

/// No object id occurs twice.
pub open spec fn ids_distinct(s: Seq<ReferenceCandidate>) -> bool {
    forall|i: int, j: int|
        0 <= i < s.len() && 0 <= j < s.len() && i != j ==> #[trigger] s[i].object_id != #[trigger] s[j].object_id
}

proof fn lemma_bytes_lt_asym(a: Seq<u8>, b: Seq<u8>)
    ensures
        !(bytes_lt(a, b) && bytes_lt(b, a)),
{
    if bytes_lt(a, b) && bytes_lt(b, a) {
        let i = choose|i: int| 0 <= i < a.len() && i < b.len() && a.take(i) == b.take(i) && #[trigger] a[i] < b[i];
        let j = choose|j: int| 0 <= j < b.len() && j < a.len() && b.take(j) == a.take(j) && #[trigger] b[j] < a[j];
        if i < j {
            assert(a.take(j)[i] == b.take(j)[i]);
        } else if j < i {
            assert(a.take(i)[j] == b.take(i)[j]);
        }
    }
}

proof fn lemma_bytes_lt_trans(a: Seq<u8>, b: Seq<u8>, c: Seq<u8>)
    requires
        bytes_lt(a, b),
        bytes_lt(b, c),
    ensures
        bytes_lt(a, c),
{
    let i = choose|i: int| 0 <= i < a.len() && i < b.len() && a.take(i) == b.take(i) && #[trigger] a[i] < b[i];
    let j = choose|j: int| 0 <= j < b.len() && j < c.len() && b.take(j) == c.take(j) && #[trigger] b[j] < c[j];
    if i < j {
        assert(b.take(j)[i] == c.take(j)[i]);
        assert(a.take(i) =~= c.take(i)) by {
            assert forall|k: int| 0 <= k < i implies a.take(i)[k] == c.take(i)[k] by {
                assert(a.take(i)[k] == b.take(i)[k]);
                assert(b.take(j)[k] == c.take(j)[k]);
            }
        }
        assert(a[i] < c[i]);
    } else if j < i {
        assert(a.take(i)[j] == b.take(i)[j]);
        assert(a.take(j) =~= c.take(j)) by {
            assert forall|k: int| 0 <= k < j implies a.take(j)[k] == c.take(j)[k] by {
                assert(a.take(i)[k] == b.take(i)[k]);
                assert(b.take(j)[k] == c.take(j)[k]);
            }
        }
        assert(a[j] < c[j]);
    } else {
        assert(a.take(i) =~= c.take(i));
        assert(a[i] < c[i]);
    }
}

proof fn lemma_bytes_total_from(a: Seq<u8>, b: Seq<u8>, k: int)
    requires
        a.len() == b.len(),
        0 <= k <= a.len(),
        a.take(k) == b.take(k),
        a != b,
    ensures
        bytes_lt(a, b) || bytes_lt(b, a),
    decreases a.len() - k,
{
    if k == a.len() {
        assert(a =~= a.take(k));
        assert(b =~= b.take(k));
    } else if a[k] < b[k] {
        assert(bytes_lt(a, b));
    } else if b[k] < a[k] {
        assert(b.take(k) == a.take(k));
        assert(bytes_lt(b, a));
    } else {
        assert(a.take(k + 1) =~= a.take(k).push(a[k]));
        assert(b.take(k + 1) =~= b.take(k).push(b[k]));
        lemma_bytes_total_from(a, b, k + 1);
    }
}

/// The order of matches is a strict order, total on distinct keys.
proof fn lemma_key_order(a: ReferenceCandidate, b: ReferenceCandidate, c: ReferenceCandidate)
    ensures
        !(key_lt(a, b) && key_lt(b, a)),
        key_lt(a, b) && key_lt(b, c) ==> key_lt(a, c),
        (a.content_hash@ != b.content_hash@ || a.object_id != b.object_id) ==> key_lt(a, b) || key_lt(b, a),
        (a.content_hash@ == b.content_hash@ && a.object_id == b.object_id) ==> (key_lt(c, a) == key_lt(c, b)
            && key_lt(a, c) == key_lt(b, c)),
{
    lemma_bytes_lt_asym(a.content_hash@, b.content_hash@);
    if key_lt(a, b) && key_lt(b, c) {
        if bytes_lt(a.content_hash@, b.content_hash@) && bytes_lt(b.content_hash@, c.content_hash@) {
            lemma_bytes_lt_trans(a.content_hash@, b.content_hash@, c.content_hash@);
        }
    }
    if a.content_hash@ != b.content_hash@ {
        assert(a.content_hash@.take(0) =~= b.content_hash@.take(0));
        lemma_bytes_total_from(a.content_hash@, b.content_hash@, 0);
    }
}

proof fn lemma_key_le_trans(a: ReferenceCandidate, b: ReferenceCandidate, c: ReferenceCandidate)
    requires
        key_le(a, b),
        key_le(b, c),
    ensures
        key_le(a, c),
{
    lemma_key_order(a, b, c);
    lemma_key_order(c, a, b);
    lemma_key_order(b, c, a);
    lemma_key_order(a, c, b);
    lemma_key_order(c, b, a);
    lemma_key_order(b, a, c);
}

proof fn lemma_insert_sorted(s: Seq<ReferenceCandidate>, x: ReferenceCandidate)
    requires
        sorted_by_key(s),
    ensures
        sorted_by_key(s.insert(insert_pos(s, x), x)),
    decreases s.len(),
{
    lemma_insert_pos_bounds(s, x);
    if s.len() == 0 {
        assert(s.insert(0, x) =~= seq![x]);
    } else if key_lt(x, s.last()) {
        let p = s.drop_last();
        let k = insert_pos(p, x);
        lemma_insert_pos_bounds(p, x);
        assert(sorted_by_key(p));
        lemma_insert_sorted(p, x);
        let t = p.insert(k, x);
        assert(s.insert(k, x) =~= t.push(s.last()));
        lemma_key_order(x, s.last(), x);
        assert forall|i: int, j: int| 0 <= i < j < t.push(s.last()).len() implies key_le(
            #[trigger] t.push(s.last())[i],
            #[trigger] t.push(s.last())[j],
        ) by {
            if j == t.len() {
                let e = t[i];
                if i < k {
                    assert(e == s[i]);
                    assert(key_le(s[i], s[s.len() - 1]));
                } else if i > k {
                    assert(e == s[i - 1]);
                    assert(key_le(s[i - 1], s[s.len() - 1]));
                }
            }
        }
    } else {
        assert(s.insert(s.len() as int, x) =~= s.push(x));
        assert forall|i: int, j: int| 0 <= i < j < s.push(x).len() implies key_le(
            #[trigger] s.push(x)[i],
            #[trigger] s.push(x)[j],
        ) by {
            if j == s.len() && i < s.len() - 1 {
                assert(key_le(s[i], s[s.len() - 1]));
                lemma_key_le_trans(s[i], s[s.len() - 1], x);
            }
        }
    }
}

proof fn lemma_sort_sorted(s: Seq<ReferenceCandidate>)
    ensures
        sorted_by_key(sort_spec(s)),
    decreases s.len(),
{
    if s.len() > 0 {
        lemma_sort_sorted(s.drop_last());
        lemma_insert_sorted(sort_spec(s.drop_last()), s.last());
    }
}

/// Removing repeated ids from a sorted sequence whose ids are keys leaves
/// every id once, and keeps the order.
proof fn lemma_dedup_sorted(s: Seq<ReferenceCandidate>)
    requires
        sorted_by_key(s),
        ids_are_keys(s),
    ensures
        ids_distinct(dedup_spec(s)),
        sorted_by_key(dedup_spec(s)),
        s.len() > 0 ==> dedup_spec(s).len() > 0 && dedup_spec(s).last() == s.last(),
    decreases s.len(),
{
    if s.len() > 0 {
        let p = s.drop_last();
        let x = s.last();
        assert(sorted_by_key(p));
        assert(ids_are_keys(p)) by {
            assert forall|i: int, j: int|
                0 <= i < p.len() && 0 <= j < p.len() && #[trigger] p[i].object_id == #[trigger] p[j].object_id
                    implies p[i] == p[j] by {
                assert(s[i] == p[i] && s[j] == p[j]);
            }
        }
        lemma_dedup_sorted(p);
        lemma_dedup_contains(p, x);
        let d = dedup_spec(p);
        assert(s[s.len() - 1] == x);
        if d.len() > 0 && d.last().object_id == x.object_id {
            assert(d.last() == p.last());
            assert(p[p.len() - 1] == p.last());
            assert(s[p.len() - 1] == p.last());
        } else {
            assert forall|i: int| 0 <= i < d.len() implies #[trigger] d[i].object_id != x.object_id by {
                if d[i].object_id == x.object_id {
                    assert(d.contains(d[i]));
                    lemma_dedup_contains(p, d[i]);
                    let a = choose|a: int| 0 <= a < p.len() && p[a] == d[i];
                    assert(s[a] == d[i]);
                    assert(d[i] == x);
                    // d[i] equals x and sits at index a of p; the last element of p
                    // lies between them in the order, so it has x's key
                    if p.len() > 0 {
                        let q = p.last();
                        assert(p[p.len() - 1] == q);
                        assert(s[p.len() - 1] == q);
                        if a < p.len() - 1 {
                            assert(key_le(s[a], s[p.len() - 1]));
                        }
                        assert(key_le(s[p.len() - 1], s[s.len() - 1]));
                        lemma_key_order(q, x, q);
                        assert(d.last() == q);
                    }
                }
            }
            let e = d.push(x);
            assert forall|i: int, j: int| 0 <= i < j < e.len() implies key_le(#[trigger] e[i], #[trigger] e[j]) by {
                if j == d.len() {
                    assert(d.contains(d[i]));
                    lemma_dedup_contains(p, d[i]);
                    let a = choose|a: int| 0 <= a < p.len() && p[a] == d[i];
                    assert(s[a] == d[i]);
                    assert(key_le(s[a], s[s.len() - 1]));
                }
            }
        }
    }
}

/// Law: resolving a short reference lists its objects in the order of
/// content hash, then object id, each object once, when object ids are
/// keys of the store and `found` holds only stored objects.
pub proof fn law_resolution_order(
    tail: Option<Seq<char>>,
    stored: Seq<ReferenceCandidate>,
    found: Seq<ReferenceCandidate>,
    ledger: Seq<u8>,
    allowed: Seq<&str>,
)
    requires
        ids_are_keys(stored),
        forall|c: ReferenceCandidate| #[trigger] found.contains(c) ==> stored.contains(c),
    ensures
        sorted_by_key(selection_spec(found, tail, ledger, allowed)),
        ids_distinct(selection_spec(found, tail, ledger, allowed)),
{
    let pred = keep_pred(tail, ledger, allowed);
    let f = found.filter(pred);
    let sorted = sort_spec(f);
    lemma_sort_sorted(f);
    assert(ids_are_keys(sorted)) by {
        assert forall|i: int, j: int|
            0 <= i < sorted.len() && 0 <= j < sorted.len() && #[trigger] sorted[i].object_id
                == #[trigger] sorted[j].object_id implies sorted[i] == sorted[j] by {
            assert(sorted.contains(sorted[i]));
            assert(sorted.contains(sorted[j]));
            lemma_sort_contains(f, sorted[i]);
            lemma_sort_contains(f, sorted[j]);
            found.lemma_filter_contains_rev(pred, sorted[i]);
            found.lemma_filter_contains_rev(pred, sorted[j]);
            let a = choose|a: int| 0 <= a < stored.len() && stored[a] == sorted[i];
            let b = choose|b: int| 0 <= b < stored.len() && stored[b] == sorted[j];
        }
    }
    lemma_dedup_sorted(sorted);
}

} // verus!
