//! Short object references: a prefix of an object's UUID or content hash,
//! or a split `head-tail` UUID short form, turned into key ranges and then
//! into the matching objects.

use vstd::prelude::*;
use crate::ids::{simple_hex, uuid_simple_text};
use crate::text::{hex_char, hex_char_value, hex_value, is_hex_char, lower_hex_digit};

verus! {

/// All characters of `s` are ASCII hexadecimal digits.
pub open spec fn all_hex(s: Seq<char>) -> bool {
    forall|i: int| 0 <= i < s.len() ==> is_hex_char(#[trigger] s[i])
}

/// Digit `k` of a prefix padded on the right with `fill`.
pub open spec fn padded_digit(p: Seq<char>, k: int, fill: u8) -> u8 {
    if k < p.len() {
        hex_char_value(p[k])
    } else {
        fill
    }
}

/// Byte `i` of a prefix padded with the digit `fill` (0 for the low end of
/// the range, 15 for the high end).
pub open spec fn padded_byte(p: Seq<char>, i: int, fill: u8) -> u8 {
    (16 * padded_digit(p, 2 * i, fill) + padded_digit(p, 2 * i + 1, fill)) as u8
}

/// The range of `N`-byte values whose hexadecimal form starts with the
/// digits `p`: the prefix padded with `0` digits, and with `f` digits.
pub open spec fn prefix_range_spec(p: Seq<char>, n: nat) -> Option<(Seq<u8>, Seq<u8>)> {
    if p.len() == 0 || p.len() > 2 * n {
        None
    } else {
        Some(
            (
                Seq::new(n, |i: int| padded_byte(p, i, 0)),
                Seq::new(n, |i: int| padded_byte(p, i, 15)),
            ),
        )
    }
}

/// Returns the inclusive `[low, high]` range of `N`-byte values whose
/// hexadecimal form starts with `hex_prefix`; `None` when the prefix is
/// empty or longer than `2 * N` digits. `hex_prefix` must consist of
/// hexadecimal digits only.
pub fn hex_prefix_range<const N: usize>(hex_prefix: &str) -> (r: Option<([u8; N], [u8; N])>)
    requires
        all_hex(hex_prefix@),
    ensures
        match r {
            Some((low, high)) => prefix_range_spec(hex_prefix@, N as nat) == Some(
                (low@, high@),
            ),
            None => prefix_range_spec(hex_prefix@, N as nat) is None,
        },
{
    let len = hex_prefix.unicode_len();
    let too_long = N <= usize::MAX / 2 && len > N * 2;
    if len == 0 || too_long {
        return None;
    }
    let mut low = [0u8; N];
    let mut high = [0u8; N];
    let mut index: usize = 0;
    while index < N
        invariant
            len == hex_prefix@.len(),
            0 < len,
            N > usize::MAX / 2 || len <= 2 * N,
            all_hex(hex_prefix@),
            index <= N,
            low@.len() == N,
            high@.len() == N,
            forall|j: int| 0 <= j < index ==> low@[j] == padded_byte(hex_prefix@, j, 0),
            forall|j: int| 0 <= j < index ==> high@[j] == padded_byte(hex_prefix@, j, 15),
        decreases N - index,
    {
        let (lo_hi, hi_hi) = digit_pair_at(hex_prefix, len, 2 * (index as u128));
        let (lo_lo, hi_lo) = digit_pair_at(hex_prefix, len, 2 * (index as u128) + 1);
        low[index] = 16 * lo_hi + lo_lo;
        high[index] = 16 * hi_hi + hi_lo;
        index = index + 1;
    }
    proof {
        assert(len <= 2 * N);
        assert(low@ =~= Seq::new(N as nat, |i: int| padded_byte(hex_prefix@, i, 0)));
        assert(high@ =~= Seq::new(N as nat, |i: int| padded_byte(hex_prefix@, i, 15)));
    }
    Some((low, high))
}

/// The digit of the prefix at position `k` padded with 0 and with 15.
fn digit_pair_at(p: &str, len: usize, k: u128) -> (r: (u8, u8))
    requires
        len == p@.len(),
        all_hex(p@),
    ensures
        r.0 == padded_digit(p@, k as int, 0),
        r.1 == padded_digit(p@, k as int, 15),
        r.0 < 16,
        r.1 < 16,
{
    if k < len as u128 {
        let d = hex_value(p.get_char(k as usize));
        (d, d)
    } else {
        (0, 15)
    }
}

/// Digit `k` of the hexadecimal form of `v`: the high nibble of byte
/// `k / 2` for even `k`, the low nibble for odd `k`.
pub open spec fn hex_digit_of(v: Seq<u8>, k: int) -> u8 {
    if k % 2 == 0 {
        v[k / 2] / 16
    } else {
        v[k / 2] % 16
    }
}

/// The hexadecimal form of `v` starts with the digits `p` (in either case).
pub open spec fn has_hex_prefix(v: Seq<u8>, p: Seq<char>) -> bool {
    forall|k: int| 0 <= k < p.len() ==> #[trigger] hex_digit_of(v, k) == hex_char_value(p[k])
}

/// Byte-wise order, as SQLite compares blobs: the first differing byte
/// decides, and a proper prefix comes first.
pub open spec fn blob_le(a: Seq<u8>, b: Seq<u8>) -> bool
    decreases a.len(),
{
    if a.len() == 0 {
        true
    } else if b.len() == 0 {
        false
    } else if a[0] < b[0] {
        true
    } else if a[0] > b[0] {
        false
    } else {
        blob_le(a.drop_first(), b.drop_first())
    }
}

/// Every value lies between the all-zero and the all-`ff` values of its
/// length.
proof fn lemma_fill_bounds(p: Seq<char>, v: Seq<u8>, n: nat)
    requires
        p.len() == 0,
        v.len() == n,
    ensures
        blob_le(Seq::new(n, |i: int| padded_byte(p, i, 0)), v),
        blob_le(v, Seq::new(n, |i: int| padded_byte(p, i, 15))),
    decreases n,
{
    let low = Seq::new(n, |i: int| padded_byte(p, i, 0));
    let high = Seq::new(n, |i: int| padded_byte(p, i, 15));
    if n > 0 {
        assert(low[0] == 0);
        assert(high[0] == 255);
        lemma_fill_bounds(p, v.drop_first(), (n - 1) as nat);
        assert(low.drop_first() =~= Seq::new((n - 1) as nat, |i: int| padded_byte(p, i, 0)));
        assert(high.drop_first() =~= Seq::new((n - 1) as nat, |i: int| padded_byte(p, i, 15)));
    }
}

/// The range of a prefix holds exactly the values that start with it.
proof fn lemma_prefix_range_exact(p: Seq<char>, v: Seq<u8>, n: nat)
    requires
        all_hex(p),
        p.len() <= 2 * n,
        v.len() == n,
    ensures
        has_hex_prefix(v, p) <==> (blob_le(Seq::new(n, |i: int| padded_byte(p, i, 0)), v)
            && blob_le(v, Seq::new(n, |i: int| padded_byte(p, i, 15)))),
    decreases n,
{
    let low = Seq::new(n, |i: int| padded_byte(p, i, 0));
    let high = Seq::new(n, |i: int| padded_byte(p, i, 15));
    if p.len() == 0 {
        lemma_fill_bounds(p, v, n);
        return;
    }
    let q0 = hex_char_value(p[0]);
    assert(q0 < 16);
    let b = v[0];
    assert(b == 16 * (b / 16) + b % 16);
    if p.len() == 1 {
        let empty = Seq::<char>::empty();
        lemma_fill_bounds(empty, v.drop_first(), (n - 1) as nat);
        assert(low.drop_first() =~= Seq::new((n - 1) as nat, |i: int| padded_byte(empty, i, 0)));
        assert(high.drop_first() =~= Seq::new((n - 1) as nat, |i: int| padded_byte(empty, i, 15)));
        assert(low[0] == 16 * q0);
        assert(high[0] == 16 * q0 + 15);
        if has_hex_prefix(v, p) {
            assert(hex_digit_of(v, 0) == q0);
        }
        if b / 16 == q0 {
            assert forall|k: int| 0 <= k < p.len() implies #[trigger] hex_digit_of(v, k) == hex_char_value(p[k]) by {
                assert(k == 0);
            }
        }
    } else {
        let q1 = hex_char_value(p[1]);
        assert(q1 < 16);
        let rest = p.skip(2);
        assert(all_hex(rest));
        lemma_prefix_range_exact(rest, v.drop_first(), (n - 1) as nat);
        assert forall|i: int| 0 <= i < n - 1 implies #[trigger] padded_byte(p, i + 1, 0) == padded_byte(rest, i, 0)
            && padded_byte(p, i + 1, 15) == padded_byte(rest, i, 15) by {
            assert(padded_digit(p, 2 * (i + 1), 0) == padded_digit(rest, 2 * i, 0));
            assert(padded_digit(p, 2 * (i + 1) + 1, 0) == padded_digit(rest, 2 * i + 1, 0));
            assert(padded_digit(p, 2 * (i + 1), 15) == padded_digit(rest, 2 * i, 15));
            assert(padded_digit(p, 2 * (i + 1) + 1, 15) == padded_digit(rest, 2 * i + 1, 15));
        }
        assert(low.drop_first() =~= Seq::new((n - 1) as nat, |i: int| padded_byte(rest, i, 0)));
        assert(high.drop_first() =~= Seq::new((n - 1) as nat, |i: int| padded_byte(rest, i, 15)));
        assert(low[0] == 16 * q0 + q1);
        assert(high[0] == 16 * q0 + q1);
        let w = v.drop_first();
        assert forall|k: int| 0 <= k < rest.len() implies hex_digit_of(w, k) == #[trigger] hex_digit_of(v, k + 2) by {
            assert((k + 2) / 2 == k / 2 + 1);
            assert((k + 2) % 2 == k % 2);
        }
        if has_hex_prefix(v, p) {
            assert(hex_digit_of(v, 0) == q0);
            assert(hex_digit_of(v, 1) == q1);
            assert forall|k: int| 0 <= k < rest.len() implies #[trigger] hex_digit_of(w, k) == hex_char_value(rest[k]) by {
                assert(hex_digit_of(v, k + 2) == hex_char_value(p[k + 2]));
            }
        }
        if b == 16 * q0 + q1 && has_hex_prefix(w, rest) {
            assert forall|k: int| 0 <= k < p.len() implies #[trigger] hex_digit_of(v, k) == hex_char_value(p[k]) by {
                if k >= 2 {
                    assert(hex_digit_of(w, k - 2) == hex_char_value(rest[k - 2]));
                    assert(hex_digit_of(v, (k - 2) + 2) == hex_digit_of(w, k - 2));
                }
            }
        }
    }
}

/// Law: the range [`hex_prefix_range`] returns for a prefix holds exactly
/// the values whose hexadecimal form starts with that prefix, in the byte
/// order SQLite compares blobs by; so a `BETWEEN` query on the range finds
/// all of them and nothing else.
pub proof fn law_prefix_range_exact(p: Seq<char>, n: nat, v: Seq<u8>)
    requires
        all_hex(p),
        prefix_range_spec(p, n) is Some,
        v.len() == n,
    ensures
        prefix_range_spec(p, n) matches Some((low, high)) && (has_hex_prefix(v, p) <==> (blob_le(
            low,
            v,
        ) && blob_le(v, high))),
{
    lemma_prefix_range_exact(p, v, n);
}

/// Positions of the dashes in a canonical hyphenated UUID.
pub open spec fn is_dash_position(p: int) -> bool {
    p == 8 || p == 13 || p == 18 || p == 23
}

/// Scans a hyphenated UUID prefix from position `p`, collecting hex digits
/// into `acc` until the text ends. `None` when a dash position holds
/// something else than `-`, another position holds a non-hex character, or
/// text remains after all 32 digits.
pub open spec fn scan_uuid_prefix(r: Seq<char>, p: nat, acc: Seq<char>) -> Option<Seq<char>>
    decreases r.len() - p,
{
    if p >= r.len() {
        Some(acc)
    } else if acc.len() >= 32 {
        None
    } else if is_dash_position(p as int) {
        if r[p as int] == '-' {
            scan_uuid_prefix(r, p + 1, acc)
        } else {
            None
        }
    } else if is_hex_char(r[p as int]) {
        scan_uuid_prefix(r, p + 1, acc.push(r[p as int]))
    } else {
        None
    }
}

/// The key range of the UUIDs whose canonical hyphenated text starts with
/// `reference`.
pub open spec fn uuid_prefix_range_spec(reference: Seq<char>) -> Option<(Seq<u8>, Seq<u8>)> {
    match scan_uuid_prefix(reference, 0, seq![]) {
        Some(digits) => prefix_range_spec(digits, 16),
        None => None,
    }
}

proof fn lemma_scan_digits(r: Seq<char>, p: nat, acc: Seq<char>)
    requires
        all_hex(acc),
        acc.len() <= 32,
    ensures
        scan_uuid_prefix(r, p, acc) matches Some(d) ==> all_hex(d) && d.len() <= 32,
    decreases r.len() - p,
{
    if p >= r.len() || acc.len() >= 32 {
    } else if is_dash_position(p as int) {
        if r[p as int] == '-' {
            lemma_scan_digits(r, p + 1, acc);
        }
    } else if is_hex_char(r[p as int]) {
        let next = acc.push(r[p as int]);
        assert(all_hex(next)) by {
            assert forall|i: int| 0 <= i < next.len() implies is_hex_char(#[trigger] next[i]) by {
                if i < acc.len() {
                    assert(next[i] == acc[i]);
                }
            }
        }
        lemma_scan_digits(r, p + 1, next);
    }
}

/// Parses `reference` as a (possibly partial) canonical dashed-UUID prefix
/// and returns the inclusive `[low, high]` 16-byte range of every object id
/// sharing that prefix. Dashes are accepted only at the positions a
/// canonical UUID has them (8, 13, 18, 23); anything else outside
/// `[0-9a-fA-F]`, or any text after the 32nd digit, means no object id can
/// match, and gives `None`.
pub fn uuid_hex_prefix_range(reference: &str) -> (r: Option<([u8; 16], [u8; 16])>)
    ensures
        match r {
            Some((low, high)) => uuid_prefix_range_spec(reference@) == Some((low@, high@)),
            None => uuid_prefix_range_spec(reference@) is None,
        },
{
    let n = reference.unicode_len();
    let mut hex = String::new();
    let mut count: usize = 0;
    let mut position: usize = 0;
    while position < n && count < 32
        invariant
            n == reference@.len(),
            position <= n,
            count == hex@.len(),
            all_hex(hex@),
            hex@.len() <= 32,
            scan_uuid_prefix(reference@, 0, seq![]) == scan_uuid_prefix(
                reference@,
                position as nat,
                hex@,
            ),
        decreases n - position,
    {
        let character = reference.get_char(position);
        if position == 8 || position == 13 || position == 18 || position == 23 {
            if character != '-' {
                return None;
            }
        } else {
            if !hex_char(character) {
                return None;
            }
            let ghost before = hex@;
            crate::text::push_char(&mut hex, character);
            count = count + 1;
            proof {
                assert(all_hex(hex@)) by {
                    assert forall|i: int| 0 <= i < hex@.len() implies is_hex_char(
                        #[trigger] hex@[i],
                    ) by {
                        if i < before.len() {
                            assert(hex@[i] == before[i]);
                        }
                    }
                }
            }
        }
        position = position + 1;
    }
    if position < n {
        assert(scan_uuid_prefix(reference@, position as nat, hex@) is None);
        return None;
    }
    assert(scan_uuid_prefix(reference@, position as nat, hex@) == Some(hex@));
    if count == 0 {
        return None;
    }
    hex_prefix_range::<16>(hex.as_str())
}

/// How many dashes a canonical hyphenated UUID has before position `p`.
pub open spec fn dashes_before(p: int) -> int {
    (if p > 8 { 1int } else { 0int }) + (if p > 13 { 1int } else { 0int }) + (if p > 18 {
        1int
    } else {
        0int
    }) + (if p > 23 { 1int } else { 0int })
}

/// The canonical hyphenated text of a sixteen-byte identifier: its 32
/// lower-case hexadecimal digits, with dashes at positions 8, 13, 18 and 23.
pub open spec fn uuid_text(v: Seq<u8>) -> Seq<char> {
    Seq::new(
        36,
        |p: int|
            if is_dash_position(p) {
                '-'
            } else {
                lower_hex_digit(hex_digit_of(v, p - dashes_before(p)))
            },
    )
}

/// The text `t` starts with `r`.
pub open spec fn text_starts_with(t: Seq<char>, r: Seq<char>) -> bool {
    r.len() <= t.len() && forall|q: int| 0 <= q < r.len() ==> r[q] == t[q]
}

/// No character of `r` is an upper-case hexadecimal letter (references are
/// lower-cased before they are planned).
pub open spec fn no_upper_hex(r: Seq<char>) -> bool {
    forall|i: int| 0 <= i < r.len() ==> !('A' <= #[trigger] r[i] && r[i] <= 'F')
}

/// The first `p` characters of `r` agree with the text of `v`.
spec fn text_agrees(r: Seq<char>, v: Seq<u8>, p: int) -> bool {
    forall|q: int| 0 <= q < p ==> #[trigger] r[q] == uuid_text(v)[q]
}

proof fn lemma_lower_digit(c: char, x: u8)
    requires
        x < 16,
        is_hex_char(c),
        !('A' <= c && c <= 'F'),
    ensures
        is_hex_char(lower_hex_digit(x)),
        !('A' <= lower_hex_digit(x) && lower_hex_digit(x) <= 'F'),
        (hex_char_value(c) == x) <==> (c == lower_hex_digit(x)),
{
}

proof fn lemma_scan_agrees(r: Seq<char>, v: Seq<u8>, p: nat, acc: Seq<char>)
    requires
        v.len() == 16,
        no_upper_hex(r),
        p <= r.len(),
        p <= 36,
        acc.len() == p - dashes_before(p as int),
        has_hex_prefix(v, acc) <==> text_agrees(r, v, p as int),
    ensures
        match scan_uuid_prefix(r, p, acc) {
            Some(d) => r.len() <= 36 && d.len() == r.len() - dashes_before(r.len() as int) && (
            has_hex_prefix(v, d) <==> text_agrees(r, v, r.len() as int)),
            None => !(r.len() <= 36 && text_agrees(r, v, r.len() as int)),
        },
    decreases r.len() - p,
{
    let t = uuid_text(v);
    if p >= r.len() {
    } else if acc.len() >= 32 {
    } else if is_dash_position(p as int) {
        if r[p as int] == '-' {
            assert(text_agrees(r, v, (p + 1) as int) <==> text_agrees(r, v, p as int)) by {
                assert(t[p as int] == '-');
            }
            lemma_scan_agrees(r, v, p + 1, acc);
        } else {
            assert(t[p as int] == '-');
            assert(r[p as int] != t[p as int]);
        }
    } else {
        let k = acc.len() as int;
        let x = hex_digit_of(v, k);
        assert(t[p as int] == lower_hex_digit(x));
        assert(!('A' <= r[p as int] && r[p as int] <= 'F'));
        lemma_lower_digit('0', x);
        if is_hex_char(r[p as int]) {
            let c = r[p as int];
            let next = acc.push(c);
            lemma_lower_digit(c, x);
            assert(has_hex_prefix(v, next) <==> (has_hex_prefix(v, acc) && x == hex_char_value(c)))
                by {
                if has_hex_prefix(v, next) {
                    assert forall|j: int| 0 <= j < acc.len() implies #[trigger] hex_digit_of(v, j)
                        == hex_char_value(acc[j]) by {
                        assert(next[j] == acc[j]);
                        assert(hex_digit_of(v, j) == hex_char_value(next[j]));
                    }
                    assert(hex_digit_of(v, k) == hex_char_value(next[k]));
                }
                if has_hex_prefix(v, acc) && x == hex_char_value(c) {
                    assert forall|j: int| 0 <= j < next.len() implies #[trigger] hex_digit_of(v, j)
                        == hex_char_value(next[j]) by {
                        if j < acc.len() {
                            assert(next[j] == acc[j]);
                        }
                    }
                }
            }
            assert(text_agrees(r, v, (p + 1) as int) <==> (text_agrees(r, v, p as int) && c == t[p as int]));
            lemma_scan_agrees(r, v, p + 1, next);
        } else {
            assert(r[p as int] != t[p as int]);
        }
    }
}

/// Law: the range [`uuid_hex_prefix_range`] gives for a (lower-case)
/// reference holds an identifier exactly when the identifier's canonical
/// hyphenated text starts with the reference; so a `BETWEEN` query on the
/// range finds exactly the objects whose id text starts with it, and a
/// reference no id text can start with gives no range.
pub proof fn law_uuid_prefix_range_exact(r: Seq<char>, v: Seq<u8>)
    requires
        v.len() == 16,
        no_upper_hex(r),
    ensures
        (uuid_prefix_range_spec(r) matches Some((low, high)) && blob_le(low, v) && blob_le(v, high))
            <==> (r.len() > 0 && text_starts_with(uuid_text(v), r)),
{
    assert(has_hex_prefix(v, seq![]));
    lemma_scan_agrees(r, v, 0, seq![]);
    lemma_scan_digits(r, 0, seq![]);
    match scan_uuid_prefix(r, 0, seq![]) {
        Some(d) => {
            if d.len() > 0 {
                law_prefix_range_exact(d, 16, v);
            }
        },
        None => {},
    }
}

/// The `head-tail` short reference form: five hex digits of the start of a
/// UUID's simple form, a dash, and five hex digits of the start of its last
/// twelve digits. (The text before the first dash and the text after it
/// must both be five hex digits, which makes the first dash the sixth
/// character.)
pub open spec fn split_reference_spec(reference: Seq<char>) -> Option<(Seq<char>, Seq<char>)> {
    if reference.len() == 11 && reference[5] == '-' && all_hex(reference.take(5)) && all_hex(
        reference.skip(6),
    ) {
        Some((reference.take(5), reference.skip(6)))
    } else {
        None
    }
}

fn all_hex_text(s: &str) -> (r: bool)
    ensures
        r == all_hex(s@),
{
    let n = s.unicode_len();
    let mut i: usize = 0;
    while i < n
        invariant
            n == s@.len(),
            i <= n,
            forall|j: int| 0 <= j < i ==> is_hex_char(#[trigger] s@[j]),
        decreases n - i,
    {
        if !hex_char(s.get_char(i)) {
            return false;
        }
        i = i + 1;
    }
    true
}

/// Splits a `head-tail` short reference into its two parts; see
/// [`split_reference_spec`].
pub fn split_uuid_reference_parts(reference: &str) -> (r: Option<(String, String)>)
    ensures
        match r {
            Some((head, tail)) => split_reference_spec(reference@) == Some((head@, tail@)),
            None => split_reference_spec(reference@) is None,
        },
{
    let n = reference.unicode_len();
    let mut d: usize = 0;
    let mut found = false;
    while d < n && !found
        invariant
            n == reference@.len(),
            d <= n,
            found ==> d < n && reference@[d as int] == '-',
            forall|e: int| 0 <= e < d ==> reference@[e] != '-',
        decreases n - d, (if found { 0int } else { 1int }),
    {
        if reference.get_char(d) == '-' {
            found = true;
        } else {
            d = d + 1;
        }
    }
    if d == n {
        return None;
    }
    let head = reference.substring_char(0, d);
    let tail = reference.substring_char(d + 1, n);
    if head.unicode_len() != 5 || tail.unicode_len() != 5 {
        proof {
            if split_reference_spec(reference@) is Some {
                if d < 5 {
                    assert(reference@.take(5)[d as int] == reference@[d as int]);
                    assert(is_hex_char(reference@.take(5)[d as int]));
                } else if d > 5 {
                    assert(reference@[5] != '-');
                }
                assert(d == 5);
            }
        }
        return None;
    }
    if !all_hex_text(head) || !all_hex_text(tail) {
        proof {
            assert(head@ =~= reference@.take(5));
            assert(tail@ =~= reference@.skip(6));
        }
        return None;
    }
    proof {
        assert(head@.len() == d);
        assert(d == 5);
        assert(head@ =~= reference@.take(5));
        assert(tail@ =~= reference@.skip(6));
    }
    Some((head.to_owned(), tail.to_owned()))
}

/// `tail` is a prefix of the last twelve digits of the simple hex form of
/// `id`.
pub open spec fn tail_matches(id: u128, tail: Seq<char>) -> bool {
    tail.len() <= 12 && simple_hex(id).skip(20).take(tail.len() as int) == tail
}

/// Whether `tail` starts the last twelve hex digits of `id`'s simple form.
pub fn uuid_tail_prefix_matches(id: u128, tail: &str) -> (r: bool)
    ensures
        r == tail_matches(id, tail@),
{
    let simple = uuid_simple_text(id);
    let n = tail.unicode_len();
    if n > 12 {
        return false;
    }
    let mut i: usize = 0;
    while i < n
        invariant
            n == tail@.len(),
            n <= 12,
            simple@ == simple_hex(id),
            i <= n,
            forall|j: int| 0 <= j < i ==> simple_hex(id)[20 + j] == tail@[j],
        decreases n - i,
    {
        if simple.as_str().get_char(20 + i) != tail.get_char(i) {
            assert(simple_hex(id).skip(20).take(n as int)[i as int] != tail@[i as int]);
            return false;
        }
        i = i + 1;
    }
    assert(simple_hex(id).skip(20).take(n as int) =~= tail@);
    true
}

/// The key ranges to look up for a short reference, after ASCII
/// lower-casing it: the `head-tail` split if it has that form, the object
/// id range (from the split head, else from a hyphenated UUID prefix), and
/// the content-hash range for a dash-free hex prefix.
pub struct ReferencePlan {
    pub split: Option<(String, String)>,
    pub object_id_range: Option<([u8; 16], [u8; 16])>,
    pub content_hash_range: Option<([u8; 32], [u8; 32])>,
}

/// Mathematical form of a [`ReferencePlan`].
pub struct ReferencePlanModel {
    pub split: Option<(Seq<char>, Seq<char>)>,
    pub object_id_range: Option<(Seq<u8>, Seq<u8>)>,
    pub content_hash_range: Option<(Seq<u8>, Seq<u8>)>,
}

impl ReferencePlan {
    pub open spec fn model(&self) -> ReferencePlanModel {
        ReferencePlanModel {
            split: match self.split {
                Some((h, t)) => Some((h@, t@)),
                None => None,
            },
            object_id_range: match self.object_id_range {
                Some((l, h)) => Some((l@, h@)),
                None => None,
            },
            content_hash_range: match self.content_hash_range {
                Some((l, h)) => Some((l@, h@)),
                None => None,
            },
        }
    }
}

/// The plan for a reference.
pub open spec fn reference_plan_spec(reference: Seq<char>) -> ReferencePlanModel {
    let n = crate::text::ascii_lower_text(reference);
    let split = split_reference_spec(n);
    ReferencePlanModel {
        split,
        object_id_range: match split {
            Some((head, _)) => prefix_range_spec(head, 16),
            None => uuid_prefix_range_spec(n),
        },
        content_hash_range: if n.contains('-') || !all_hex(n) {
            None
        } else {
            prefix_range_spec(n, 32)
        },
    }
}

fn contains_dash(s: &str) -> (r: bool)
    ensures
        r == s@.contains('-'),
{
    let n = s.unicode_len();
    let mut i: usize = 0;
    while i < n
        invariant
            n == s@.len(),
            i <= n,
            forall|j: int| 0 <= j < i ==> s@[j] != '-',
        decreases n - i,
    {
        if s.get_char(i) == '-' {
            assert(s@[i as int] == '-');
            return true;
        }
        i = i + 1;
    }
    false
}

/// Plans the lookups for a short object reference. A content-hash range is
/// only formed from a prefix of hexadecimal digits.
pub fn reference_plan(reference: &str) -> (r: ReferencePlan)
    ensures
        r.model() == reference_plan_spec(reference@),
{
    let normalized = crate::text::to_ascii_lowercase(reference);
    let n = normalized.as_str();
    let split = split_uuid_reference_parts(n);
    let object_id_range = match &split {
        Some((head, _)) => hex_prefix_range::<16>(head.as_str()),
        None => uuid_hex_prefix_range(n),
    };
    let content_hash_range = if contains_dash(n) || !all_hex_text(n) {
        None
    } else {
        hex_prefix_range::<32>(n)
    };
    let r = ReferencePlan { split, object_id_range, content_hash_range };
    proof {
        let m = r.model();
        let sp = reference_plan_spec(reference@);
        assert(m.split == sp.split);
        assert(m.object_id_range == sp.object_id_range);
        assert(m.content_hash_range == sp.content_hash_range);
    }
    r
}

} // verus!
