//! Unpadded base64url (RFC 4648 section 5) as used for key bytes, nonces
//! and markdown content inside protocol objects.

use vstd::prelude::*;
use crate::text::push_char;
use vstd::string::StringSliceAdditionalSpecFns;
use vstd::utf8::{
    encode_scalar, encode_utf8, has_width_1_encoding, is_ascii_chars, is_ascii_chars_encode_utf8,
    leading_byte_width_2, leading_byte_width_3, leading_byte_width_4,
};

verus! {

/// The alphabet symbol (as an ASCII code) of a 6-bit value.
pub open spec fn b64_symbol(d: u8) -> u8
    recommends
        d < 64,
{
    if d < 26 {
        (d + 65) as u8
    } else if d < 52 {
        (d - 26 + 97) as u8
    } else if d < 62 {
        (d - 52 + 48) as u8
    } else if d == 62 {
        45u8
    } else {
        95u8
    }
}

/// The 6-bit value of an alphabet symbol, `None` for any other byte.
pub open spec fn b64_value(c: u8) -> Option<u8> {
    if 65 <= c && c <= 90 {
        Some((c - 65) as u8)
    } else if 97 <= c && c <= 122 {
        Some((c - 97 + 26) as u8)
    } else if 48 <= c && c <= 57 {
        Some((c - 48 + 52) as u8)
    } else if c == 45 {
        Some(62u8)
    } else if c == 95 {
        Some(63u8)
    } else {
        None
    }
}

/// Symbols for a final group of one byte.
pub open spec fn enc1(b0: u8) -> Seq<u8> {
    seq![b64_symbol(b0 >> 2), b64_symbol((b0 & 3) << 4)]
}

/// Symbols for a final group of two bytes.
pub open spec fn enc2(b0: u8, b1: u8) -> Seq<u8> {
    seq![
        b64_symbol(b0 >> 2),
        b64_symbol(((b0 & 3) << 4) | (b1 >> 4)),
        b64_symbol((b1 & 15) << 2),
    ]
}

/// Symbols for a full group of three bytes.
pub open spec fn enc3(b0: u8, b1: u8, b2: u8) -> Seq<u8> {
    seq![
        b64_symbol(b0 >> 2),
        b64_symbol(((b0 & 3) << 4) | (b1 >> 4)),
        b64_symbol(((b1 & 15) << 2) | (b2 >> 6)),
        b64_symbol(b2 & 63),
    ]
}

/// The unpadded base64url text of `b`, as ASCII codes.
pub open spec fn b64url_encode(b: Seq<u8>) -> Seq<u8>
    decreases b.len(),
{
    if b.len() == 0 {
        seq![]
    } else if b.len() == 1 {
        enc1(b[0])
    } else if b.len() == 2 {
        enc2(b[0], b[1])
    } else {
        enc3(b[0], b[1], b[2]) + b64url_encode(b.skip(3))
    }
}

/// The characters of an ASCII byte sequence.
pub open spec fn ascii_chars(s: Seq<u8>) -> Seq<char> {
    s.map_values(|c: u8| c as char)
}

/// Decoding of unpadded base64url text given as bytes. A text decodes when
/// every byte is an alphabet symbol, its length is not one more than a
/// multiple of four, and the unused low bits of a final partial group are
/// zero.
pub open spec fn b64url_decode(s: Seq<u8>) -> Option<Seq<u8>>
    decreases s.len(),
{
    if s.len() == 0 {
        Some(seq![])
    } else if s.len() == 1 {
        None
    } else if s.len() == 2 {
        match (b64_value(s[0]), b64_value(s[1])) {
            (Some(d0), Some(d1)) => if d1 & 15 == 0 {
                Some(seq![((d0 << 2) | (d1 >> 4)) as u8])
            } else {
                None
            },
            _ => None,
        }
    } else if s.len() == 3 {
        match (b64_value(s[0]), b64_value(s[1]), b64_value(s[2])) {
            (Some(d0), Some(d1), Some(d2)) => if d2 & 3 == 0 {
                Some(seq![((d0 << 2) | (d1 >> 4)) as u8, ((d1 << 4) | (d2 >> 2)) as u8])
            } else {
                None
            },
            _ => None,
        }
    } else {
        match (
            b64_value(s[0]),
            b64_value(s[1]),
            b64_value(s[2]),
            b64_value(s[3]),
            b64url_decode(s.skip(4)),
        ) {
            (Some(d0), Some(d1), Some(d2), Some(d3), Some(rest)) => Some(
                seq![
                    ((d0 << 2) | (d1 >> 4)) as u8,
                    ((d1 << 4) | (d2 >> 2)) as u8,
                    ((d2 << 6) | d3) as u8,
                ] + rest,
            ),
            _ => None,
        }
    }
}

/// Executable alphabet lookup.
fn symbol(d: u8) -> (c: u8)
    requires
        d < 64,
    ensures
        c == b64_symbol(d),
        c < 128,
{
    if d < 26 {
        d + 65
    } else if d < 52 {
        d - 26 + 97
    } else if d < 62 {
        d - 52 + 48
    } else if d == 62 {
        45
    } else {
        95
    }
}

/// Executable inverse alphabet lookup.
fn symbol_value(c: u8) -> (r: Option<u8>)
    ensures
        r == b64_value(c),
        r matches Some(d) ==> d < 64,
{
    if 65 <= c && c <= 90 {
        Some(c - 65)
    } else if 97 <= c && c <= 122 {
        Some(c - 97 + 26)
    } else if 48 <= c && c <= 57 {
        Some(c - 48 + 52)
    } else if c == 45 {
        Some(62)
    } else if c == 95 {
        Some(63)
    } else {
        None
    }
}

proof fn lemma_group_ranges(b0: u8, b1: u8, b2: u8)
    ensures
        b0 >> 2 < 64,
        (b0 & 3) << 4 < 64,
        ((b0 & 3) << 4) | (b1 >> 4) < 64,
        (b1 & 15) << 2 < 64,
        ((b1 & 15) << 2) | (b2 >> 6) < 64,
        b2 & 63 < 64,
{
    assert(b0 >> 2 < 64) by (bit_vector);
    assert((b0 & 3) << 4 < 64) by (bit_vector);
    assert(((b0 & 3) << 4) | (b1 >> 4) < 64) by (bit_vector);
    assert((b1 & 15) << 2 < 64) by (bit_vector);
    assert(((b1 & 15) << 2) | (b2 >> 6) < 64) by (bit_vector);
    assert(b2 & 63 < 64) by (bit_vector);
}


proof fn lemma_symbol_value(d: u8)
    requires
        d < 64,
    ensures
        b64_value(b64_symbol(d)) == Some(d),
{
}

proof fn lemma_value_symbol(c: u8)
    requires
        b64_value(c) is Some,
    ensures
        b64_value(c).unwrap() < 64,
        b64_symbol(b64_value(c).unwrap()) == c,
{
}

proof fn lemma_bytes_to_digits_to_bytes(b0: u8, b1: u8, b2: u8)
    ensures
        ((b0 >> 2) << 2) | ((((b0 & 3) << 4) | (b1 >> 4)) >> 4) == b0,
        ((((b0 & 3) << 4) | (b1 >> 4)) << 4) | ((((b1 & 15) << 2) | (b2 >> 6)) >> 2) == b1,
        ((((b1 & 15) << 2) | (b2 >> 6)) << 6) | (b2 & 63) == b2,
        ((b0 >> 2) << 2) | (((b0 & 3) << 4) >> 4) == b0,
        ((b0 & 3) << 4) & 15 == 0,
        ((((b0 & 3) << 4) | (b1 >> 4)) << 4) | (((b1 & 15) << 2) >> 2) == b1,
        ((b1 & 15) << 2) & 3 == 0,
{
    assert(((b0 >> 2) << 2) | ((((b0 & 3) << 4) | (b1 >> 4)) >> 4) == b0) by (bit_vector);
    assert(((((b0 & 3) << 4) | (b1 >> 4)) << 4) | ((((b1 & 15) << 2) | (b2 >> 6)) >> 2) == b1)
        by (bit_vector);
    assert(((((b1 & 15) << 2) | (b2 >> 6)) << 6) | (b2 & 63) == b2) by (bit_vector);
    assert(((b0 >> 2) << 2) | (((b0 & 3) << 4) >> 4) == b0) by (bit_vector);
    assert(((b0 & 3) << 4) & 15 == 0) by (bit_vector);
    assert(((((b0 & 3) << 4) | (b1 >> 4)) << 4) | (((b1 & 15) << 2) >> 2) == b1) by (bit_vector);
    assert(((b1 & 15) << 2) & 3 == 0) by (bit_vector);
}

proof fn lemma_digits_to_bytes_to_digits(d0: u8, d1: u8, d2: u8, d3: u8)
    requires
        d0 < 64,
        d1 < 64,
        d2 < 64,
        d3 < 64,
    ensures
        ((d0 << 2) | (d1 >> 4)) >> 2 == d0,
        ((((d0 << 2) | (d1 >> 4)) & 3) << 4) | (((d1 << 4) | (d2 >> 2)) >> 4) == d1,
        ((((d1 << 4) | (d2 >> 2)) & 15) << 2) | (((d2 << 6) | d3) >> 6) == d2,
        ((d2 << 6) | d3) & 63 == d3,
        d1 & 15 == 0 ==> (((d0 << 2) | (d1 >> 4)) & 3) << 4 == d1,
        d2 & 3 == 0 ==> (((d1 << 4) | (d2 >> 2)) & 15) << 2 == d2,
{
    assert(d0 < 64 && d1 < 64 ==> ((d0 << 2) | (d1 >> 4)) >> 2 == d0) by (bit_vector);
    assert(d1 < 64 && d2 < 64 ==> ((((d0 << 2) | (d1 >> 4)) & 3) << 4) | (((d1 << 4) | (d2
        >> 2)) >> 4) == d1) by (bit_vector);
    assert(d2 < 64 && d3 < 64 ==> ((((d1 << 4) | (d2 >> 2)) & 15) << 2) | (((d2 << 6) | d3)
        >> 6) == d2) by (bit_vector);
    assert(d3 < 64 ==> ((d2 << 6) | d3) & 63 == d3) by (bit_vector);
    assert(d1 < 64 && d1 & 15 == 0 ==> (((d0 << 2) | (d1 >> 4)) & 3) << 4 == d1) by (bit_vector);
    assert(d2 < 64 && d2 & 3 == 0 ==> (((d1 << 4) | (d2 >> 2)) & 15) << 2 == d2) by (bit_vector);
}

/// Law: decoding the base64url text of any byte string gives back exactly
/// that byte string.
pub proof fn law_decode_encode(b: Seq<u8>)
    ensures
        b64url_decode(b64url_encode(b)) == Some(b),
    decreases b.len(),
{
    if b.len() == 0 {
    } else if b.len() == 1 {
        lemma_group_ranges(b[0], 0, 0);
        lemma_bytes_to_digits_to_bytes(b[0], 0, 0);
        lemma_symbol_value(b[0] >> 2);
        lemma_symbol_value((b[0] & 3) << 4);
        assert(seq![b[0]] =~= b);
    } else if b.len() == 2 {
        lemma_group_ranges(b[0], b[1], 0);
        lemma_bytes_to_digits_to_bytes(b[0], b[1], 0);
        lemma_symbol_value(b[0] >> 2);
        lemma_symbol_value(((b[0] & 3) << 4) | (b[1] >> 4));
        lemma_symbol_value((b[1] & 15) << 2);
        assert(seq![b[0], b[1]] =~= b);
    } else {
        let (b0, b1, b2) = (b[0], b[1], b[2]);
        lemma_group_ranges(b0, b1, b2);
        lemma_bytes_to_digits_to_bytes(b0, b1, b2);
        lemma_symbol_value(b0 >> 2);
        lemma_symbol_value(((b0 & 3) << 4) | (b1 >> 4));
        lemma_symbol_value(((b1 & 15) << 2) | (b2 >> 6));
        lemma_symbol_value(b2 & 63);
        law_decode_encode(b.skip(3));
        let e = b64url_encode(b);
        let tail = b64url_encode(b.skip(3));
        assert(e.skip(4) =~= tail);
        let rest = b.skip(3);
        if tail.len() == 0 {
            assert(rest.len() == 0);
        }
        assert(seq![b0, b1, b2] + rest =~= b);
    }
}

/// Law: any text that decodes is the canonical base64url text of what it
/// decodes to, so distinct texts never decode to the same bytes.
pub proof fn law_encode_decode(s: Seq<u8>)
    requires
        b64url_decode(s) is Some,
    ensures
        b64url_encode(b64url_decode(s).unwrap()) == s,
    decreases s.len(),
{
    if s.len() == 0 {
    } else if s.len() == 2 {
        lemma_value_symbol(s[0]);
        lemma_value_symbol(s[1]);
        let d0 = b64_value(s[0]).unwrap();
        let d1 = b64_value(s[1]).unwrap();
        lemma_digits_to_bytes_to_digits(d0, d1, 0, 0);
        assert(b64url_encode(b64url_decode(s).unwrap()) =~= s);
    } else if s.len() == 3 {
        lemma_value_symbol(s[0]);
        lemma_value_symbol(s[1]);
        lemma_value_symbol(s[2]);
        let d0 = b64_value(s[0]).unwrap();
        let d1 = b64_value(s[1]).unwrap();
        let d2 = b64_value(s[2]).unwrap();
        lemma_digits_to_bytes_to_digits(d0, d1, d2, 0);
        assert(b64url_encode(b64url_decode(s).unwrap()) =~= s);
    } else {
        lemma_value_symbol(s[0]);
        lemma_value_symbol(s[1]);
        lemma_value_symbol(s[2]);
        lemma_value_symbol(s[3]);
        let d0 = b64_value(s[0]).unwrap();
        let d1 = b64_value(s[1]).unwrap();
        let d2 = b64_value(s[2]).unwrap();
        let d3 = b64_value(s[3]).unwrap();
        lemma_digits_to_bytes_to_digits(d0, d1, d2, d3);
        law_encode_decode(s.skip(4));
        let rest = b64url_decode(s.skip(4)).unwrap();
        let b = b64url_decode(s).unwrap();
        assert(b.skip(3) =~= rest);
        assert(b64url_encode(b) =~= s);
    }
}


proof fn lemma_encode_is_ascii(b: Seq<u8>)
    ensures
        forall|i: int| 0 <= i < b64url_encode(b).len() ==> #[trigger] b64url_encode(b)[i] < 128,
    decreases b.len(),
{
    if b.len() > 0 {
        let b1 = if b.len() > 1 { b[1] } else { 0 };
        let b2 = if b.len() > 2 { b[2] } else { 0 };
        lemma_group_ranges(b[0], b1, b2);
        if b.len() >= 3 {
            lemma_encode_is_ascii(b.skip(3));
            let e = b64url_encode(b);
            let t = b64url_encode(b.skip(3));
            assert forall|i: int| 0 <= i < e.len() implies #[trigger] e[i] < 128 by {
                if i >= 4 {
                    assert(e[i] == t[i - 4]);
                }
            }
        }
    }
}

/// Law: the text that `b64url` produces, read back as the bytes of a
/// string, decodes to the bytes that were encoded.
pub proof fn law_text_roundtrip(b: Seq<u8>, text: &str)
    requires
        text@ == ascii_chars(b64url_encode(b)),
    ensures
        b64url_decode(text.spec_bytes()) == Some(b),
{
    let e = b64url_encode(b);
    lemma_encode_is_ascii(b);
    assert(is_ascii_chars(text@)) by {
        assert forall|i| 0 <= i < text@.len() implies '\0' <= #[trigger] text@[i] <= '\u{7f}' by {
            assert(e[i] < 128);
        }
    }
    is_ascii_chars_encode_utf8(text@);
    assert(text.spec_bytes() =~= e) by {
        assert forall|i| 0 <= i < e.len() implies text.spec_bytes()[i] == e[i] by {
            assert(text@[i] as u8 == encode_utf8(text@)[i]);
        }
    }
    law_decode_encode(b);
}

/// Unpadded base64url text (as bytes) in the form that decodes: every byte
/// is an alphabet symbol (`A-Z`, `a-z`, `0-9`, `-`, `_`; no `=` padding and
/// no `+` or `/`), the length is not one more than a multiple of four, and
/// the bits of a final partial group that no byte takes are zero.
pub open spec fn b64url_well_formed(s: Seq<u8>) -> bool {
    &&& forall|i: int| 0 <= i < s.len() ==> #[trigger] b64_value(s[i]) is Some
    &&& s.len() % 4 != 1
    &&& s.len() % 4 == 2 ==> b64_value(s[s.len() - 1])->0 & 15 == 0
    &&& s.len() % 4 == 3 ==> b64_value(s[s.len() - 1])->0 & 3 == 0
}

/// Law: base64url text decodes exactly when it is well formed.
pub proof fn law_decode_succeeds_exactly(s: Seq<u8>)
    ensures
        b64url_decode(s) is Some <==> b64url_well_formed(s),
    decreases s.len(),
{
    if s.len() >= 4 {
        let t = s.skip(4);
        law_decode_succeeds_exactly(t);
        if b64url_well_formed(s) {
            assert forall|i: int| 0 <= i < t.len() implies #[trigger] b64_value(t[i]) is Some by {
                assert(t[i] == s[i + 4]);
            }
            if t.len() > 0 {
                assert(t[t.len() - 1] == s[s.len() - 1]);
            }
            assert(b64_value(s[0]) is Some && b64_value(s[1]) is Some);
            assert(b64_value(s[2]) is Some && b64_value(s[3]) is Some);
        }
        if b64url_decode(s) is Some {
            assert(b64url_well_formed(t));
            assert forall|i: int| 0 <= i < s.len() implies #[trigger] b64_value(s[i]) is Some by {
                if i >= 4 {
                    assert(s[i] == t[i - 4]);
                }
            }
            if t.len() > 0 {
                assert(t[t.len() - 1] == s[s.len() - 1]);
            }
        }
    } else if s.len() == 2 || s.len() == 3 {
        if b64url_well_formed(s) {
            assert(b64_value(s[0]) is Some && b64_value(s[1]) is Some);
            if s.len() == 3 {
                assert(b64_value(s[2]) is Some);
            }
        }
    }
}

/// All bytes of the UTF-8 encoding of `chars` are ASCII only when every
/// character is.
proof fn lemma_ascii_bytes_ascii_chars(chars: Seq<char>)
    requires
        forall|i: int| 0 <= i < encode_utf8(chars).len() ==> #[trigger] encode_utf8(chars)[i] < 128,
    ensures
        is_ascii_chars(chars),
    decreases chars.len(),
{
    if chars.len() > 0 {
        let c = chars[0] as u32;
        let e = encode_utf8(chars);
        let first = encode_scalar(c);
        let rest = encode_utf8(chars.drop_first());
        assert(e == first + rest);
        assert(e[0] == first[0]);
        assert(e[0] < 128);
        assert(leading_byte_width_2(c) >= 128) by (bit_vector);
        assert(leading_byte_width_3(c) >= 128) by (bit_vector);
        assert(leading_byte_width_4(c) >= 128) by (bit_vector);
        assert(has_width_1_encoding(c));
        assert forall|i: int| 0 <= i < rest.len() implies #[trigger] rest[i] < 128 by {
            assert(rest[i] == e[i + first.len()]);
        }
        lemma_ascii_bytes_ascii_chars(chars.drop_first());
        assert(chars[0] <= '\u{7f}') by {
            vstd::utf8::char_u32_cast(chars[0], c);
        }
        assert forall|i: int| 0 <= i < chars.len() implies '\0' <= #[trigger] chars[i] <= '\u{7f}' by {
            if i == 0 {
                assert(chars[0] <= '\u{7f}');
                lemma_char_at_least_nul(chars[0]);
            } else {
                let d = chars.drop_first();
                assert(chars[i] == d[i - 1]);
                assert('\0' <= d[i - 1] <= '\u{7f}');
            }
        }
    }
}

/// Every character is at least NUL.
proof fn lemma_char_at_least_nul(c: char)
    ensures
        '\0' <= c,
{
}

/// Law: text that decodes is exactly the text that [`b64url`] writes for
/// the decoded bytes, so decoding and encoding round-trip at the level of
/// text too.
pub proof fn law_decode_text_roundtrip(text: &str)
    requires
        b64url_decode(text.spec_bytes()) is Some,
    ensures
        ascii_chars(b64url_encode(b64url_decode(text.spec_bytes()).unwrap())) == text@,
{
    let e = text.spec_bytes();
    law_encode_decode(e);
    law_decode_succeeds_exactly(e);
    assert forall|i: int| 0 <= i < encode_utf8(text@).len() implies #[trigger] encode_utf8(text@)[i]
        < 128 by {
        assert(b64_value(e[i]) is Some);
    }
    lemma_ascii_bytes_ascii_chars(text@);
    is_ascii_chars_encode_utf8(text@);
    assert(ascii_chars(e) =~= text@) by {
        assert forall|i: int| 0 <= i < text@.len() implies ascii_chars(e)[i] == text@[i] by {
            assert(text@[i] as u8 == e[i]);
            assert('\0' <= text@[i] <= '\u{7f}');
        }
    }
}

/// Encodes `bytes` as unpadded base64url text.
pub fn b64url(bytes: &[u8]) -> (out: String)
    ensures
        out@ == ascii_chars(b64url_encode(bytes@)),
{
    let n = bytes.len();
    let mut out = String::new();
    let mut i: usize = 0;
    assert(bytes@.skip(0) =~= bytes@);
    while i < n
        invariant
            n == bytes@.len(),
            i <= n,
            ascii_chars(b64url_encode(bytes@)) =~= out@ + ascii_chars(
                b64url_encode(bytes@.skip(i as int)),
            ),
        decreases n - i,
    {
        let ghost rest = bytes@.skip(i as int);
        let b0 = bytes[i];
        proof {
            lemma_group_ranges(b0, 0, 0);
        }
        if n - i == 1 {
            push_char(&mut out, symbol(b0 >> 2) as char);
            push_char(&mut out, symbol((b0 & 3) << 4) as char);
            assert(ascii_chars(enc1(b0)) =~= seq![b64_symbol(b0 >> 2) as char, b64_symbol((b0 & 3) << 4) as char]);
            assert(bytes@.skip(n as int) =~= Seq::<u8>::empty());
            i = n;
        } else if n - i == 2 {
            let b1 = bytes[i + 1];
            proof {
                lemma_group_ranges(b0, b1, 0);
            }
            push_char(&mut out, symbol(b0 >> 2) as char);
            push_char(&mut out, symbol(((b0 & 3) << 4) | (b1 >> 4)) as char);
            push_char(&mut out, symbol((b1 & 15) << 2) as char);
            assert(ascii_chars(enc2(b0, b1)) =~= seq![
                b64_symbol(b0 >> 2) as char,
                b64_symbol(((b0 & 3) << 4) | (b1 >> 4)) as char,
                b64_symbol((b1 & 15) << 2) as char,
            ]);
            assert(bytes@.skip(n as int) =~= Seq::<u8>::empty());
            i = n;
        } else {
            let b1 = bytes[i + 1];
            let b2 = bytes[i + 2];
            proof {
                lemma_group_ranges(b0, b1, b2);
            }
            push_char(&mut out, symbol(b0 >> 2) as char);
            push_char(&mut out, symbol(((b0 & 3) << 4) | (b1 >> 4)) as char);
            push_char(&mut out, symbol(((b1 & 15) << 2) | (b2 >> 6)) as char);
            push_char(&mut out, symbol(b2 & 63) as char);
            assert(rest.skip(3) =~= bytes@.skip(i + 3));
            assert(ascii_chars(enc3(b0, b1, b2) + b64url_encode(rest.skip(3))) =~= seq![
                b64_symbol(b0 >> 2) as char,
                b64_symbol(((b0 & 3) << 4) | (b1 >> 4)) as char,
                b64_symbol(((b1 & 15) << 2) | (b2 >> 6)) as char,
                b64_symbol(b2 & 63) as char,
            ] + ascii_chars(b64url_encode(rest.skip(3))));
            i = i + 3;
        }
    }
    out
}

/// Decodes unpadded base64url text; `None` when the text is not in the
/// alphabet, has an impossible length, or leaves non-zero trailing bits.
pub fn decode_b64url(value: &str) -> (r: Option<Vec<u8>>)
    ensures
        match r {
            Some(v) => b64url_decode(value.spec_bytes()) == Some(v@),
            None => b64url_decode(value.spec_bytes()) is None,
        },
{
    let s = value.as_bytes();
    let n = s.len();
    let mut out: Vec<u8> = Vec::new();
    let mut i: usize = 0;
    assert(s@.skip(0) =~= s@);
    while i < n
        invariant
            n == s@.len(),
            s@ == value.spec_bytes(),
            i <= n,
            b64url_decode(s@.skip(i as int)) matches Some(rest) ==> b64url_decode(s@) == Some(
                out@ + rest,
            ),
            b64url_decode(s@.skip(i as int)) is None ==> b64url_decode(s@) is None,
        decreases n - i,
    {
        let ghost rest = s@.skip(i as int);
        if n - i == 1 {
            return None;
        }
        let d0 = match symbol_value(s[i]) {
            Some(d) => d,
            None => {
                return None;
            },
        };
        let d1 = match symbol_value(s[i + 1]) {
            Some(d) => d,
            None => {
                return None;
            },
        };
        if n - i == 2 {
            if d1 & 15 != 0 {
                return None;
            }
            out.push((d0 << 2) | (d1 >> 4));
            assert(s@.skip(n as int) =~= Seq::<u8>::empty());
            i = n;
        } else {
            let d2 = match symbol_value(s[i + 2]) {
                Some(d) => d,
                None => {
                    return None;
                },
            };
            if n - i == 3 {
                if d2 & 3 != 0 {
                    return None;
                }
                out.push((d0 << 2) | (d1 >> 4));
                out.push((d1 << 4) | (d2 >> 2));
                assert(s@.skip(n as int) =~= Seq::<u8>::empty());
                i = n;
            } else {
                let d3 = match symbol_value(s[i + 3]) {
                    Some(d) => d,
                    None => {
                        assert(rest[3] == s@[i + 3]);
                        return None;
                    },
                };
                assert(rest.skip(4) =~= s@.skip(i + 4));
                out.push((d0 << 2) | (d1 >> 4));
                out.push((d1 << 4) | (d2 >> 2));
                out.push((d2 << 6) | d3);
                i = i + 4;
            }
        }
    }
    assert(b64url_decode(s@.skip(n as int)) == Some(Seq::<u8>::empty()));
    assert(out@ + Seq::<u8>::empty() =~= out@);
    Some(out)
}

} // verus!
