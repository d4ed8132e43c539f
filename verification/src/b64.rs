//! Base64 with the URL-safe alphabet and `=` padding (RFC 4648, section 5):
//! the encoding, what decoding accepts, and that decoding undoes encoding.

use vstd::prelude::*;
use crate::bindings::base64_decode;

verus! {

/// The character of a 6-bit value in the URL-safe alphabet
/// `A-Z a-z 0-9 - _`.
pub open spec fn sextet_char(v: int) -> char {
    if v < 26 {
        (65 + v) as char
    } else if v < 52 {
        (97 + v - 26) as char
    } else if v < 62 {
        (48 + v - 52) as char
    } else if v == 62 {
        '-'
    } else {
        '_'
    }
}

/// The four characters that encode three bytes.
pub open spec fn encode_triple(b0: u8, b1: u8, b2: u8) -> Seq<char> {
    seq![
        sextet_char((b0 as int) / 4),
        sextet_char(((b0 as int) % 4) * 16 + (b1 as int) / 16),
        sextet_char(((b1 as int) % 16) * 4 + (b2 as int) / 64),
        sextet_char((b2 as int) % 64),
    ]
}

/// The four characters that encode the last one or two bytes, padded with `=`.
pub open spec fn encode_tail(b: Seq<u8>) -> Seq<char> {
    if b.len() == 1 {
        seq![sextet_char((b[0] as int) / 4), sextet_char(((b[0] as int) % 4) * 16), '=', '=']
    } else {
        seq![
            sextet_char((b[0] as int) / 4),
            sextet_char(((b[0] as int) % 4) * 16 + (b[1] as int) / 16),
            sextet_char(((b[1] as int) % 16) * 4),
            '=',
        ]
    }
}

/// The padded URL-safe base64 encoding of `b`.
pub open spec fn base64_url_encode(b: Seq<u8>) -> Seq<char>
    decreases b.len(),
{
    if b.len() == 0 {
        seq![]
    } else if b.len() < 3 {
        encode_tail(b)
    } else {
        encode_triple(b[0], b[1], b[2]) + base64_url_encode(b.skip(3))
    }
}

/// What decoding `s` gives: the bytes whose encoding is `s`, if there are any.
pub open spec fn base64_url_decode(s: Seq<char>) -> Option<Seq<u8>> {
    if exists|b: Seq<u8>| #[trigger] base64_url_encode(b) == s {
        Some(choose|b: Seq<u8>| #[trigger] base64_url_encode(b) == s)
    } else {
        None
    }
}

proof fn lemma_sextet_char_injective(v: int, w: int)
    requires
        0 <= v < 64,
        0 <= w < 64,
        sextet_char(v) == sextet_char(w),
    ensures
        v == w,
{
    assert(sextet_char(v) as int == sextet_char(w) as int);
}

proof fn lemma_sextet_char_not_pad(v: int)
    requires
        0 <= v < 64,
    ensures
        sextet_char(v) != '=',
{
    assert(sextet_char(v) as int != 61);
}

proof fn lemma_encode_len(b: Seq<u8>)
    ensures
        base64_url_encode(b).len() == 4 * ((b.len() + 2) / 3),
        b.len() > 0 ==> base64_url_encode(b).len() >= 4,
    decreases b.len(),
{
    if b.len() >= 3 {
        lemma_encode_len(b.skip(3));
    }
}

proof fn lemma_triple_injective(a0: u8, a1: u8, a2: u8, c0: u8, c1: u8, c2: u8)
    requires
        encode_triple(a0, a1, a2) == encode_triple(c0, c1, c2),
    ensures
        a0 == c0 && a1 == c1 && a2 == c2,
{
    let ea = encode_triple(a0, a1, a2);
    let ec = encode_triple(c0, c1, c2);
    assert(ea[0] == ec[0] && ea[1] == ec[1] && ea[2] == ec[2] && ea[3] == ec[3]);
    lemma_sextet_char_injective((a0 as int) / 4, (c0 as int) / 4);
    lemma_sextet_char_injective(
        ((a0 as int) % 4) * 16 + (a1 as int) / 16,
        ((c0 as int) % 4) * 16 + (c1 as int) / 16,
    );
    lemma_sextet_char_injective(
        ((a1 as int) % 16) * 4 + (a2 as int) / 64,
        ((c1 as int) % 16) * 4 + (c2 as int) / 64,
    );
    lemma_sextet_char_injective((a2 as int) % 64, (c2 as int) % 64);
}

proof fn lemma_tail_injective(a: Seq<u8>, c: Seq<u8>)
    requires
        1 <= a.len() <= 2,
        1 <= c.len() <= 2,
        encode_tail(a) == encode_tail(c),
    ensures
        a == c,
{
    let ea = encode_tail(a);
    let ec = encode_tail(c);
    assert(ea[0] == ec[0] && ea[1] == ec[1] && ea[2] == ec[2]);
    lemma_sextet_char_injective((a[0] as int) / 4, (c[0] as int) / 4);
    if a.len() == 2 {
        lemma_sextet_char_not_pad(((a[1] as int) % 16) * 4);
        if c.len() == 1 {
            assert(false);
        }
        lemma_sextet_char_injective(
            ((a[0] as int) % 4) * 16 + (a[1] as int) / 16,
            ((c[0] as int) % 4) * 16 + (c[1] as int) / 16,
        );
        lemma_sextet_char_injective(((a[1] as int) % 16) * 4, ((c[1] as int) % 16) * 4);
        assert(a =~= c);
    } else {
        if c.len() == 2 {
            lemma_sextet_char_not_pad(((c[1] as int) % 16) * 4);
            assert(false);
        }
        lemma_sextet_char_injective(((a[0] as int) % 4) * 16, ((c[0] as int) % 4) * 16);
        assert(a =~= c);
    }
}

/// The encoding of a non-empty byte sequence is not empty.
pub proof fn lemma_base64_encode_nonempty(b: Seq<u8>)
    requires
        b.len() > 0,
    ensures
        base64_url_encode(b).len() >= 4,
{
    lemma_encode_len(b);
}

/// Two byte sequences with the same encoding are equal.
pub proof fn lemma_base64_encode_injective(a: Seq<u8>, c: Seq<u8>)
    requires
        base64_url_encode(a) == base64_url_encode(c),
    ensures
        a == c,
    decreases a.len(),
{
    lemma_encode_len(a);
    lemma_encode_len(c);
    let ea = base64_url_encode(a);
    if a.len() == 0 || c.len() == 0 {
        assert(a.len() == 0 && c.len() == 0);
        assert(a =~= c);
    } else if a.len() >= 3 && c.len() >= 3 {
        let ta = encode_triple(a[0], a[1], a[2]);
        let tc = encode_triple(c[0], c[1], c[2]);
        assert(ta == ea.take(4));
        assert(tc == ea.take(4));
        lemma_triple_injective(a[0], a[1], a[2], c[0], c[1], c[2]);
        assert(base64_url_encode(a.skip(3)) == ea.skip(4));
        assert(base64_url_encode(c.skip(3)) == ea.skip(4));
        lemma_base64_encode_injective(a.skip(3), c.skip(3));
        assert(a =~= a.take(3) + a.skip(3));
        assert(c =~= c.take(3) + c.skip(3));
        assert(a.take(3) =~= c.take(3));
    } else if a.len() < 3 && c.len() < 3 {
        lemma_tail_injective(a, c);
    } else if a.len() < 3 {
        lemma_encode_len(c.skip(3));
        assert(c.len() == 3);
        lemma_sextet_char_not_pad((c[2] as int) % 64);
        assert(ea[3] == encode_triple(c[0], c[1], c[2])[3]);
        assert(false);
    } else {
        lemma_encode_len(a.skip(3));
        assert(a.len() == 3);
        lemma_sextet_char_not_pad((a[2] as int) % 64);
        assert(ea[3] == encode_triple(a[0], a[1], a[2])[3]);
        assert(false);
    }
}

/// Decoding undoes encoding: decoding the encoding of `b` gives `b`.
pub proof fn lemma_base64_roundtrip(b: Seq<u8>)
    ensures
        base64_url_decode(base64_url_encode(b)) == Some(b),
{
    let s = base64_url_encode(b);
    assert(base64_url_encode(b) == s);
    let c = choose|c: Seq<u8>| #[trigger] base64_url_encode(c) == s;
    lemma_base64_encode_injective(b, c);
}

/// At most one byte sequence decodes from a given text.
pub proof fn lemma_base64_decode_unique(s: Seq<char>, b: Seq<u8>)
    requires
        base64_url_encode(b) == s,
    ensures
        base64_url_decode(s) == Some(b),
{
    lemma_base64_roundtrip(b);
}

/// Decodes padded URL-safe base64: the bytes whose encoding the text is, or
/// `None` where the text is no such encoding.
pub fn decode_base64(text: &str) -> (res: Option<Vec<u8>>)
    ensures
        res is None == base64_url_decode(text@) is None,
        res matches Some(b) ==> base64_url_decode(text@) == Some(b@),
{
    let res = base64_decode(text);
    proof {
        if res is Some {
            lemma_base64_decode_unique(text@, res->0@);
        }
    }
    res
}

} // verus!
