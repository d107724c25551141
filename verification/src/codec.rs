//! Text encodings of bytes: standard base64 (with padding) and hexadecimal.

use vstd::prelude::*;
use base64::Engine;

verus! {

/// The character of the standard base64 alphabet for the 6-bit value `v`.
pub open spec fn b64_char(v: int) -> char {
    if v < 26 {
        ((65 + v) as u32) as char
    } else if v < 52 {
        ((97 + v - 26) as u32) as char
    } else if v < 62 {
        ((48 + v - 52) as u32) as char
    } else if v == 62 {
        '+'
    } else {
        '/'
    }
}

/// The four 6-bit values of the base64 group of the bytes `a`, `b`, `c`
/// (a missing byte counts as 0).
pub open spec fn sextet0(a: u8) -> int {
    (a / 4) as int
}

pub open spec fn sextet1(a: u8, b: u8) -> int {
    (a % 4) * 16 + (b / 16) as int
}

pub open spec fn sextet2(b: u8, c: u8) -> int {
    (b % 16) * 4 + (c / 64) as int
}

pub open spec fn sextet3(c: u8) -> int {
    (c % 64) as int
}

/// Standard base64 with `=` padding: each group of three bytes becomes four
/// characters, a final group of one or two bytes is padded.
pub open spec fn b64_encode(d: Seq<u8>) -> Seq<char>
    decreases d.len(),
{
    if d.len() == 0 {
        seq![]
    } else if d.len() == 1 {
        seq![b64_char(sextet0(d[0])), b64_char(sextet1(d[0], 0)), '=', '=']
    } else if d.len() == 2 {
        seq![
            b64_char(sextet0(d[0])),
            b64_char(sextet1(d[0], d[1])),
            b64_char(sextet2(d[1], 0)),
            '=',
        ]
    } else {
        seq![
            b64_char(sextet0(d[0])),
            b64_char(sextet1(d[0], d[1])),
            b64_char(sextet2(d[1], d[2])),
            b64_char(sextet3(d[2])),
        ] + b64_encode(d.skip(3))
    }
}

/// `base64::engine::general_purpose::STANDARD.encode`. Trusted: the result
/// is the padded standard base64 text of the bytes, `b64_encode`.
#[verifier::external_body]
pub(crate) fn base64_encode(data: &[u8]) -> (r: String)
    ensures
        r@ == b64_encode(data@),
{
    base64::engine::general_purpose::STANDARD.encode(data)
}

/// `base64::engine::general_purpose::STANDARD.decode`. Trusted: that engine
/// requires canonical padding and refuses trailing bits, so it accepts
/// exactly the texts that `b64_encode` produces and gives back the bytes
/// encoded; every other text is refused.
#[verifier::external_body]
pub(crate) fn base64_decode(s: &str) -> (r: Option<Vec<u8>>)
    ensures
        match r {
            Some(v) => b64_encode(v@) == s@,
            None => forall|x: Seq<u8>| b64_encode(x) != s@,
        },
{
    base64::engine::general_purpose::STANDARD.decode(s).ok()
}

proof fn lemma_b64_char_injective(a: int, b: int)
    requires
        0 <= a < 64,
        0 <= b < 64,
        b64_char(a) == b64_char(b),
    ensures
        a == b,
{
}

proof fn lemma_b64_char_not_pad(a: int)
    requires
        0 <= a < 64,
    ensures
        b64_char(a) != '=',
{
}

proof fn lemma_group_values(x0: u8, x1: u8, x2: u8, y0: u8, y1: u8, y2: u8)
    requires
        sextet0(x0) == sextet0(y0),
        sextet1(x0, x1) == sextet1(y0, y1),
        sextet2(x1, x2) == sextet2(y1, y2),
        sextet3(x2) == sextet3(y2),
    ensures
        x0 == y0 && x1 == y1 && x2 == y2,
{
    assert(x0 % 4 == y0 % 4 && x1 / 16 == y1 / 16);
    assert(x1 % 16 == y1 % 16 && x2 / 64 == y2 / 64);
}

/// Base64 loses nothing: two byte sequences with the same base64 text are
/// equal. So decoding the text of `x` gives back `x`.
pub proof fn law_base64_injective(x: Seq<u8>, y: Seq<u8>)
    requires
        b64_encode(x) == b64_encode(y),
    ensures
        x == y,
    decreases x.len(),
{
    let ex = b64_encode(x);
    let ey = b64_encode(y);
    if x.len() == 0 {
        if y.len() > 0 {
            assert(ey.len() >= 4);
        }
        assert(x =~= y);
        return;
    }
    if y.len() == 0 {
        assert(ex.len() >= 4);
        return;
    }
    assert(ex[0] == ey[0]);
    assert(ex[1] == ey[1]);
    assert(ex[2] == ey[2]);
    assert(ex[3] == ey[3]);
    if x.len() == 1 {
        if y.len() == 2 {
            lemma_b64_char_not_pad(sextet2(y[1], 0));
        }
        if y.len() >= 3 {
            lemma_b64_char_not_pad(sextet2(y[1], y[2]));
        }
        lemma_b64_char_injective(sextet0(x[0]), sextet0(y[0]));
        lemma_b64_char_injective(sextet1(x[0], 0), sextet1(y[0], 0));
        lemma_group_values(x[0], 0, 0, y[0], 0, 0);
        assert(x =~= y);
    } else if x.len() == 2 {
        if y.len() == 1 {
            lemma_b64_char_not_pad(sextet2(x[1], 0));
        }
        if y.len() >= 3 {
            lemma_b64_char_not_pad(sextet3(y[2]));
        }
        lemma_b64_char_injective(sextet0(x[0]), sextet0(y[0]));
        lemma_b64_char_injective(sextet1(x[0], x[1]), sextet1(y[0], y[1]));
        lemma_b64_char_injective(sextet2(x[1], 0), sextet2(y[1], 0));
        lemma_group_values(x[0], x[1], 0, y[0], y[1], 0);
        assert(x =~= y);
    } else {
        if y.len() == 1 {
            lemma_b64_char_not_pad(sextet2(x[1], x[2]));
        }
        if y.len() == 2 {
            lemma_b64_char_not_pad(sextet3(x[2]));
        }
        lemma_b64_char_injective(sextet0(x[0]), sextet0(y[0]));
        lemma_b64_char_injective(sextet1(x[0], x[1]), sextet1(y[0], y[1]));
        lemma_b64_char_injective(sextet2(x[1], x[2]), sextet2(y[1], y[2]));
        lemma_b64_char_injective(sextet3(x[2]), sextet3(y[2]));
        lemma_group_values(x[0], x[1], x[2], y[0], y[1], y[2]);
        assert(ex.skip(4) =~= b64_encode(x.skip(3)));
        assert(ey.skip(4) =~= b64_encode(y.skip(3)));
        law_base64_injective(x.skip(3), y.skip(3));
        assert(x =~= x.take(3) + x.skip(3));
        assert(y =~= y.take(3) + y.skip(3));
        assert(x.take(3) =~= y.take(3));
    }
}

/// The value of a hexadecimal digit, or -1 for any other character.
pub open spec fn hex_value(c: char) -> int {
    let u = c as u32;
    if 48 <= u <= 57 {
        u - 48
    } else if 97 <= u <= 102 {
        u - 87
    } else if 65 <= u <= 70 {
        u - 55
    } else {
        -1
    }
}

/// Whether `s` is hexadecimal text: an even number of hexadecimal digits,
/// either case.
pub open spec fn is_hex_text(s: Seq<char>) -> bool {
    s.len() % 2 == 0 && forall|i: int| 0 <= i < s.len() ==> hex_value(#[trigger] s[i]) >= 0
}

/// The bytes that the hexadecimal text `s` denotes, two digits per byte,
/// high digit first.
pub open spec fn hex_bytes(s: Seq<char>) -> Seq<u8> {
    Seq::new(s.len() / 2, |i: int| (16 * hex_value(s[2 * i]) + hex_value(s[2 * i + 1])) as u8)
}

/// `hex::decode`. Trusted: it succeeds exactly on an even number of
/// hexadecimal digits (either case) and gives the bytes they denote, two
/// digits per byte, high digit first.
#[verifier::external_body]
pub(crate) fn hex_decode(s: &str) -> (r: Option<Vec<u8>>)
    ensures
        match r {
            Some(v) => is_hex_text(s@) && v@ == hex_bytes(s@),
            None => !is_hex_text(s@),
        },
{
    hex::decode(s).ok()
}

} // verus!
