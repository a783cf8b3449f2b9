//! Percent-escape codec for the line-oriented secure-prompt protocol.
//!
//! A response payload is a byte string in which a literal byte stands for
//! itself and `%` introduces a two-hex-digit escape for one byte. Decoding is
//! all or nothing: a truncated or non-hex escape fails the whole line, and the
//! decoded bytes must form valid UTF-8 text.

use vstd::prelude::*;
use vstd::utf8::decode_utf8;
use vstd::utf8::encode_utf8;
use vstd::utf8::encode_utf8_decode_utf8;
use vstd::utf8::encode_utf8_valid_utf8;
use vstd::utf8::valid_utf8;

verus! {

/// The ASCII code of `%`, the escape introducer.
pub open spec fn escape_byte() -> u8 {
    37
}

/// Whether `b` is the ASCII code of a hexadecimal digit.
pub open spec fn is_hex_digit(b: u8) -> bool {
    (48 <= b <= 57) || (65 <= b <= 70) || (97 <= b <= 102)
}

/// The value of the hexadecimal digit with ASCII code `b`.
pub open spec fn hex_value(b: u8) -> u8 {
    if 48 <= b <= 57 {
        (b - 48) as u8
    } else if 65 <= b <= 70 {
        (b - 55) as u8
    } else {
        (b - 87) as u8
    }
}

/// Whether every escape in `s` is well formed: each `%` is followed by two
/// hexadecimal digits.
pub open spec fn unescape_ok(s: Seq<u8>) -> bool
    decreases s.len(),
{
    if s.len() == 0 {
        true
    } else if s[0] != escape_byte() {
        unescape_ok(s.drop_first())
    } else {
        s.len() >= 3 && is_hex_digit(s[1]) && is_hex_digit(s[2]) && unescape_ok(s.skip(3))
    }
}

/// The bytes that `s` unescapes to, meaningful where `unescape_ok(s)` holds.
pub open spec fn unescaped(s: Seq<u8>) -> Seq<u8>
    decreases s.len(),
{
    if s.len() == 0 {
        Seq::empty()
    } else if s[0] != escape_byte() {
        seq![s[0]] + unescaped(s.drop_first())
    } else if s.len() >= 3 {
        seq![(hex_value(s[1]) * 16 + hex_value(s[2])) as u8] + unescaped(s.skip(3))
    } else {
        Seq::empty()
    }
}

/// Whether decoding `s` succeeds: all escapes well formed and the unescaped
/// bytes valid UTF-8.
pub open spec fn decode_ok(s: Seq<u8>) -> bool {
    unescape_ok(s) && valid_utf8(unescaped(s))
}

/// The text a successful decode of `s` yields.
pub open spec fn decoded_text(s: Seq<u8>) -> Seq<char> {
    decode_utf8(unescaped(s))
}

/// Relies on `String::from_utf8`: it returns `Ok` exactly on valid UTF-8
/// input, and the string then consists of the decoded scalar values.
#[verifier::external_body]
pub(crate) fn string_from_utf8(bytes: Vec<u8>) -> (r: Option<String>)
    ensures
        r is Some <==> valid_utf8(bytes@),
        r is Some ==> r.unwrap()@ == decode_utf8(bytes@),
{
    String::from_utf8(bytes).ok()
}

/// Exec test of `is_hex_digit`.
fn hex_digit_check(b: u8) -> (r: bool)
    ensures
        r == is_hex_digit(b),
{
    (48 <= b && b <= 57) || (65 <= b && b <= 70) || (97 <= b && b <= 102)
}

/// Exec computation of `hex_value`.
fn hex_digit_value(b: u8) -> (r: u8)
    requires
        is_hex_digit(b),
    ensures
        r == hex_value(b),
{
    if 48 <= b && b <= 57 {
        b - 48
    } else if 65 <= b && b <= 70 {
        b - 55
    } else {
        b - 87
    }
}

/// Decodes one percent-escaped payload into the secret text it carries.
///
/// Decoding is all or nothing: `None` exactly where an escape is truncated or
/// non-hex, or the unescaped bytes are not valid text; no partial output ever
/// escapes. An empty payload decodes to the empty string.
pub fn decode_assuan_data(encoded: &[u8]) -> (r: Option<String>)
    ensures
        r is Some <==> decode_ok(encoded@),
        r is Some ==> r.unwrap()@ == decoded_text(encoded@),
{
    let n = encoded.len();
    let mut decoded: Vec<u8> = Vec::new();
    let mut i: usize = 0;
    proof {
        assert(encoded@.skip(0) =~= encoded@);
    }
    while i < n
        invariant
            0 <= i <= n,
            n == encoded@.len(),
            unescape_ok(encoded@) == unescape_ok(encoded@.skip(i as int)),
            unescape_ok(encoded@) ==> unescaped(encoded@) == decoded@ + unescaped(
                encoded@.skip(i as int),
            ),
        decreases n - i,
    {
        let ghost pre = encoded@.skip(i as int);
        if encoded[i] != 37 {
            decoded.push(encoded[i]);
            proof {
                assert(pre.drop_first() =~= encoded@.skip(i + 1));
                assert(seq![encoded@[i as int]] + unescaped(pre.drop_first()) == unescaped(pre));
            }
            i = i + 1;
        } else {
            if n - i < 3 || !hex_digit_check(encoded[i + 1]) || !hex_digit_check(encoded[i + 2]) {
                proof {
                    assert(!unescape_ok(pre));
                }
                return None;
            }
            let hi = hex_digit_value(encoded[i + 1]);
            let lo = hex_digit_value(encoded[i + 2]);
            decoded.push(hi * 16 + lo);
            proof {
                assert(pre.skip(3) =~= encoded@.skip(i + 3));
            }
            i = i + 3;
        }
    }
    proof {
        assert(encoded@.skip(n as int) =~= Seq::<u8>::empty());
        if unescape_ok(encoded@) {
            assert(unescaped(encoded@) =~= decoded@);
        }
    }
    string_from_utf8(decoded)
}

/// How the protocol peer escapes a byte: `%`, carriage return and line feed
/// are written as a two-hex-digit escape, every other byte stands for itself.
pub open spec fn escaped_byte(b: u8) -> Seq<u8> {
    if b == 37 || b == 10 || b == 13 {
        seq![escape_byte(), hex_digit_ascii(b / 16), hex_digit_ascii((b % 16) as u8)]
    } else {
        seq![b]
    }
}

/// The ASCII code of the uppercase hexadecimal digit for `v < 16`.
pub open spec fn hex_digit_ascii(v: u8) -> u8 {
    if v < 10 {
        (v + 48) as u8
    } else {
        (v + 55) as u8
    }
}

/// The percent-escaped form of a byte string.
pub open spec fn escaped(b: Seq<u8>) -> Seq<u8>
    decreases b.len(),
{
    if b.len() == 0 {
        Seq::empty()
    } else {
        escaped_byte(b.first()) + escaped(b.drop_first())
    }
}

/// Escaping one byte always yields a well-formed payload that unescapes back
/// to that byte.
proof fn lemma_escaped_byte_round_trip(b: u8)
    ensures
        unescape_ok(escaped_byte(b)),
        unescaped(escaped_byte(b)) =~= seq![b],
{
    let e = escaped_byte(b);
    assert(unescape_ok(Seq::<u8>::empty()));
    assert(unescaped(Seq::<u8>::empty()) =~= Seq::<u8>::empty());
    if b == 37 || b == 10 || b == 13 {
        assert(is_hex_digit(hex_digit_ascii(b / 16)));
        assert(is_hex_digit(hex_digit_ascii((b % 16) as u8)));
        assert(hex_value(hex_digit_ascii(b / 16)) == b / 16);
        assert(hex_value(hex_digit_ascii((b % 16) as u8)) == b % 16);
        assert(e.skip(3) =~= Seq::<u8>::empty());
        assert(e.len() == 3 && e[0] == escape_byte() && e[1] == hex_digit_ascii(b / 16) && e[2]
            == hex_digit_ascii((b % 16) as u8));
        assert(unescape_ok(e));
        assert(hex_value(e[1]) * 16 + hex_value(e[2]) == b) by {
            assert(b / 16 * 16 + b % 16 == b) by (nonlinear_arith);
        }
        assert(unescaped(e) =~= seq![b]);
    } else {
        assert(e.len() == 1 && e[0] == b && e[0] != escape_byte());
        assert(e.drop_first() =~= Seq::<u8>::empty());
        assert(unescape_ok(e));
        assert(unescaped(e) =~= seq![b]);
    }
}

/// Escaping never fails to unescape: every payload built by `escaped` is well
/// formed, and unescaping it restores the original bytes exactly.
pub proof fn lemma_escape_round_trip(b: Seq<u8>)
    ensures
        unescape_ok(escaped(b)),
        unescaped(escaped(b)) == b,
    decreases b.len(),
{
    if b.len() == 0 {
        assert(unescaped(escaped(b)) =~= b);
    } else {
        let head = escaped_byte(b.first());
        let tail = escaped(b.drop_first());
        lemma_escaped_byte_round_trip(b.first());
        lemma_escape_round_trip(b.drop_first());
        lemma_unescape_append(head, tail);
        assert(escaped(b) == head + tail);
        assert(unescaped(escaped(b)) =~= b);
    }
}

/// Unescaping distributes over concatenation where the left part is well
/// formed.
proof fn lemma_unescape_append(a: Seq<u8>, b: Seq<u8>)
    requires
        unescape_ok(a),
    ensures
        unescape_ok(a + b) == unescape_ok(b),
        unescape_ok(b) ==> unescaped(a + b) == unescaped(a) + unescaped(b),
    decreases a.len(),
{
    if a.len() == 0 {
        assert(a + b =~= b);
        assert(unescaped(a) + unescaped(b) =~= unescaped(b));
    } else if a[0] != escape_byte() {
        lemma_unescape_append(a.drop_first(), b);
        assert((a + b).drop_first() =~= a.drop_first() + b);
        if unescape_ok(b) {
            assert(unescaped(a + b) =~= unescaped(a) + unescaped(b));
        }
    } else {
        lemma_unescape_append(a.skip(3), b);
        assert((a + b).skip(3) =~= a.skip(3) + b);
        if unescape_ok(b) {
            assert(unescaped(a + b) =~= unescaped(a) + unescaped(b));
        }
    }
}

/// The round trip at the level of text: any secret, escaped by the peer,
/// decodes back to itself.
pub proof fn lemma_decode_of_escaped_text(s: Seq<char>)
    ensures
        decode_ok(escaped(encode_utf8(s))),
        decoded_text(escaped(encode_utf8(s))) == s,
{
    lemma_escape_round_trip(encode_utf8(s));
    encode_utf8_valid_utf8(s);
    encode_utf8_decode_utf8(s);
}

/// Escapes a byte string as the protocol peer would; the inverse of
/// `decode_assuan_data` on well-formed text.
pub fn encode_assuan_data(data: &[u8]) -> (r: Vec<u8>)
    ensures
        r@ == escaped(data@),
{
    let n = data.len();
    let mut out: Vec<u8> = Vec::new();
    let mut i: usize = 0;
    while i < n
        invariant
            0 <= i <= n,
            n == data@.len(),
            out@ == escaped(data@.take(i as int)),
        decreases n - i,
    {
        let ghost pre = data@.take(i as int);
        let b = data[i];
        if b == 37 || b == 10 || b == 13 {
            out.push(37);
            out.push(hex_ascii(b / 16));
            out.push(hex_ascii(b % 16));
        } else {
            out.push(b);
        }
        proof {
            lemma_escaped_snoc(pre, b);
            assert(data@.take(i + 1) =~= pre.push(b));
        }
        i = i + 1;
    }
    proof {
        assert(data@.take(n as int) =~= data@);
    }
    out
}

/// Exec computation of `hex_digit_ascii`.
fn hex_ascii(v: u8) -> (r: u8)
    requires
        v < 16,
    ensures
        r == hex_digit_ascii(v),
{
    if v < 10 {
        v + 48
    } else {
        v + 55
    }
}

/// Escaping a byte string one byte longer appends that byte's escape.
proof fn lemma_escaped_snoc(b: Seq<u8>, x: u8)
    ensures
        escaped(b.push(x)) == escaped(b) + escaped_byte(x),
    decreases b.len(),
{
    assert(b.push(x).len() == b.len() + 1);
    assert(escaped(Seq::<u8>::empty()) =~= Seq::<u8>::empty());
    if b.len() == 0 {
        assert(b.push(x).first() == x);
        assert(b.push(x).drop_first() =~= Seq::<u8>::empty());
        assert(escaped(b.push(x)) =~= escaped(b) + escaped_byte(x));
    } else {
        lemma_escaped_snoc(b.drop_first(), x);
        assert(b.push(x).first() == b.first());
        assert(b.push(x).drop_first() =~= b.drop_first().push(x));
        assert(escaped(b.push(x)) =~= escaped(b) + escaped_byte(x));
    }
}

} // verus!
