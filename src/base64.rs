//! Base64 text (RFC 4648, standard alphabet, `=` padding) as base64_light
//! writes and reads it, and the grammar of the texts that are accepted.
//!
//! Everything here is stated over bytes: a Base64 text is ASCII, so its
//! characters and its bytes are the same values.
use vstd::prelude::*;
use vstd::utf8::{is_leading_byte_width_1, partial_valid_utf8, valid_utf8};

verus! {

/// The padding character `=`.
pub const PAD: u8 = 61;

/// The digit that stands for the six-bit value `v`.
pub open spec fn digit_of(v: int) -> u8 {
    if v < 26 {
        (65 + v) as u8  // 'A'..='Z'
    } else if v < 52 {
        (71 + v) as u8  // 'a'..='z'
    } else if v < 62 {
        (v - 4) as u8  // '0'..='9'
    } else if v == 62 {
        43  // '+'
    } else {
        47  // '/'
    }
}

/// True for the sixty-four digits of the standard alphabet.
pub open spec fn is_digit(c: u8) -> bool {
    (65 <= c <= 90) || (97 <= c <= 122) || (48 <= c <= 57) || c == 43 || c == 47
}

/// The six-bit value of a digit; 0 for any other byte, padding included.
pub open spec fn value_of(c: u8) -> int {
    if 65 <= c <= 90 {
        c - 65
    } else if 97 <= c <= 122 {
        c - 71
    } else if 48 <= c <= 57 {
        c + 4
    } else if c == 43 {
        62
    } else if c == 47 {
        63
    } else {
        0
    }
}

/// True for carriage return and line feed, which a reader skips.
pub open spec fn is_line_break(c: u8) -> bool {
    c == 10 || c == 13
}

/// The four characters that encode one to three bytes; missing bytes are
/// marked by padding.
pub open spec fn encode_group(b: Seq<u8>) -> Seq<u8> {
    let b0 = b[0] as int;
    let b1 = if b.len() > 1 { b[1] as int } else { 0 };
    let b2 = if b.len() > 2 { b[2] as int } else { 0 };
    seq![
        digit_of(b0 / 4),
        digit_of((b0 % 4) * 16 + b1 / 16),
        if b.len() > 1 { digit_of((b1 % 16) * 4 + b2 / 64) } else { PAD },
        if b.len() > 2 { digit_of(b2 % 64) } else { PAD },
    ]
}

/// The Base64 text of `b`, three bytes to four characters.
pub open spec fn base64_encoding(b: Seq<u8>) -> Seq<u8>
    decreases b.len(),
{
    if b.len() == 0 {
        seq![]
    } else if b.len() <= 3 {
        encode_group(b)
    } else {
        encode_group(b.take(3)) + base64_encoding(b.skip(3))
    }
}

/// The bytes that a group of four characters stands for: three, fewer one for
/// each padding character in the last two places.
pub open spec fn decode_group(q: Seq<u8>) -> Seq<u8> {
    let v0 = value_of(q[0]);
    let v1 = value_of(q[1]);
    let v2 = value_of(q[2]);
    let v3 = value_of(q[3]);
    seq![(v0 * 4 + v1 / 16) as u8] + (if q[2] != PAD {
        seq![((v1 % 16) * 16 + v2 / 4) as u8]
    } else {
        seq![]
    }) + (if q[3] != PAD {
        seq![((v2 % 4) * 64 + v3) as u8]
    } else {
        seq![]
    })
}

/// The bytes of a text without line breaks, group by group.
pub open spec fn decode_groups(t: Seq<u8>) -> Seq<u8>
    decreases t.len(),
{
    if t.len() < 4 {
        seq![]
    } else {
        decode_group(t.take(4)) + decode_groups(t.skip(4))
    }
}

/// The text with its line breaks left out.
pub open spec fn without_line_breaks(t: Seq<u8>) -> Seq<u8>
    decreases t.len(),
{
    if t.len() == 0 {
        t
    } else if is_line_break(t.last()) {
        without_line_breaks(t.drop_last())
    } else {
        without_line_breaks(t.drop_last()).push(t.last())
    }
}

/// The bytes that a well-formed Base64 text stands for.
pub open spec fn base64_decoding(text: Seq<u8>) -> Seq<u8> {
    decode_groups(without_line_breaks(text))
}

/// A group of four digits.
pub open spec fn is_full_group(q: Seq<u8>) -> bool {
    is_digit(q[0]) && is_digit(q[1]) && is_digit(q[2]) && is_digit(q[3])
}

/// A last group: two digits, then two digits, a digit and padding, or two
/// padding characters.
pub open spec fn is_last_group(q: Seq<u8>) -> bool {
    &&& is_digit(q[0])
    &&& is_digit(q[1])
    &&& (is_digit(q[2]) && (is_digit(q[3]) || q[3] == PAD)) || (q[2] == PAD && q[3] == PAD)
}

/// A text without line breaks made of whole groups, of which only the last
/// may hold padding.
pub open spec fn is_group_sequence(t: Seq<u8>) -> bool
    decreases t.len(),
{
    if t.len() == 0 {
        true
    } else if t.len() < 4 {
        false
    } else if t.len() == 4 {
        is_last_group(t)
    } else {
        is_full_group(t.take(4)) && is_group_sequence(t.skip(4))
    }
}

/// A well-formed Base64 text: once its line breaks are left out, whole groups
/// of the standard alphabet with padding only at the end.
pub open spec fn is_base64_text(text: Seq<u8>) -> bool {
    is_group_sequence(without_line_breaks(text))
}

/// Relies on base64_light's `base64_encode_bytes`: three input bytes become four
/// characters of the standard alphabet, and a last group of one or two bytes is
/// completed with `==` or `=`. The String is then taken as its bytes.
#[verifier::external_body]
pub(crate) fn light_encode(bytes: &[u8]) -> (r: Vec<u8>)
    requires
        4 * (bytes@.len() + 2) / 3 <= isize::MAX,
    ensures
        r@ == base64_encoding(bytes@),
{
    base64_light::base64_encode_bytes(bytes).into_bytes()
}

/// Relies on base64_light's `base64_decode`: it drops CR and LF, then turns each
/// group of four characters into three bytes, leaving out one byte for each `=`
/// in the group's last two places. On a well-formed text every byte is ASCII,
/// so the lossy conversion to `str` keeps the text as it is.
#[verifier::external_body]
pub(crate) fn light_decode(text: &[u8]) -> (r: Vec<u8>)
    requires
        is_base64_text(text@),
    ensures
        r@ == base64_decoding(text@),
{
    base64_light::base64_decode(&String::from_utf8_lossy(text))
}

/// Relies on `std::str::from_utf8`: it succeeds exactly on valid UTF-8.
#[verifier::external_body]
pub(crate) fn is_utf8(bytes: &[u8]) -> (r: bool)
    ensures
        r == valid_utf8(bytes@),
{
    std::str::from_utf8(bytes).is_ok()
}

proof fn lemma_digit_round_trip(v: int)
    requires
        0 <= v < 64,
    ensures
        is_digit(digit_of(v)),
        value_of(digit_of(v)) == v,
        digit_of(v) != PAD,
        !is_line_break(digit_of(v)),
{
}

proof fn lemma_first_byte(b0: int, b1: int)
    requires
        0 <= b0 < 256,
        0 <= b1 < 256,
    ensures
        0 <= (b0 % 4) * 16 + b1 / 16 < 64,
        (b0 / 4) * 4 + ((b0 % 4) * 16 + b1 / 16) / 16 == b0,
{
    assert(0 <= b0 % 4 < 4 && 0 <= b1 / 16 < 16) by (nonlinear_arith)
        requires
            0 <= b0 < 256,
            0 <= b1 < 256,
    ;
    assert(((b0 % 4) * 16 + b1 / 16) / 16 == b0 % 4) by (nonlinear_arith)
        requires
            0 <= b0 % 4 < 4,
            0 <= b1 / 16 < 16,
    ;
    assert((b0 / 4) * 4 + b0 % 4 == b0) by (nonlinear_arith);
}

proof fn lemma_second_byte(b0: int, b1: int, b2: int)
    requires
        0 <= b0 < 256,
        0 <= b1 < 256,
        0 <= b2 < 256,
    ensures
        0 <= (b1 % 16) * 4 + b2 / 64 < 64,
        (((b0 % 4) * 16 + b1 / 16) % 16) * 16 + ((b1 % 16) * 4 + b2 / 64) / 4 == b1,
{
    assert(0 <= b0 % 4 < 4 && 0 <= b1 / 16 < 16 && 0 <= b1 % 16 < 16 && 0 <= b2 / 64 < 4)
        by (nonlinear_arith)
        requires
            0 <= b0 < 256,
            0 <= b1 < 256,
            0 <= b2 < 256,
    ;
    assert(((b0 % 4) * 16 + b1 / 16) % 16 == b1 / 16) by (nonlinear_arith)
        requires
            0 <= b0 % 4 < 4,
            0 <= b1 / 16 < 16,
    ;
    assert(((b1 % 16) * 4 + b2 / 64) / 4 == b1 % 16) by (nonlinear_arith)
        requires
            0 <= b1 % 16 < 16,
            0 <= b2 / 64 < 4,
    ;
    assert((b1 / 16) * 16 + b1 % 16 == b1) by (nonlinear_arith);
}

proof fn lemma_third_byte(b1: int, b2: int)
    requires
        0 <= b1 < 256,
        0 <= b2 < 256,
    ensures
        0 <= b2 % 64 < 64,
        (((b1 % 16) * 4 + b2 / 64) % 4) * 64 + b2 % 64 == b2,
{
    assert(0 <= b1 % 16 < 16 && 0 <= b2 / 64 < 4 && 0 <= b2 % 64 < 64) by (nonlinear_arith)
        requires
            0 <= b1 < 256,
            0 <= b2 < 256,
    ;
    assert(((b1 % 16) * 4 + b2 / 64) % 4 == b2 / 64) by (nonlinear_arith)
        requires
            0 <= b1 % 16 < 16,
            0 <= b2 / 64 < 4,
    ;
    assert((b2 / 64) * 64 + b2 % 64 == b2) by (nonlinear_arith);
}

/// One group of one to three bytes encodes to a group that decodes back to them.
proof fn lemma_group_round_trip(b: Seq<u8>)
    requires
        1 <= b.len() <= 3,
    ensures
        encode_group(b).len() == 4,
        decode_group(encode_group(b)) == b,
        is_last_group(encode_group(b)),
        b.len() == 3 ==> is_full_group(encode_group(b)),
        forall|i: int| 0 <= i < 4 ==> !is_line_break(#[trigger] encode_group(b)[i]),
{
    let q = encode_group(b);
    let b0 = b[0] as int;
    let b1 = if b.len() > 1 { b[1] as int } else { 0 };
    let b2 = if b.len() > 2 { b[2] as int } else { 0 };
    lemma_first_byte(b0, b1);
    lemma_second_byte(b0, b1, b2);
    lemma_third_byte(b1, b2);
    lemma_digit_round_trip(b0 / 4);
    lemma_digit_round_trip((b0 % 4) * 16 + b1 / 16);
    lemma_digit_round_trip((b1 % 16) * 4 + b2 / 64);
    lemma_digit_round_trip(b2 % 64);
    assert(decode_group(q) =~= b);
}

/// The Base64 text of any bytes is well formed, holds no line break, and
/// decodes to those bytes.
proof fn lemma_encoding_round_trip(b: Seq<u8>)
    ensures
        is_group_sequence(base64_encoding(b)),
        decode_groups(base64_encoding(b)) == b,
        forall|i: int|
            0 <= i < base64_encoding(b).len() ==> !is_line_break(
                #[trigger] base64_encoding(b)[i],
            ),
    decreases b.len(),
{
    let e = base64_encoding(b);
    if b.len() == 0 {
        assert(decode_groups(e) =~= b);
    } else if b.len() <= 3 {
        lemma_group_round_trip(b);
        assert(e.take(4) =~= e);
        assert(decode_groups(e.skip(4)) =~= seq![]);
        assert(decode_groups(e) =~= b);
    } else {
        let g = encode_group(b.take(3));
        let rest = base64_encoding(b.skip(3));
        lemma_group_round_trip(b.take(3));
        lemma_encoding_round_trip(b.skip(3));
        assert(e.take(4) =~= g);
        assert(e.skip(4) =~= rest);
        assert(rest.len() > 0);
        assert(b.take(3) + b.skip(3) =~= b);
        assert forall|i: int| 0 <= i < e.len() implies !is_line_break(#[trigger] e[i]) by {
            if i < 4 {
                assert(e[i] == g[i]);
            } else {
                assert(e[i] == rest[i - 4]);
            }
        }
    }
}

/// A text without line breaks is its own line-break-free form.
proof fn lemma_no_line_breaks(t: Seq<u8>)
    requires
        forall|i: int| 0 <= i < t.len() ==> !is_line_break(#[trigger] t[i]),
    ensures
        without_line_breaks(t) == t,
    decreases t.len(),
{
    if t.len() > 0 {
        lemma_no_line_breaks(t.drop_last());
        assert(t.drop_last().push(t.last()) =~= t);
    }
}

/// Every byte of a well-formed group sequence is ASCII.
proof fn lemma_group_sequence_ascii(t: Seq<u8>)
    requires
        is_group_sequence(t),
    ensures
        forall|i: int| 0 <= i < t.len() ==> #[trigger] t[i] < 128,
    decreases t.len(),
{
    if t.len() > 4 {
        lemma_group_sequence_ascii(t.skip(4));
        assert forall|i: int| 0 <= i < t.len() implies #[trigger] t[i] < 128 by {
            if i >= 4 {
                assert(t[i] == t.skip(4)[i - 4]);
            } else {
                assert(t[i] == t.take(4)[i]);
            }
        }
    }
}

/// ASCII bytes are valid UTF-8.
proof fn lemma_ascii_is_utf8(t: Seq<u8>)
    requires
        forall|i: int| 0 <= i < t.len() ==> #[trigger] t[i] < 128,
    ensures
        valid_utf8(t),
{
    assert(t.subrange(0, 0) =~= Seq::<u8>::empty());
    assert(partial_valid_utf8(t, 0));
    assert forall|i: int| 0 <= i < t.len() implies #[trigger] is_leading_byte_width_1(t[i]) by {}
    vstd::utf8::partial_valid_utf8_extend_ascii_block(t, 0, t.len() as int);
    assert(t.subrange(0, t.len() as int) =~= t);
}

proof fn lemma_decode_groups_len(t: Seq<u8>)
    ensures
        decode_groups(t).len() <= t.len(),
    decreases t.len(),
{
    if t.len() >= 4 {
        lemma_decode_groups_len(t.skip(4));
    }
}

proof fn lemma_without_line_breaks_len(t: Seq<u8>)
    ensures
        without_line_breaks(t).len() <= t.len(),
    decreases t.len(),
{
    if t.len() > 0 {
        lemma_without_line_breaks_len(t.drop_last());
    }
}

/// Decoding never lengthens a text.
pub proof fn lemma_decoding_len(text: Seq<u8>)
    ensures
        base64_decoding(text).len() <= text.len(),
{
    lemma_without_line_breaks_len(text);
    lemma_decode_groups_len(without_line_breaks(text));
}

/// Decoding the Base64 text of any bytes gives those bytes back.
pub proof fn lemma_base64_round_trip(b: Seq<u8>)
    ensures
        valid_utf8(base64_encoding(b)),
        is_base64_text(base64_encoding(b)),
        base64_decoding(base64_encoding(b)) == b,
{
    lemma_encoding_round_trip(b);
    lemma_no_line_breaks(base64_encoding(b));
    lemma_group_sequence_ascii(base64_encoding(b));
    lemma_ascii_is_utf8(base64_encoding(b));
}

} // verus!
