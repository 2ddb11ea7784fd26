//! The two representations a byte buffer may have outside the program: its raw
//! bytes, or its Base64 text.
use crate::base64::{
    base64_decoding, base64_encoding, is_base64_text, is_digit, is_group_sequence, is_utf8,
    lemma_base64_round_trip, lemma_decoding_len, light_decode, light_encode, without_line_breaks,
    PAD,
};
use vstd::prelude::*;
use vstd::utf8::valid_utf8;

verus! {

/// How a buffer is stored outside the program.
#[derive(Clone, Copy, Debug, PartialEq, Eq, Structural)]
pub enum Format {
    /// The bytes as they are.
    Bytes,
    /// The bytes as Base64 text.
    Base64,
}

/// Why an external form could not be read.
#[derive(Clone, Copy, Debug, PartialEq, Eq, Structural)]
pub enum CodecError {
    /// Text was expected and the bytes are not valid UTF-8.
    InvalidText,
    /// The text is not well-formed Base64.
    MalformedBase64,
}

impl CodecError {
    /// A short description for the user.
    pub fn message(&self) -> (r: &'static str)
        ensures
            r@ == match self {
                CodecError::InvalidText => "Failed to read file as string"@,
                CodecError::MalformedBase64 => "Malformed Base64 text"@,
            },
    {
        match self {
            CodecError::InvalidText => "Failed to read file as string",
            CodecError::MalformedBase64 => "Malformed Base64 text",
        }
    }
}

/// True when the Base64 text of `n` bytes fits in memory.
pub open spec fn encodable(n: int) -> bool {
    4 * (n + 2) / 3 <= isize::MAX
}

/// What reading `text` as Base64 gives: the text must be UTF-8 first, and
/// well-formed Base64 then.
pub open spec fn base64_reading(text: Seq<u8>) -> Result<Seq<u8>, CodecError> {
    if !valid_utf8(text) {
        Err(CodecError::InvalidText)
    } else if !is_base64_text(text) {
        Err(CodecError::MalformedBase64)
    } else {
        Ok(base64_decoding(text))
    }
}

/// The buffer that the external form `external` in `format` stands for.
pub open spec fn decoded(format: Format, external: Seq<u8>) -> Result<Seq<u8>, CodecError> {
    match format {
        Format::Bytes => Ok(external),
        Format::Base64 => base64_reading(external),
    }
}

/// The external form of `internal` in `format`.
pub open spec fn encoded(format: Format, internal: Seq<u8>) -> Seq<u8> {
    match format {
        Format::Bytes => internal,
        Format::Base64 => base64_encoding(internal),
    }
}

/// The view of a result that holds a buffer.
pub open spec fn result_view<E>(r: Result<Vec<u8>, E>) -> Result<Seq<u8>, E> {
    match r {
        Ok(v) => Ok(v@),
        Err(e) => Err(e),
    }
}

fn is_digit_byte(c: u8) -> (r: bool)
    ensures
        r == is_digit(c),
{
    (65 <= c && c <= 90) || (97 <= c && c <= 122) || (48 <= c && c <= 57) || c == 43 || c == 47
}

/// The text with CR and LF left out.
fn strip_line_breaks(text: &[u8]) -> (r: Vec<u8>)
    ensures
        r@ == without_line_breaks(text@),
{
    let mut out: Vec<u8> = Vec::new();
    let mut i: usize = 0;
    while i < text.len()
        invariant
            i <= text@.len(),
            out@ == without_line_breaks(text@.take(i as int)),
        decreases text@.len() - i,
    {
        let c = text[i];
        assert(text@.take(i + 1).drop_last() =~= text@.take(i as int));
        if c != 10 && c != 13 {
            out.push(c);
        }
        i += 1;
    }
    assert(text@.take(i as int) =~= text@);
    out
}

/// Whether `t` is a sequence of whole Base64 groups with padding only at its end.
fn check_group_sequence(t: &Vec<u8>) -> (r: bool)
    ensures
        r == is_group_sequence(t@),
{
    let n = t.len();
    let mut i: usize = 0;
    assert(t@.skip(0) =~= t@);
    loop
        invariant
            i <= n,
            n == t@.len(),
            is_group_sequence(t@) == is_group_sequence(t@.skip(i as int)),
        decreases n - i,
    {
        let rest = n - i;
        let ghost s = t@.skip(i as int);
        if rest == 0 {
            return true;
        }
        if rest < 4 {
            return false;
        }
        assert(s.take(4) =~= t@.subrange(i as int, i + 4));
        let d0 = is_digit_byte(t[i]);
        let d1 = is_digit_byte(t[i + 1]);
        let d2 = is_digit_byte(t[i + 2]);
        let d3 = is_digit_byte(t[i + 3]);
        if rest == 4 {
            assert(s.take(4) =~= s);
            return d0 && d1 && ((d2 && (d3 || t[i + 3] == PAD)) || (t[i + 2] == PAD && t[i + 3]
                == PAD));
        }
        if !(d0 && d1 && d2 && d3) {
            return false;
        }
        assert(s.skip(4) =~= t@.skip(i + 4));
        i += 4;
    }
}

/// The Base64 text of `bytes`.
pub fn encode_base64(bytes: &[u8]) -> (r: Vec<u8>)
    requires
        encodable(bytes@.len() as int),
    ensures
        r@ == base64_encoding(bytes@),
        base64_reading(r@) == Ok::<Seq<u8>, CodecError>(bytes@),
{
    proof {
        lemma_base64_round_trip(bytes@);
    }
    light_encode(bytes)
}

/// The bytes that the Base64 text `text` stands for. CR and LF are skipped; a
/// text that is not UTF-8 fails with `InvalidText`, one that is not whole groups
/// of the standard alphabet with padding only at its end fails with
/// `MalformedBase64`.
pub fn decode_base64(text: &[u8]) -> (r: Result<Vec<u8>, CodecError>)
    ensures
        result_view(r) == base64_reading(text@),
        r is Ok ==> r->Ok_0@.len() <= text@.len(),
{
    if !is_utf8(text) {
        return Err(CodecError::InvalidText);
    }
    let groups = strip_line_breaks(text);
    if !check_group_sequence(&groups) {
        return Err(CodecError::MalformedBase64);
    }
    proof {
        lemma_decoding_len(text@);
    }
    Ok(light_decode(text))
}

/// The buffer that `external`, stored in `format`, stands for.
pub fn decode(format: Format, external: Vec<u8>) -> (r: Result<Vec<u8>, CodecError>)
    ensures
        result_view(r) == decoded(format, external@),
        r is Ok ==> r->Ok_0@.len() <= external@.len(),
{
    match format {
        Format::Bytes => Ok(external),
        Format::Base64 => decode_base64(external.as_slice()),
    }
}

/// `internal` stored in `format`. Never fails.
pub fn encode(format: Format, internal: Vec<u8>) -> (r: Vec<u8>)
    requires
        encodable(internal@.len() as int),
    ensures
        r@ == encoded(format, internal@),
        decoded(format, r@) == Ok::<Seq<u8>, CodecError>(internal@),
{
    match format {
        Format::Bytes => internal,
        Format::Base64 => encode_base64(internal.as_slice()),
    }
}

/// Reading back what was stored in any format gives the stored buffer: in
/// particular the Base64 text of any bytes, the empty ones included, decodes to
/// those bytes.
pub proof fn lemma_codec_round_trip(format: Format, b: Seq<u8>)
    ensures
        decoded(format, encoded(format, b)) == Ok::<Seq<u8>, CodecError>(b),
{
    lemma_base64_round_trip(b);
}

} // verus!
