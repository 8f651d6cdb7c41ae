use vstd::prelude::*;
use vstd::utf8::{
    decode_utf8, encode_utf8, encode_utf8_decode_utf8, encode_utf8_valid_utf8, valid_first_scalar,
    valid_utf8,
};

use crate::encodings::{
    shift_jis_decode, shift_jis_decoded, utf16le_decode, utf8_to_string,
};
use crate::opf::{
    has_utf16le_bom, law_utf16_round_trip, le_u16, u16_units_spec, utf16_encode_spec,
    utf16le_text_spec, DecodeError,
};
use crate::text_util::{law_normalize_without_cr, normalize_newlines, normalize_newlines_spec};

verus! {

/// The text of a file whose bytes are `bytes`: after a UTF-16LE byte order
/// mark, the rest as UTF-16LE (see `utf16le_text_spec`) with "\r\n" turned into "\n"; otherwise UTF-8 as it is, and
/// when that fails on a file of two bytes or more, Shift_JIS with "\r\n" turned
/// into "\n".
pub open spec fn decode_text_spec(bytes: Seq<u8>) -> Result<Seq<char>, DecodeError> {
    if has_utf16le_bom(bytes) {
        Ok(normalize_newlines_spec(utf16le_text_spec(bytes.skip(2))))
    } else if valid_utf8(bytes) {
        Ok(decode_utf8(bytes))
    } else if bytes.len() >= 2 {
        Ok(normalize_newlines_spec(shift_jis_decoded(bytes)))
    } else {
        Err(DecodeError::InvalidUtf8)
    }
}

/// The bytes of UTF-16 units, each low byte first.
pub open spec fn utf16le_bytes_spec(units: Seq<u16>) -> Seq<u8> {
    Seq::new(
        (2 * units.len()) as nat,
        |i: int|
            if i % 2 == 0 {
                (units[i / 2] % 256) as u8
            } else {
                (units[i / 2] / 256) as u8
            },
    )
}

/// A text without carriage returns reads back as itself whether its file holds
/// it in UTF-8 or in UTF-16LE after a byte order mark.
pub proof fn law_same_text_in_utf8_and_utf16le(t: Seq<char>)
    requires
        forall|i: int| 0 <= i < t.len() ==> t[i] != '\r',
    ensures
        decode_text_spec(encode_utf8(t)) == Ok::<Seq<char>, DecodeError>(t),
        decode_text_spec(seq![0xFFu8, 0xFEu8] + utf16le_bytes_spec(utf16_encode_spec(t)))
            == Ok::<Seq<char>, DecodeError>(t),
{
    let b8 = encode_utf8(t);
    encode_utf8_valid_utf8(t);
    encode_utf8_decode_utf8(t);
    if b8.len() > 0 {
        assert(valid_first_scalar(b8));
        assert(b8[0] != 0xFF);
    }
    assert(!has_utf16le_bom(b8));
    let units = utf16_encode_spec(t);
    let body = utf16le_bytes_spec(units);
    let b16 = seq![0xFFu8, 0xFEu8] + body;
    assert(has_utf16le_bom(b16));
    assert(b16.skip(2) =~= body);
    assert forall|i: int| 0 <= i < units.len() implies #[trigger] u16_units_spec(body)[i] == units[i] by {
        let u = units[i];
        assert(body[2 * i] == (u % 256) as u8);
        assert(body[2 * i + 1] == (u / 256) as u8);
        assert(le_u16((u % 256) as u8, (u / 256) as u8) == u);
    }
    assert(u16_units_spec(body) =~= units);
    assert(body.len() % 2 == 0);
    law_utf16_round_trip(t);
    law_normalize_without_cr(t);
}

/// Turns the bytes of a source file into text (see `decode_text_spec`).
pub fn decode_contents(bytes: &[u8]) -> (r: Result<String, DecodeError>)
    requires
        has_utf16le_bom(bytes@) || !valid_utf8(bytes@) ==> bytes@.len() < usize::MAX / 4,
    ensures
        match (r, decode_text_spec(bytes@)) {
            (Ok(s), Ok(t)) => s@ == t,
            (Err(e), Err(f)) => e == f,
            _ => false,
        },
{
    if bytes.len() >= 2 && bytes[0] == 0xFF && bytes[1] == 0xFE {
        let text = utf16le_decode(bytes);
        return Ok(normalize_newlines(text.as_str()));
    }
    match utf8_to_string(bytes) {
        Some(s) => Ok(s),
        None => {
            if bytes.len() >= 2 {
                let text = shift_jis_decode(bytes);
                Ok(normalize_newlines(text.as_str()))
            } else {
                Err(DecodeError::InvalidUtf8)
            }
        },
    }
}

} // verus!
