use vstd::prelude::*;
use vstd::utf8::{decode_utf8, valid_utf8};

use crate::encodings::{char_from_u32, shift_jis_decode, shift_jis_decoded, utf8_to_string};
use crate::text_util::string_from_chars;

pub mod text;
pub mod xlsm;

verus! {

/// Why a file's bytes could not be turned into text.
#[derive(Debug, PartialEq, Eq, Clone, Copy)]
pub enum DecodeError {
    /// The bytes were read as UTF-8 and are not valid UTF-8.
    InvalidUtf8,
}

/// The little-endian 16-bit value of two bytes.
pub open spec fn le_u16(lo: u8, hi: u8) -> int {
    lo + 256 * hi
}

/// The bytes taken two at a time as little-endian 16-bit units; a last odd
/// byte is dropped.
pub open spec fn u16_units_spec(bytes: Seq<u8>) -> Seq<u16> {
    Seq::new((bytes.len() / 2) as nat, |i: int| le_u16(bytes[2 * i], bytes[2 * i + 1]) as u16)
}

/// A UTF-16 unit in the surrogate range.
pub open spec fn is_surrogate(u: u16) -> bool {
    0xD800 <= u <= 0xDFFF
}

/// A leading (high) surrogate.
pub open spec fn is_high_surrogate(u: u16) -> bool {
    0xD800 <= u <= 0xDBFF
}

/// A trailing (low) surrogate.
pub open spec fn is_low_surrogate(u: u16) -> bool {
    0xDC00 <= u <= 0xDFFF
}

/// The code point of a surrogate pair.
pub open spec fn pair_code_point(high: u16, low: u16) -> int {
    0x10000 + (high - 0xD800) * 0x400 + (low - 0xDC00)
}

/// The character that stands for a malformed sequence.
pub open spec fn replacement_char() -> char {
    '\u{FFFD}'
}

/// UTF-16 decoding: a unit outside the surrogate range is its own code point,
/// a high surrogate followed by a low one forms one code point, and any other
/// surrogate becomes U+FFFD.
pub open spec fn utf16_decode_spec(units: Seq<u16>) -> Seq<char>
    decreases units.len(),
{
    if units.len() == 0 {
        Seq::empty()
    } else if !is_surrogate(units[0]) {
        seq![units[0] as char] + utf16_decode_spec(units.drop_first())
    } else if is_high_surrogate(units[0]) && units.len() >= 2 && is_low_surrogate(units[1]) {
        seq![pair_code_point(units[0], units[1]) as char] + utf16_decode_spec(units.skip(2))
    } else {
        seq![replacement_char()] + utf16_decode_spec(units.drop_first())
    }
}

/// What a UTF-16LE decoder that follows the WHATWG Encoding Standard gives for
/// the bytes after a byte order mark: the units decoded as `utf16_decode_spec`
/// does, and one more U+FFFD for an odd last byte, unless the last full unit is
/// a high surrogate, whose U+FFFD stands for the odd byte too.
pub open spec fn utf16le_text_spec(rest: Seq<u8>) -> Seq<char> {
    let units = u16_units_spec(rest);
    if rest.len() % 2 == 0 || (units.len() > 0 && is_high_surrogate(units.last())) {
        utf16_decode_spec(units)
    } else {
        utf16_decode_spec(units) + seq![replacement_char()]
    }
}

/// The UTF-16 units of one character: itself below U+10000, a surrogate pair
/// above.
pub open spec fn utf16_encode_char(c: char) -> Seq<u16> {
    let v = c as u32 as int;
    if v < 0x10000 {
        seq![v as u16]
    } else {
        seq![(0xD800 + (v - 0x10000) / 0x400) as u16, (0xDC00 + (v - 0x10000) % 0x400) as u16]
    }
}

/// The UTF-16 encoding of a text.
pub open spec fn utf16_encode_spec(s: Seq<char>) -> Seq<u16>
    decreases s.len(),
{
    if s.len() == 0 {
        Seq::empty()
    } else {
        utf16_encode_char(s[0]) + utf16_encode_spec(s.drop_first())
    }
}

/// A character is a Unicode scalar value, and its code point gives it back.
proof fn lemma_char_code_point(c: char)
    ensures
        (c as u32) <= 0x10FFFF,
        !(0xD800 <= (c as u32) <= 0xDFFF),
        (((c as u32) as int) as char) == c,
{
}

/// Decoding UTF-16 undoes encoding: every text comes back from its units.
pub proof fn law_utf16_round_trip(s: Seq<char>)
    ensures
        utf16_decode_spec(utf16_encode_spec(s)) == s,
    decreases s.len(),
{
    if s.len() > 0 {
        let c = s[0];
        let rest = s.drop_first();
        law_utf16_round_trip(rest);
        let head = utf16_encode_char(c);
        let tail = utf16_encode_spec(rest);
        let all = head + tail;
        assert(utf16_encode_spec(s) == all);
        let v = c as u32 as int;
        lemma_char_code_point(c);
        if v < 0x10000 {
            assert(all[0] == v as u16);
            assert((v as u16) as int == v);
            assert(!is_surrogate(all[0]));
            assert(all.drop_first() =~= tail);
            assert((((v as u16) as int) as char) == c);
        } else {
            let w = v - 0x10000;
            assert(0 <= w < 0x100000);
            let hi = w / 0x400;
            let lo = w % 0x400;
            assert(0 <= hi < 0x400 && 0 <= lo < 0x400 && w == hi * 0x400 + lo) by (nonlinear_arith)
                requires
                    0 <= w < 0x100000,
                    hi == w / 0x400,
                    lo == w % 0x400,
            ;
            assert(all[0] == (0xD800 + hi) as u16);
            assert(all[1] == (0xDC00 + lo) as u16);
            assert(is_surrogate(all[0]) && is_high_surrogate(all[0]) && is_low_surrogate(all[1]));
            assert(pair_code_point(all[0], all[1]) == v);
            assert(all.skip(2) =~= tail);
            assert((v as char) == c);
        }
        assert(seq![c] + rest =~= s);
    }
}

/// `bytes` begins with the UTF-16LE byte order mark FF FE.
pub open spec fn has_utf16le_bom(bytes: Seq<u8>) -> bool {
    bytes.len() >= 2 && bytes[0] == 0xFF && bytes[1] == 0xFE
}

/// The text of a file whose bytes are `bytes`, as this module reads it: after a
/// UTF-16LE byte order mark the rest as UTF-16LE; otherwise UTF-8, and when that
/// fails on a file of two bytes or more, Shift_JIS.
pub open spec fn decode_contents_spec(bytes: Seq<u8>) -> Result<Seq<char>, DecodeError> {
    if has_utf16le_bom(bytes) {
        Ok(utf16_decode_spec(u16_units_spec(bytes.skip(2))))
    } else if valid_utf8(bytes) {
        Ok(decode_utf8(bytes))
    } else if bytes.len() >= 2 {
        Ok(shift_jis_decoded(bytes))
    } else {
        Err(DecodeError::InvalidUtf8)
    }
}

/// UTF-16 units outside the surrogate range each decode to the character of
/// the same code point.
pub proof fn law_units_without_surrogates_decode_one_to_one(units: Seq<u16>)
    requires
        forall|i: int| 0 <= i < units.len() ==> !is_surrogate(#[trigger] units[i]),
    ensures
        utf16_decode_spec(units) == units.map_values(|u: u16| u as char),
    decreases units.len(),
{
    if units.len() > 0 {
        let rest = units.drop_first();
        assert forall|i: int| 0 <= i < rest.len() implies !is_surrogate(#[trigger] rest[i]) by {
            assert(rest[i] == units[i + 1]);
        }
        law_units_without_surrogates_decode_one_to_one(rest);
        assert(utf16_decode_spec(units) =~= units.map_values(|u: u16| u as char));
    } else {
        assert(utf16_decode_spec(units) =~= units.map_values(|u: u16| u as char));
    }
}

/// The bytes taken two at a time as little-endian 16-bit units.
pub fn from_u8_to_u16_le(bytes: &[u8]) -> (r: Vec<u16>)
    ensures
        r@ == u16_units_spec(bytes@),
{
    let len = bytes.len();
    let n = len / 2;
    let mut r: Vec<u16> = Vec::new();
    for i in 0..n
        invariant
            len == bytes@.len(),
            n == bytes@.len() / 2,
            r@.len() == i,
            forall|j: int| 0 <= j < i ==> r@[j] == le_u16(bytes@[2 * j], bytes@[2 * j + 1]),
    {
        assert(2 * i + 1 < bytes@.len());
        let k: usize = i + i;
        let byte1 = bytes[k] as u16;
        let byte2 = bytes[k + 1] as u16;
        let unit = (byte2 << 8) | byte1;
        assert(unit == byte1 + 256 * byte2) by (bit_vector)
            requires
                byte1 < 256,
                byte2 < 256,
                unit == (byte2 << 8) | byte1,
        ;
        r.push(unit);
    }
    assert(r@ =~= u16_units_spec(bytes@));
    r
}

/// Decodes UTF-16 units, putting U+FFFD in place of every unpaired surrogate.
pub fn decode_utf16_to_utf8(source: &[u16]) -> (r: String)
    ensures
        r@ == utf16_decode_spec(source@),
{
    let mut out: Vec<char> = Vec::new();
    let n = source.len();
    let mut i: usize = 0;
    assert(source@.skip(0) =~= source@);
    while i < n
        invariant
            n == source@.len(),
            i <= n,
            out@ + utf16_decode_spec(source@.skip(i as int)) == utf16_decode_spec(source@),
        decreases n - i,
    {
        let ghost rest = source@.skip(i as int);
        let u = source[i];
        if u < 0xD800 || u > 0xDFFF {
            let c = char_from_u32(u as u32);
            let c = c.unwrap();
            out.push(c);
            proof {
                assert(rest.drop_first() =~= source@.skip(i + 1));
                assert(out@ + utf16_decode_spec(source@.skip(i + 1)) =~= utf16_decode_spec(source@));
            }
            i = i + 1;
        } else if u <= 0xDBFF && i + 1 < n && 0xDC00 <= source[i + 1] && source[i + 1] <= 0xDFFF {
            let low = source[i + 1];
            let cp: u32 = 0x10000 + ((u - 0xD800) as u32) * 0x400 + ((low - 0xDC00) as u32);
            let c = char_from_u32(cp);
            let c = c.unwrap();
            out.push(c);
            proof {
                assert(rest[1] == low);
                assert(rest.skip(2) =~= source@.skip(i + 2));
                assert(out@ + utf16_decode_spec(source@.skip(i + 2)) =~= utf16_decode_spec(source@));
            }
            i = i + 2;
        } else {
            out.push('\u{FFFD}');
            proof {
                assert(rest.drop_first() =~= source@.skip(i + 1));
                if i + 1 < n {
                    assert(rest[1] == source@[i + 1]);
                }
                assert(out@ + utf16_decode_spec(source@.skip(i + 1)) =~= utf16_decode_spec(source@));
            }
            i = i + 1;
        }
    }
    assert(source@.skip(i as int) =~= Seq::<u16>::empty());
    assert(out@ =~= utf16_decode_spec(source@));
    string_from_chars(&out)
}

/// The bytes of `bytes` from index `start` on.
pub fn bytes_from(bytes: &[u8], start: usize) -> (r: Vec<u8>)
    requires
        start <= bytes@.len(),
    ensures
        r@ == bytes@.skip(start as int),
{
    let mut r: Vec<u8> = Vec::new();
    let mut i = start;
    while i < bytes.len()
        invariant
            start <= i <= bytes@.len(),
            r@ == bytes@.subrange(start as int, i as int),
        decreases bytes.len() - i,
    {
        r.push(bytes[i]);
        assert(bytes@.subrange(start as int, i + 1) =~= bytes@.subrange(start as int, i as int).push(
            bytes@[i as int],
        ));
        i = i + 1;
    }
    assert(r@ =~= bytes@.skip(start as int));
    r
}

/// Turns the bytes of a file into text: after a UTF-16LE byte order mark the
/// rest is decoded as UTF-16LE; otherwise the bytes are read as UTF-8, and when
/// they are not valid UTF-8, as Shift_JIS (a file of fewer than two bytes is
/// only ever read as UTF-8).
pub fn decode_contents(bytes: &[u8]) -> (r: Result<String, DecodeError>)
    requires
        !has_utf16le_bom(bytes@) && !valid_utf8(bytes@) ==> bytes@.len() < usize::MAX / 4,
    ensures
        match (r, decode_contents_spec(bytes@)) {
            (Ok(s), Ok(t)) => s@ == t,
            (Err(e), Err(f)) => e == f,
            _ => false,
        },
{
    if bytes.len() >= 2 && bytes[0] == 0xFF && bytes[1] == 0xFE {
        let rest = bytes_from(bytes, 2);
        let units = from_u8_to_u16_le(rest.as_slice());
        return Ok(decode_utf16_to_utf8(units.as_slice()));
    }
    match utf8_to_string(bytes) {
        Some(s) => Ok(s),
        None => {
            if bytes.len() >= 2 {
                Ok(shift_jis_decode(bytes))
            } else {
                Err(DecodeError::InvalidUtf8)
            }
        },
    }
}

} // verus!
