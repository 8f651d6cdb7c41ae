use vstd::prelude::*;
use vstd::utf8::{decode_utf8, valid_utf8};

use crate::encodings::utf8_to_string;
use crate::opf::{
    bytes_from, decode_utf16_to_utf8, from_u8_to_u16_le, has_utf16le_bom, u16_units_spec,
    utf16_decode_spec,
};

verus! {

/// The text of a file whose bytes are `bytes`, as this module reads it: the
/// first two bytes are taken as a mark; after FF FE the rest is UTF-16LE,
/// otherwise the rest is UTF-8, and there is no text when it is not valid UTF-8.
pub open spec fn decode_after_mark_spec(bytes: Seq<u8>) -> Option<Seq<char>> {
    if has_utf16le_bom(bytes) {
        Some(utf16_decode_spec(u16_units_spec(bytes.skip(2))))
    } else if valid_utf8(bytes.skip(2)) {
        Some(decode_utf8(bytes.skip(2)))
    } else {
        None
    }
}

/// Turns the bytes of a file into text (see `decode_after_mark_spec`). The
/// first two bytes are always consumed as the mark.
pub fn decode_contents(bytes: &[u8]) -> (r: Option<String>)
    requires
        bytes@.len() >= 2,
    ensures
        match (r, decode_after_mark_spec(bytes@)) {
            (Some(s), Some(t)) => s@ == t,
            (None, None) => true,
            _ => false,
        },
{
    let rest = bytes_from(bytes, 2);
    if bytes[0] == 0xFF && bytes[1] == 0xFE {
        let units = from_u8_to_u16_le(rest.as_slice());
        Some(decode_utf16_to_utf8(units.as_slice()))
    } else {
        utf8_to_string(rest.as_slice())
    }
}

} // verus!
