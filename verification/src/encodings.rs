use vstd::prelude::*;
use vstd::utf8::{decode_utf8, valid_utf8};

use crate::opf::{has_utf16le_bom, utf16le_text_spec};

verus! {

/// What `encoding_rs::SHIFT_JIS.decode` gives for `bytes`: BOM sniffing first,
/// malformed sequences turned into U+FFFD.
pub uninterp spec fn shift_jis_decoded(bytes: Seq<u8>) -> Seq<char>;

/// What `encoding_rs::UTF_16LE.decode` gives for `bytes`: BOM sniffing first,
/// malformed sequences turned into U+FFFD.
pub uninterp spec fn utf16le_decoded(bytes: Seq<u8>) -> Seq<char>;

/// Decodes `bytes` with `encoding_rs::SHIFT_JIS.decode` and keeps the text.
/// Trusted: the text is `shift_jis_decoded(bytes)`. `decode` panics only when
/// the size of its output buffer overflows `usize`, which the bound on the
/// length rules out (its buffer is at most three bytes per input byte plus three).
#[verifier::external_body]
pub(crate) fn shift_jis_decode(bytes: &[u8]) -> (r: String)
    requires
        bytes@.len() < usize::MAX / 4,
    ensures
        r@ == shift_jis_decoded(bytes@),
{
    encoding_rs::SHIFT_JIS.decode(bytes).0.into_owned()
}

/// Decodes `bytes` with `encoding_rs::UTF_16LE.decode` and keeps the text.
/// Trusted: the text is `utf16le_decoded(bytes)`. After the byte order mark
/// FF FE, `decode` drops the mark and runs its UTF-16LE decoder, which pairs the
/// bytes little-endian, joins surrogate pairs, and gives U+FFFD for each unpaired
/// surrogate and for an odd last byte (one U+FFFD when that byte follows an
/// unpaired high surrogate): `utf16le_text_spec` of the rest. The bound on the
/// length keeps the size computation of `decode` from overflowing, as for
/// Shift_JIS.
#[verifier::external_body]
pub(crate) fn utf16le_decode(bytes: &[u8]) -> (r: String)
    requires
        bytes@.len() < usize::MAX / 4,
    ensures
        r@ == utf16le_decoded(bytes@),
        has_utf16le_bom(bytes@) ==> r@ == utf16le_text_spec(bytes@.skip(2)),
{
    encoding_rs::UTF_16LE.decode(bytes).0.into_owned()
}

/// std's `String::from_utf8` on a copy of `bytes`.
/// Trusted: it succeeds exactly on valid UTF-8, and then holds the decoded text.
#[verifier::external_body]
pub(crate) fn utf8_to_string(bytes: &[u8]) -> (r: Option<String>)
    ensures
        r.is_some() == valid_utf8(bytes@),
        r matches Some(s) ==> s@ == decode_utf8(bytes@),
{
    String::from_utf8(bytes.to_vec()).ok()
}

/// std's `char::from_u32`.
/// Trusted: it succeeds exactly on Unicode scalar values, and then gives the
/// character of that code point.
#[verifier::external_body]
pub(crate) fn char_from_u32(u: u32) -> (r: Option<char>)
    ensures
        r.is_some() == (u <= 0x10FFFF && !(0xD800 <= u <= 0xDFFF)),
        r matches Some(c) ==> c == (u as char),
{
    char::from_u32(u)
}

} // verus!
