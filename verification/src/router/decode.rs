//! Percent-decoding of requested paths.
//!
//! The decoding itself is the `percent_encoding` crate's. What it does is
//! short enough to state in full, and is stated here over bytes; the one
//! function that calls the crate is believed to do exactly that.

use vstd::prelude::*;
use vstd::utf8::{decode_utf8, encode_scalar, encode_utf8, has_width_1_encoding, valid_utf8};
use core::str::Utf8Error;

verus! {

/// `core::str::Utf8Error`: why bytes are no UTF-8. It is passed on to be
/// put into words, and nothing else is known of it here.
#[verifier::external_type_specification]
#[verifier::external_body]
pub struct ExUtf8Error(core::str::Utf8Error);

/// The value of a byte read as a hexadecimal digit, in either case.
pub open spec fn hex_digit(b: u8) -> Option<u8> {
    if 0x30 <= b <= 0x39 {
        Some((b - 0x30) as u8)
    } else if 0x41 <= b <= 0x46 {
        Some((b - 0x41 + 10) as u8)
    } else if 0x61 <= b <= 0x66 {
        Some((b - 0x61 + 10) as u8)
    } else {
        None
    }
}

/// Whether a percent sign with two hexadecimal digits stands at the front.
pub open spec fn escape_ahead(bytes: Seq<u8>) -> bool {
    &&& bytes.len() >= 3
    &&& bytes[0] == 0x25
    &&& hex_digit(bytes[1]) is Some
    &&& hex_digit(bytes[2]) is Some
}

/// The bytes with each percent sign and the two hexadecimal digits behind
/// it replaced by the byte that the digits spell. A percent sign that no two
/// such digits follow stays as it is.
pub open spec fn percent_decoded(bytes: Seq<u8>) -> Seq<u8>
    decreases bytes.len(),
{
    if bytes.len() == 0 {
        bytes
    } else if escape_ahead(bytes) {
        seq![(hex_digit(bytes[1])->0 * 16 + hex_digit(bytes[2])->0) as u8] + percent_decoded(
            bytes.skip(3),
        )
    } else {
        seq![bytes[0]] + percent_decoded(bytes.skip(1))
    }
}

/// The text that a requested path stands for: its UTF-8 bytes are
/// percent-decoded and read as UTF-8 again. `None` where the decoded bytes
/// are no UTF-8.
pub open spec fn decoded(raw: Seq<char>) -> Option<Seq<char>> {
    let bytes = percent_decoded(encode_utf8(raw));
    if valid_utf8(bytes) {
        Some(decode_utf8(bytes))
    } else {
        None
    }
}

/// `percent_decode_str(raw).decode_utf8()`: the text that `raw` stands for,
/// or the error of reading the decoded bytes as UTF-8 where they are none.
#[verifier::external_body]
pub(crate) fn percent_decode(raw: &str) -> (r: Result<String, Utf8Error>)
    ensures
        decode_view(r) == decoded(raw@),
{
    match percent_encoding::percent_decode_str(raw).decode_utf8() {
        Ok(text) => Ok(text.into_owned()),
        Err(e) => Err(e),
    }
}

/// The text of a decoding, if it gave one.
pub open spec fn decode_view(r: Result<String, Utf8Error>) -> Option<Seq<char>> {
    match r {
        Ok(text) => Some(text@),
        Err(_) => None,
    }
}

/// No byte of a character's encoding is a percent sign, unless the
/// character is one.
proof fn lemma_scalar_without_percent(c: char)
    requires
        c != '%',
    ensures
        !encode_scalar(c as u32).contains(0x25u8),
{
    let v = c as u32;
    if has_width_1_encoding(v) {
        assert((v & 0x7F) as u8 != 0x25) by (bit_vector)
            requires
                v <= 0x7F,
                v != 0x25,
        ;
    } else {
        assert(forall|x: u8| (0x80u8 | x) != 0x25u8) by (bit_vector);
        assert(forall|x: u8| (0xC0u8 | x) != 0x25u8) by (bit_vector);
        assert(forall|x: u8| (0xE0u8 | x) != 0x25u8) by (bit_vector);
        assert(forall|x: u8| (0xF0u8 | x) != 0x25u8) by (bit_vector);
    }
}

/// Text without a percent sign has none among its bytes.
proof fn lemma_bytes_without_percent(raw: Seq<char>)
    requires
        !raw.contains('%'),
    ensures
        !encode_utf8(raw).contains(0x25u8),
    decreases raw.len(),
{
    if raw.len() > 0 {
        let rest = raw.drop_first();
        assert(raw[0] != '%');
        assert forall|k: int| 0 <= k < rest.len() implies rest[k] != '%' by {
            assert(rest[k] == raw[k + 1]);
        }
        lemma_scalar_without_percent(raw[0]);
        lemma_bytes_without_percent(rest);
        let head = encode_scalar(raw[0] as u32);
        let tail = encode_utf8(rest);
        assert forall|k: int| 0 <= k < (head + tail).len() implies (head + tail)[k] != 0x25u8 by {
            if k >= head.len() {
                assert(tail.contains(tail[k - head.len()]));
            } else {
                assert(head.contains(head[k]));
            }
        }
    }
}

/// Bytes without a percent sign are their own decoding.
proof fn lemma_nothing_to_decode(bytes: Seq<u8>)
    requires
        !bytes.contains(0x25u8),
    ensures
        percent_decoded(bytes) == bytes,
    decreases bytes.len(),
{
    if bytes.len() > 0 {
        assert(bytes[0] != 0x25u8);
        assert forall|k: int| 0 <= k < bytes.skip(1).len() implies bytes.skip(1)[k] != 0x25u8 by {
            assert(bytes.skip(1)[k] == bytes[k + 1]);
        }
        lemma_nothing_to_decode(bytes.skip(1));
        assert(seq![bytes[0]] + bytes.skip(1) =~= bytes);
    }
}

/// A path without a percent sign stands for itself.
pub proof fn lemma_plain_path(raw: Seq<char>)
    requires
        !raw.contains('%'),
    ensures
        decoded(raw) == Some(raw),
{
    lemma_bytes_without_percent(raw);
    lemma_nothing_to_decode(encode_utf8(raw));
    vstd::utf8::encode_utf8_valid_utf8(raw);
    vstd::utf8::encode_utf8_decode_utf8(raw);
}

} // verus!
