//! The fields of a message as `blt_utils` writes and reads them. What its functions do when
//! memory runs out is beyond these contracts, as it is for `Vec::push`.

use crate::bytes::{le_bytes, le_value, size_width};
use crate::error::{DeserializationError, ErrorView};
use vstd::prelude::*;
use vstd::utf8::{decode_utf8, encode_utf8, valid_utf8};

verus! {

/// A string as a field: the number of its UTF-8 bytes, then these bytes.
pub open spec fn string_field(text: Seq<char>) -> Seq<u8> {
    le_bytes(encode_utf8(text).len(), size_width()) + encode_utf8(text)
}

/// What reading a number of `width` bytes from the front of `buffer` gives, and what it
/// leaves of `buffer`.
pub open spec fn take_number(buffer: Seq<u8>, width: nat) -> (Result<nat, ErrorView>, Seq<u8>) {
    if buffer.len() < width {
        (Err(ErrorView::UnexpectedByteCount(width, buffer.len())), buffer)
    } else {
        (Ok(le_value(buffer.take(width as int))), buffer.skip(width as int))
    }
}

/// What reading a string from the front of `buffer` gives, and what it leaves of `buffer`.
pub open spec fn take_string(buffer: Seq<u8>) -> (Result<Seq<char>, ErrorView>, Seq<u8>) {
    let (len, rest) = take_number(buffer, size_width());
    match len {
        Err(e) => (Err(e), rest),
        Ok(len) => if len > rest.len() {
            (Err(ErrorView::UnexpectedByteCount(len, rest.len())), rest)
        } else {
            let text = rest.take(len as int);
            (
                if valid_utf8(text) {
                    Ok(decode_utf8(text))
                } else {
                    Err(ErrorView::InvalidString { bytes: text })
                },
                rest.skip(len as int),
            )
        },
    }
}

/// The number or the error in the result of a read.
pub open spec fn number_view<N: Integer>(r: Result<N, DeserializationError>) -> Result<nat, ErrorView> {
    match r {
        Ok(n) => Ok(n as nat),
        Err(e) => Err(e@),
    }
}

/// The string or the error in the result of a read.
pub open spec fn string_view(r: Result<String, DeserializationError>) -> Result<Seq<char>, ErrorView> {
    match r {
        Ok(text) => Ok(text@),
        Err(e) => Err(e@),
    }
}

/// `blt_utils::serialize_u8`: appends the eight little-endian bytes of `value`.
#[verifier::external_body]
pub(crate) fn serialize_u8(value: u64, buffer: &mut Vec<u8>)
    ensures
        final(buffer)@ == old(buffer)@ + le_bytes(value as nat, 8),
{
    blt_utils::serialize_u8(value, buffer)
}

/// `blt_utils::serialize_string`: appends the byte count of `value` in its UTF-8 form,
/// little-endian and as wide as a `usize`, and then these bytes.
#[verifier::external_body]
pub(crate) fn serialize_string(value: String, buffer: &mut Vec<u8>)
    ensures
        final(buffer)@ == old(buffer)@ + string_field(value@),
{
    blt_utils::serialize_string(value, buffer)
}

/// `blt_utils::finalize_serialization`: puts the length that the buffer had, little-endian
/// and as wide as a `usize`, in front of what it holds.
#[verifier::external_body]
pub(crate) fn finalize_serialization(buffer: &mut Vec<u8>)
    ensures
        final(buffer)@ == le_bytes(old(buffer)@.len(), size_width()) + old(buffer)@,
{
    blt_utils::finalize_serialization(buffer)
}

/// `blt_utils::deserialize_u8`: takes eight bytes from the front of the buffer and reads
/// them as a little-endian number. With fewer bytes there it takes none, and reports how
/// many it wanted and how many it found.
#[verifier::external_body]
pub(crate) fn deserialize_u8(buffer: &mut Vec<u8>) -> (r: Result<u64, DeserializationError>)
    ensures
        number_view(r) == take_number(old(buffer)@, 8).0,
        final(buffer)@ == take_number(old(buffer)@, 8).1,
{
    match blt_utils::deserialize_u8(buffer) {
        Ok(value) => Ok(value),
        Err(blt_utils::DeserializationError::UnexpectedByteCount(expected, found)) =>
            Err(DeserializationError::UnexpectedByteCount(expected, found)),
        Err(blt_utils::DeserializationError::InvalidString { source }) =>
            Err(DeserializationError::InvalidString { bytes: source.into_bytes() }),
        Err(blt_utils::DeserializationError::InvalidValue(text)) =>
            Err(DeserializationError::InvalidValue(text)),
    }
}

/// `blt_utils::deserialize_string`, for `String`: takes a byte count as wide as a `usize`
/// from the front of the buffer, then that many bytes, and reads these as UTF-8. It takes
/// nothing where the count is not there whole, only the count where fewer bytes follow
/// than it says, and count and bytes where the bytes are no UTF-8.
#[verifier::external_body]
pub(crate) fn deserialize_string(buffer: &mut Vec<u8>) -> (r: Result<String, DeserializationError>)
    ensures
        string_view(r) == take_string(old(buffer)@).0,
        final(buffer)@ == take_string(old(buffer)@).1,
{
    match blt_utils::deserialize_string::<String>(buffer) {
        Ok(value) => Ok(value),
        Err(blt_utils::DeserializationError::UnexpectedByteCount(expected, found)) =>
            Err(DeserializationError::UnexpectedByteCount(expected, found)),
        Err(blt_utils::DeserializationError::InvalidString { source }) =>
            Err(DeserializationError::InvalidString { bytes: source.into_bytes() }),
        Err(blt_utils::DeserializationError::InvalidValue(text)) =>
            Err(DeserializationError::InvalidValue(text)),
    }
}

/// Appends a usage figure, given as the bit pattern of a single-precision number: its four
/// little-endian bytes.
pub(crate) fn serialize_usage(bits: u32, buffer: &mut Vec<u8>)
    ensures
        final(buffer)@ == old(buffer)@ + le_bytes(bits as nat, 4),
{
    buffer.push((bits % 256) as u8);
    buffer.push((bits / 256 % 256) as u8);
    buffer.push((bits / 65536 % 256) as u8);
    buffer.push((bits / 16777216) as u8);
    proof {
        reveal_with_fuel(le_bytes, 5);
        let n = bits as nat;
        assert(n / 256 / 256 == n / 65536 && n / 256 / 256 / 256 == n / 16777216);
        assert(buffer@ =~= old(buffer)@ + le_bytes(n, 4));
    }
}

/// Takes a usage figure from the front of the buffer, as the bit pattern of a
/// single-precision number. With fewer than four bytes there it takes none.
pub(crate) fn deserialize_usage(buffer: &mut Vec<u8>) -> (r: Result<u32, DeserializationError>)
    ensures
        number_view(r) == take_number(old(buffer)@, 4).0,
        final(buffer)@ == take_number(old(buffer)@, 4).1,
{
    if buffer.len() < 4 {
        return Err(DeserializationError::UnexpectedByteCount(4, buffer.len()));
    }
    let rest = buffer.split_off(4);
    let bits: u32 = buffer[0] as u32 + 256 * (buffer[1] as u32) + 65536 * (buffer[2] as u32)
        + 16777216 * (buffer[3] as u32);
    proof {
        reveal_with_fuel(le_value, 5);
        assert(buffer@ =~= old(buffer)@.take(4));
        assert(rest@ =~= old(buffer)@.skip(4));
    }
    *buffer = rest;
    Ok(bits)
}

} // verus!
