//! Context handles as items on the wire, in the encoding of `bincode`.
use vstd::prelude::*;

verus! {

/// `bincode::ErrorKind`, what `bincode` boxes as its error. Nothing is claimed of what is
/// inside.
#[verifier::external_type_specification]
#[verifier::external_body]
pub struct ExErrorKind(bincode::ErrorKind);

/// The four bytes of a number, least significant first.
pub open spec fn little_endian(value: u32) -> Seq<u8> {
    seq![
        (value % 0x100) as u8,
        (value / 0x100 % 0x100) as u8,
        (value / 0x1_0000 % 0x100) as u8,
        (value / 0x100_0000) as u8,
    ]
}

/// The number that the first four bytes spell, least significant first.
pub open spec fn little_endian_value(bytes: Seq<u8>) -> int {
    bytes[0] + bytes[1] * 0x100 + bytes[2] * 0x1_0000 + bytes[3] * 0x100_0000
}

/// The number that an encoded item holds, if it is long enough to hold one. Bytes behind the
/// number do not matter.
pub open spec fn decoded_number(bytes: Seq<u8>) -> Option<u32> {
    if bytes.len() >= 4 {
        Some(little_endian_value(bytes) as u32)
    } else {
        None
    }
}

/// Calls `bincode::serialize` on a number: it succeeds and gives the number's four bytes,
/// least significant first.
#[verifier::external_body]
pub(crate) fn serialize_number(value: u32) -> (encoded: Result<Vec<u8>, Box<bincode::ErrorKind>>)
    ensures
        encoded is Ok,
        encoded.unwrap()@ == little_endian(value),
{
    bincode::serialize(&value)
}

/// Calls `bincode::deserialize` for a number: it succeeds just where there are four bytes, and
/// reads the number from the first four, least significant first, whatever follows them.
#[verifier::external_body]
pub(crate) fn deserialize_number(bytes: &[u8]) -> (decoded: Result<u32, Box<bincode::ErrorKind>>)
    ensures
        match decoded {
            Ok(value) => decoded_number(bytes@) == Some(value),
            Err(_) => decoded_number(bytes@) is None,
        },
{
    bincode::deserialize(bytes)
}

/// Decoding an encoded number gives the number back, also where other bytes follow it.
pub proof fn law_number_roundtrip(value: u32, rest: Seq<u8>)
    ensures
        decoded_number(little_endian(value)) == Some(value),
        decoded_number(little_endian(value) + rest) == Some(value),
{
}

/// A handle that is written as an item of a context is what is read there.
pub proof fn law_handle_item_roundtrip(context: u32, item: u32)
    ensures
        decoded_number(
            crate::frame::frame_payload(crate::frame::frame(context, little_endian(item))),
        ) == Some(item),
{
    crate::frame::law_frame_roundtrip(context, little_endian(item));
    law_number_roundtrip(item, seq![]);
}

/// A number is encoded in four bytes of little-endian place value.
pub proof fn law_number_is_little_endian(value: u32)
    ensures
        little_endian(value).len() == 4,
        little_endian(value)[0] + little_endian(value)[1] * 0x100 + little_endian(value)[2]
            * 0x1_0000 + little_endian(value)[3] * 0x100_0000 == value,
{
}

/// An item holds a number just where it has four bytes or more: what the first four spell in
/// little-endian place value.
pub proof fn law_item_is_little_endian(bytes: Seq<u8>)
    ensures
        decoded_number(bytes) is Some <==> bytes.len() >= 4,
        decoded_number(bytes) matches Some(value) ==> value == bytes[0] + bytes[1] * 0x100
            + bytes[2] * 0x1_0000 + bytes[3] * 0x100_0000,
{
}

} // verus!
