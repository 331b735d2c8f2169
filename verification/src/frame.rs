//! The frame format: four bytes of handle, most significant first, then the payload.
use vstd::prelude::*;
use vstd::slice::slice_subrange;
use crate::handle::ContextHandle;

verus! {

/// How many bytes of a frame are its handle.
pub const HEADER_LEN: usize = 4;

/// The four bytes of a handle, most significant first.
pub open spec fn handle_bytes(handle: u32) -> Seq<u8> {
    seq![
        (handle / 0x100_0000) as u8,
        (handle / 0x1_0000 % 0x100) as u8,
        (handle / 0x100 % 0x100) as u8,
        (handle % 0x100) as u8,
    ]
}

/// The number that four bytes spell, most significant first.
pub open spec fn handle_value(bytes: Seq<u8>) -> int {
    bytes[0] * 0x100_0000 + bytes[1] * 0x1_0000 + bytes[2] * 0x100 + bytes[3]
}

/// The frame that carries `payload` to the context `handle`.
pub open spec fn frame(handle: u32, payload: Seq<u8>) -> Seq<u8> {
    handle_bytes(handle) + payload
}

/// The handle that a frame names, if it is long enough to name one.
pub open spec fn frame_handle(data: Seq<u8>) -> Option<u32> {
    if data.len() >= HEADER_LEN {
        Some(handle_value(data) as u32)
    } else {
        None
    }
}

/// What a frame carries behind its handle.
pub open spec fn frame_payload(data: Seq<u8>) -> Seq<u8> {
    data.skip(HEADER_LEN as int)
}

/// Puts the handle in front of the payload.
pub fn encode_frame(handle: ContextHandle, payload: Vec<u8>) -> (data: Vec<u8>)
    ensures
        data@ == frame(handle.0, payload@),
{
    let id: u32 = handle.0;
    let mut payload = payload;
    let mut data: Vec<u8> = vec![
        (id / 0x100_0000) as u8,
        (id / 0x1_0000 % 0x100) as u8,
        (id / 0x100 % 0x100) as u8,
        (id % 0x100) as u8,
    ];
    assert(data@ == handle_bytes(id));
    data.append(&mut payload);
    data
}

/// The handle of a frame, or `None` where the frame is too short to hold one.
pub fn decode_handle(data: &[u8]) -> (handle: Option<ContextHandle>)
    ensures
        handle == match frame_handle(data@) {
            Some(id) => Some(ContextHandle(id)),
            None => None,
        },
{
    if data.len() < HEADER_LEN {
        return None;
    }
    let id: u32 = data[0] as u32 * 0x100_0000 + data[1] as u32 * 0x1_0000 + data[2] as u32 * 0x100
        + data[3] as u32;
    Some(ContextHandle(id))
}

/// The payload of a frame that is long enough to hold a handle.
pub fn payload(data: &[u8]) -> (bytes: &[u8])
    requires
        data@.len() >= HEADER_LEN,
    ensures
        bytes@ == frame_payload(data@),
{
    slice_subrange(data, HEADER_LEN, data.len())
}

/// Taking a frame apart gives back the handle and the payload that it was made of.
pub proof fn law_frame_roundtrip(handle: u32, payload: Seq<u8>)
    ensures
        frame_handle(frame(handle, payload)) == Some(handle),
        frame_payload(frame(handle, payload)) == payload,
{
    assert(frame_payload(frame(handle, payload)) =~= payload);
}

/// Every byte string of at least four bytes is a frame: of the handle and the payload that it
/// is taken apart into.
pub proof fn law_frame_is_whole(data: Seq<u8>)
    requires
        data.len() >= HEADER_LEN,
    ensures
        frame(frame_handle(data).unwrap(), frame_payload(data)) == data,
{
    let value = handle_value(data);
    assert(0 <= value < 0x1_0000_0000);
    assert(value / 0x100_0000 == data[0]);
    assert(value / 0x1_0000 % 0x100 == data[1]);
    assert(value / 0x100 % 0x100 == data[2]);
    assert(value % 0x100 == data[3]);
    assert(handle_bytes(value as u32) =~= data.take(4));
    assert(frame(frame_handle(data).unwrap(), frame_payload(data)) =~= data);
}

/// Two frames are the same bytes only if they have the same handle and the same payload.
pub proof fn law_frame_injective(
    left_handle: u32,
    left_payload: Seq<u8>,
    right_handle: u32,
    right_payload: Seq<u8>,
)
    requires
        frame(left_handle, left_payload) == frame(right_handle, right_payload),
    ensures
        left_handle == right_handle,
        left_payload == right_payload,
{
    law_frame_roundtrip(left_handle, left_payload);
    law_frame_roundtrip(right_handle, right_payload);
}

/// A frame is the four bytes of its handle in big-endian place value, and behind them the bytes
/// of its payload, none changed, added or left out.
pub proof fn law_header_is_big_endian(handle: ContextHandle, payload: Vec<u8>, data: Vec<u8>)
    requires
        encode_frame.ensures((handle, payload), data),
    ensures
        data@.len() == 4 + payload@.len(),
        data@[0] * 0x100_0000 + data@[1] * 0x1_0000 + data@[2] * 0x100 + data@[3] == handle.0,
        forall|i: int| 0 <= i < payload@.len() ==> #[trigger] data@[4 + i] == payload@[i],
        frame(handle.0, payload@) == data@,
{
}

/// The handle of a frame is what its first four bytes spell in big-endian place value, and every
/// byte string of four bytes or more has one.
pub proof fn law_handle_is_big_endian(data: &[u8], handle: Option<ContextHandle>)
    requires
        decode_handle.ensures((data,), handle),
    ensures
        handle is Some <==> data@.len() >= 4,
        handle matches Some(id) ==> id.0 == data@[0] * 0x100_0000 + data@[1] * 0x1_0000 + data@[2]
            * 0x100 + data@[3],
        handle matches Some(id) ==> frame_handle(data@) == Some(id.0),
        handle is None ==> frame_handle(data@) is None,
{
}

/// The payload of a frame is all of it but its first four bytes.
pub proof fn law_payload_is_the_rest(data: &[u8], bytes: &[u8])
    requires
        payload.ensures((data,), bytes),
        data@.len() >= 4,
    ensures
        bytes@.len() == data@.len() - 4,
        forall|i: int| 0 <= i < bytes@.len() ==> #[trigger] bytes@[i] == data@[4 + i],
        frame_payload(data@) == bytes@,
{
}

/// What a frame is made of, byte by byte: the handle in big-endian place value, then the payload.
pub proof fn law_frame_layout(handle: u32, payload: Seq<u8>)
    ensures
        frame(handle, payload).len() == 4 + payload.len(),
        frame(handle, payload)[0] * 0x100_0000 + frame(handle, payload)[1] * 0x1_0000 + frame(
            handle,
            payload,
        )[2] * 0x100 + frame(handle, payload)[3] == handle,
        frame(handle, payload).subrange(4, 4 + payload.len() as int) == payload,
{
    assert(frame(handle, payload).subrange(4, 4 + payload.len() as int) =~= payload);
}

/// Into what a byte string is taken apart, byte by byte.
pub proof fn law_frame_parts(data: Seq<u8>)
    ensures
        frame_handle(data) is Some <==> data.len() >= 4,
        frame_handle(data) matches Some(handle) ==> handle == data[0] * 0x100_0000 + data[1]
            * 0x1_0000 + data[2] * 0x100 + data[3],
        data.len() >= 4 ==> frame_payload(data) == data.subrange(4, data.len() as int),
{
    if data.len() >= 4 {
        assert(frame_payload(data) =~= data.subrange(4, data.len() as int));
    }
}

/// Every handle and payload make a frame, every byte string can be asked for its handle, and every
/// one of four bytes or more for its payload.
pub proof fn law_frames_are_for_all_bytes(handle: ContextHandle, bytes: Vec<u8>, data: &[u8])
    ensures
        encode_frame.requires((handle, bytes)),
        decode_handle.requires((data,)),
        data@.len() >= 4 ==> payload.requires((data,)),
{
}

} // verus!
