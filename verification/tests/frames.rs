use mve_transport::frame::{decode_handle, encode_frame, payload};
use mve_transport::handle::ContextHandle;

#[test]
fn frame_starts_with_the_handle_most_significant_byte_first() {
    let data = encode_frame(ContextHandle(0x0102_0304), vec![9, 8]);
    assert_eq!(data, vec![1, 2, 3, 4, 9, 8]);
}

#[test]
fn frame_of_an_empty_payload_is_the_handle_alone() {
    assert_eq!(encode_frame(ContextHandle(u32::MAX), vec![]), vec![255, 255, 255, 255]);
    assert_eq!(encode_frame(ContextHandle(0), vec![]), vec![0, 0, 0, 0]);
}

#[test]
fn frame_header_is_the_big_endian_form_of_the_handle() {
    for id in [0u32, 1, 2, 255, 256, 65_535, 65_536, 16_777_216, 3_000_000_001, u32::MAX] {
        let data = encode_frame(ContextHandle(id), vec![7]);
        assert_eq!(data[..4], id.to_be_bytes());
        assert_eq!(decode_handle(&data), Some(ContextHandle(id)));
        assert_eq!(payload(&data), &[7]);
    }
}

#[test]
fn four_bytes_are_enough_for_a_handle_and_three_are_not() {
    assert_eq!(decode_handle(&[0, 0, 1, 2]), Some(ContextHandle(258)));
    assert_eq!(decode_handle(&[0, 0, 1]), None);
    assert_eq!(decode_handle(&[]), None);
}

#[test]
fn a_frame_is_made_again_of_its_parts() {
    let data = vec![200, 100, 50, 25, 1, 2, 3];
    let handle = decode_handle(&data).unwrap();
    assert_eq!(encode_frame(handle, payload(&data).to_vec()), data);
}

#[test]
fn payload_of_the_shortest_frame_is_empty() {
    assert!(payload(&[1, 2, 3, 4]).is_empty());
}
