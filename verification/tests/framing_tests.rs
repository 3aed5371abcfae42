use switch_bridge::framing::{
    decode_request_frame, decode_response_frame, decode_u32_be, decode_u32_le,
    encode_handle_response, encode_request_frame, encode_response_frame, encode_u32_be,
    encode_u32_le,
};

#[test]
fn le_bytes_exact() {
    assert_eq!(encode_u32_le(0x01020304), vec![0x04, 0x03, 0x02, 0x01]);
    assert_eq!(encode_u32_le(0), vec![0, 0, 0, 0]);
    assert_eq!(encode_u32_le(u32::MAX), vec![0xff, 0xff, 0xff, 0xff]);
}

#[test]
fn be_bytes_exact() {
    assert_eq!(encode_u32_be(0x01020304), vec![0x01, 0x02, 0x03, 0x04]);
    assert_eq!(encode_u32_be(7), vec![0, 0, 0, 7]);
    assert_eq!(encode_u32_be(u32::MAX), vec![0xff, 0xff, 0xff, 0xff]);
}

#[test]
fn u32_round_trips_both_orders() {
    for x in [0u32, 1, 0x17, 0x18, 0xff, 0x100, 0xffff, 0x10000, 0xdeadbeef, u32::MAX] {
        assert_eq!(decode_u32_le(&encode_u32_le(x)), x);
        assert_eq!(decode_u32_be(&encode_u32_be(x)), x);
    }
}

#[test]
fn byte_orders_agree_with_std() {
    for x in [0u32, 5, 0x1234, 0xdeadbeef] {
        assert_eq!(encode_u32_le(x), x.to_le_bytes().to_vec());
        assert_eq!(encode_u32_be(x), x.to_be_bytes().to_vec());
    }
}

#[test]
fn request_frame_round_trip_many_lengths() {
    for len in 0usize..64 {
        let payload: Vec<u8> = (0..len).map(|i| (i * 7 + 1) as u8).collect();
        let frame = encode_request_frame(&payload);
        assert_eq!(frame.len(), payload.len() + 4);
        assert_eq!(&frame[..4], &(len as u32).to_le_bytes());
        assert_eq!(decode_request_frame(&frame), Some(payload));
    }
}

#[test]
fn response_frame_round_trip_many_lengths() {
    for len in 0usize..64 {
        let payload: Vec<u8> = (0..len).map(|i| (i * 13 + 2) as u8).collect();
        let frame = encode_response_frame(&payload);
        assert_eq!(frame.len(), payload.len() + 4);
        assert_eq!(&frame[..4], &(len as u32).to_be_bytes());
        assert_eq!(decode_response_frame(&frame), Some(payload));
    }
}

#[test]
fn directions_differ_on_purpose() {
    let payload = vec![0u8; 258];
    let req = encode_request_frame(&payload);
    let resp = encode_response_frame(&payload);
    assert_eq!(&req[..4], &[0x02, 0x01, 0x00, 0x00]);
    assert_eq!(&resp[..4], &[0x00, 0x00, 0x01, 0x02]);
    assert_ne!(&req[..4], &resp[..4]);
}

#[test]
fn malformed_frames_are_rejected() {
    assert_eq!(decode_request_frame(&vec![]), None);
    assert_eq!(decode_request_frame(&vec![1, 0, 0]), None);
    // states one payload byte, carries none
    assert_eq!(decode_request_frame(&vec![1, 0, 0, 0]), None);
    // states one payload byte, carries two
    assert_eq!(decode_request_frame(&vec![1, 0, 0, 0, 9, 9]), None);
    assert_eq!(decode_request_frame(&vec![1, 0, 0, 0, 9]), Some(vec![9]));
    assert_eq!(decode_response_frame(&vec![0, 0, 0, 1]), None);
    assert_eq!(decode_response_frame(&vec![0, 0, 0, 1, 9]), Some(vec![9]));
}

#[test]
fn handle_response_exact_bytes() {
    // handle 1 encodes as the single byte 0x01 behind a big-endian length 1
    assert_eq!(encode_handle_response(1), vec![0, 0, 0, 1, 0x01]);
    // 0x17 is the last single-byte value
    assert_eq!(encode_handle_response(0x17), vec![0, 0, 0, 1, 0x17]);
    // one-byte argument
    assert_eq!(encode_handle_response(0x18), vec![0, 0, 0, 2, 0x18, 0x18]);
    assert_eq!(encode_handle_response(0xff), vec![0, 0, 0, 2, 0x18, 0xff]);
    // two-byte argument
    assert_eq!(encode_handle_response(0x100), vec![0, 0, 0, 3, 0x19, 0x01, 0x00]);
    assert_eq!(encode_handle_response(0xffff), vec![0, 0, 0, 3, 0x19, 0xff, 0xff]);
    // four-byte argument
    assert_eq!(
        encode_handle_response(0x10000),
        vec![0, 0, 0, 5, 0x1a, 0x00, 0x01, 0x00, 0x00]
    );
    assert_eq!(
        encode_handle_response(u32::MAX),
        vec![0, 0, 0, 5, 0x1a, 0xff, 0xff, 0xff, 0xff]
    );
}

#[test]
fn handle_response_payload_matches_reference_encoder() {
    for h in [0u32, 1, 0x17, 0x18, 0xff, 0x100, 0xffff, 0x10000, u32::MAX] {
        let frame = encode_handle_response(h);
        let payload = serde_cbor::to_vec(&h).unwrap();
        assert_eq!(&frame[..4], &(payload.len() as u32).to_be_bytes());
        assert_eq!(&frame[4..], &payload[..]);
        let back: u32 = serde_cbor::from_slice(&frame[4..]).unwrap();
        assert_eq!(back, h);
    }
}
