//! Length-prefixed message framing over the raw bulk byte pipe.
//!
//! A frame is `[4-byte length][payload]`, where the length field states the
//! exact number of payload bytes that follow. The two directions of the link
//! use different byte orders on purpose, because they interoperate with two
//! distinct fixed peers: requests (host to bridge) carry a little-endian
//! length, responses (bridge to host) carry a big-endian length.

use vstd::prelude::*;

verus! {

/// The little-endian byte sequence of a 32-bit value.
pub open spec fn spec_le_bytes(x: u32) -> Seq<u8> {
    seq![
        (x & 0xff) as u8,
        ((x >> 8) & 0xff) as u8,
        ((x >> 16) & 0xff) as u8,
        ((x >> 24) & 0xff) as u8,
    ]
}

/// The big-endian byte sequence of a 32-bit value.
pub open spec fn spec_be_bytes(x: u32) -> Seq<u8> {
    seq![
        ((x >> 24) & 0xff) as u8,
        ((x >> 16) & 0xff) as u8,
        ((x >> 8) & 0xff) as u8,
        (x & 0xff) as u8,
    ]
}

/// The 32-bit value read from four bytes in little-endian order.
pub open spec fn spec_u32_le(s: Seq<u8>) -> u32
    recommends
        s.len() == 4,
{
    (s[0] as u32) | (s[1] as u32) << 8 | (s[2] as u32) << 16 | (s[3] as u32) << 24
}

/// The 32-bit value read from four bytes in big-endian order.
pub open spec fn spec_u32_be(s: Seq<u8>) -> u32
    recommends
        s.len() == 4,
{
    (s[0] as u32) << 24 | (s[1] as u32) << 16 | (s[2] as u32) << 8 | (s[3] as u32)
}

/// A request frame as it appears on the wire: little-endian length, then payload.
pub open spec fn spec_request_frame(payload: Seq<u8>) -> Seq<u8> {
    spec_le_bytes(payload.len() as u32) + payload
}

/// A response frame as it appears on the wire: big-endian length, then payload.
pub open spec fn spec_response_frame(payload: Seq<u8>) -> Seq<u8> {
    spec_be_bytes(payload.len() as u32) + payload
}

/// Encoding a value and reading the bytes back in little-endian order
/// returns the value.
pub proof fn lemma_u32_le_round_trip(x: u32)
    ensures
        spec_u32_le(spec_le_bytes(x)) == x,
{
    assert(((x & 0xff) as u8 as u32) | (((x >> 8) & 0xff) as u8 as u32) << 8 | (((x >> 16)
        & 0xff) as u8 as u32) << 16 | (((x >> 24) & 0xff) as u8 as u32) << 24 == x)
        by (bit_vector);
}

/// Encoding a value and reading the bytes back in big-endian order
/// returns the value.
pub proof fn lemma_u32_be_round_trip(x: u32)
    ensures
        spec_u32_be(spec_be_bytes(x)) == x,
{
    assert((((x >> 24) & 0xff) as u8 as u32) << 24 | (((x >> 16) & 0xff) as u8 as u32) << 16 | (((x
        >> 8) & 0xff) as u8 as u32) << 8 | ((x & 0xff) as u8 as u32) == x)
        by (bit_vector);
}

/// Writes a 32-bit value as four little-endian bytes.
pub fn encode_u32_le(x: u32) -> (r: Vec<u8>)
    ensures
        r@ == spec_le_bytes(x),
{
    proof {
        assert(x & 0xff < 256 && (x >> 8) & 0xff < 256 && (x >> 16) & 0xff < 256 && (x >> 24)
            & 0xff < 256) by (bit_vector);
    }
    let mut r: Vec<u8> = Vec::new();
    r.push((x & 0xff) as u8);
    r.push(((x >> 8) & 0xff) as u8);
    r.push(((x >> 16) & 0xff) as u8);
    r.push(((x >> 24) & 0xff) as u8);
    proof {
        assert(r@ =~= spec_le_bytes(x));
    }
    r
}

/// Writes a 32-bit value as four big-endian bytes.
pub fn encode_u32_be(x: u32) -> (r: Vec<u8>)
    ensures
        r@ == spec_be_bytes(x),
{
    proof {
        assert(x & 0xff < 256 && (x >> 8) & 0xff < 256 && (x >> 16) & 0xff < 256 && (x >> 24)
            & 0xff < 256) by (bit_vector);
    }
    let mut r: Vec<u8> = Vec::new();
    r.push(((x >> 24) & 0xff) as u8);
    r.push(((x >> 16) & 0xff) as u8);
    r.push(((x >> 8) & 0xff) as u8);
    r.push((x & 0xff) as u8);
    proof {
        assert(r@ =~= spec_be_bytes(x));
    }
    r
}

/// Reads a 32-bit value from four little-endian bytes.
pub fn decode_u32_le(b: &Vec<u8>) -> (x: u32)
    requires
        b@.len() == 4,
    ensures
        x == spec_u32_le(b@),
{
    (b[0] as u32) | (b[1] as u32) << 8 | (b[2] as u32) << 16 | (b[3] as u32) << 24
}

/// Reads a 32-bit value from four big-endian bytes.
pub fn decode_u32_be(b: &Vec<u8>) -> (x: u32)
    requires
        b@.len() == 4,
    ensures
        x == spec_u32_be(b@),
{
    (b[0] as u32) << 24 | (b[1] as u32) << 16 | (b[2] as u32) << 8 | (b[3] as u32)
}

/// Wraps a request payload with its little-endian length prefix.
pub fn encode_request_frame(payload: &Vec<u8>) -> (r: Vec<u8>)
    requires
        payload@.len() <= u32::MAX,
    ensures
        r@ == spec_request_frame(payload@),
        r@.len() == payload@.len() + 4,
{
    let mut r = encode_u32_le(payload.len() as u32);
    let mut i: usize = 0;
    while i < payload.len()
        invariant
            i <= payload@.len(),
            payload@.len() <= u32::MAX,
            r@ == spec_le_bytes(payload@.len() as u32) + payload@.subrange(0, i as int),
        decreases payload@.len() - i,
    {
        r.push(payload[i]);
        i = i + 1;
        proof {
            assert(r@ =~= spec_le_bytes(payload@.len() as u32) + payload@.subrange(0, i as int));
        }
    }
    proof {
        assert(payload@.subrange(0, payload@.len() as int) =~= payload@);
    }
    r
}

/// Wraps a response payload with its big-endian length prefix.
pub fn encode_response_frame(payload: &Vec<u8>) -> (r: Vec<u8>)
    requires
        payload@.len() <= u32::MAX,
    ensures
        r@ == spec_response_frame(payload@),
        r@.len() == payload@.len() + 4,
{
    let mut r = encode_u32_be(payload.len() as u32);
    let mut i: usize = 0;
    while i < payload.len()
        invariant
            i <= payload@.len(),
            payload@.len() <= u32::MAX,
            r@ == spec_be_bytes(payload@.len() as u32) + payload@.subrange(0, i as int),
        decreases payload@.len() - i,
    {
        r.push(payload[i]);
        i = i + 1;
        proof {
            assert(r@ =~= spec_be_bytes(payload@.len() as u32) + payload@.subrange(0, i as int));
        }
    }
    proof {
        assert(payload@.subrange(0, payload@.len() as int) =~= payload@);
    }
    r
}

/// The binary object-notation encoding of an unsigned 32-bit value, as the
/// response payload carries it: the shortest unsigned-integer form, which is
/// the value itself as one byte below 0x18, and otherwise a one-, two- or
/// four-byte big-endian argument behind the marker 0x18, 0x19 or 0x1a.
pub open spec fn spec_cbor_u32(x: u32) -> Seq<u8> {
    if x <= 0x17 {
        seq![x as u8]
    } else if x <= 0xff {
        seq![0x18u8, x as u8]
    } else if x <= 0xffff {
        seq![0x19u8, ((x >> 8) & 0xff) as u8, (x & 0xff) as u8]
    } else {
        seq![0x1au8] + spec_be_bytes(x)
    }
}

/// Relies on serde_cbor::to_vec for a `u32`: the serializer writes the value
/// as an unsigned integer of the binary object notation in its shortest
/// form, exactly `spec_cbor_u32`. Serializing an integer into a growable
/// byte buffer has no error path, so the call cannot fail; the fallback arm
/// is unreachable.
#[verifier::external_body]
fn cbor_encode_u32(x: u32) -> (r: Vec<u8>)
    ensures
        r@ == spec_cbor_u32(x),
{
    match serde_cbor::to_vec(&x) {
        Ok(buf) => buf,
        Err(_) => Vec::new(),
    }
}

/// Builds the whole response frame that answers a launch: the new handle's
/// object-notation encoding behind the big-endian length prefix.
pub fn encode_handle_response(handle: u32) -> (r: Vec<u8>)
    ensures
        r@ == spec_response_frame(spec_cbor_u32(handle)),
{
    let payload = cbor_encode_u32(handle);
    proof {
        assert(spec_cbor_u32(handle).len() <= 5);
    }
    encode_response_frame(&payload)
}

/// Splits a whole request frame back into its payload. Returns the payload
/// exactly when the little-endian length prefix states the number of bytes
/// that follow it; any other byte sequence is malformed.
pub fn decode_request_frame(frame: &Vec<u8>) -> (r: Option<Vec<u8>>)
    ensures
        match r {
            Some(p) => {
                &&& frame@.len() >= 4
                &&& spec_u32_le(frame@.subrange(0, 4)) == frame@.len() - 4
                &&& p@ == frame@.skip(4)
            },
            None => frame@.len() < 4 || spec_u32_le(frame@.subrange(0, 4)) != frame@.len() - 4,
        },
{
    if frame.len() < 4 {
        return None;
    }
    let mut header: Vec<u8> = Vec::new();
    header.push(frame[0]);
    header.push(frame[1]);
    header.push(frame[2]);
    header.push(frame[3]);
    proof {
        assert(header@ =~= frame@.subrange(0, 4));
    }
    let stated = decode_u32_le(&header);
    if stated as usize != frame.len() - 4 {
        return None;
    }
    let mut payload: Vec<u8> = Vec::new();
    let mut i: usize = 4;
    while i < frame.len()
        invariant
            4 <= i <= frame@.len(),
            payload@ == frame@.subrange(4, i as int),
        decreases frame@.len() - i,
    {
        payload.push(frame[i]);
        i = i + 1;
        proof {
            assert(payload@ =~= frame@.subrange(4, i as int));
        }
    }
    proof {
        assert(frame@.subrange(4, frame@.len() as int) =~= frame@.skip(4));
    }
    Some(payload)
}

/// Splits a whole response frame back into its payload. Returns the payload
/// exactly when the big-endian length prefix states the number of bytes
/// that follow it.
pub fn decode_response_frame(frame: &Vec<u8>) -> (r: Option<Vec<u8>>)
    ensures
        match r {
            Some(p) => {
                &&& frame@.len() >= 4
                &&& spec_u32_be(frame@.subrange(0, 4)) == frame@.len() - 4
                &&& p@ == frame@.skip(4)
            },
            None => frame@.len() < 4 || spec_u32_be(frame@.subrange(0, 4)) != frame@.len() - 4,
        },
{
    if frame.len() < 4 {
        return None;
    }
    let mut header: Vec<u8> = Vec::new();
    header.push(frame[0]);
    header.push(frame[1]);
    header.push(frame[2]);
    header.push(frame[3]);
    proof {
        assert(header@ =~= frame@.subrange(0, 4));
    }
    let stated = decode_u32_be(&header);
    if stated as usize != frame.len() - 4 {
        return None;
    }
    let mut payload: Vec<u8> = Vec::new();
    let mut i: usize = 4;
    while i < frame.len()
        invariant
            4 <= i <= frame@.len(),
            payload@ == frame@.subrange(4, i as int),
        decreases frame@.len() - i,
    {
        payload.push(frame[i]);
        i = i + 1;
        proof {
            assert(payload@ =~= frame@.subrange(4, i as int));
        }
    }
    proof {
        assert(frame@.subrange(4, frame@.len() as int) =~= frame@.skip(4));
    }
    Some(payload)
}

/// Framing round-trip, request direction: for any payload that fits the
/// length field, the frame opens with the payload's length in little-endian
/// order, and stripping the prefix yields the original payload. Together with
/// the contract of `decode_request_frame`, decoding an encoded frame always
/// recovers the payload.
pub proof fn lemma_request_frame_round_trip(payload: Seq<u8>)
    requires
        payload.len() <= u32::MAX,
    ensures
        spec_request_frame(payload).len() == payload.len() + 4,
        spec_request_frame(payload).subrange(0, 4) == spec_le_bytes(payload.len() as u32),
        spec_u32_le(spec_request_frame(payload).subrange(0, 4)) == payload.len(),
        spec_request_frame(payload).skip(4) == payload,
{
    let frame = spec_request_frame(payload);
    assert(frame.subrange(0, 4) =~= spec_le_bytes(payload.len() as u32));
    lemma_u32_le_round_trip(payload.len() as u32);
    assert(frame.skip(4) =~= payload);
}

/// Framing round-trip, response direction: the frame opens with the payload's
/// length in big-endian order, and stripping the prefix yields the original
/// payload.
pub proof fn lemma_response_frame_round_trip(payload: Seq<u8>)
    requires
        payload.len() <= u32::MAX,
    ensures
        spec_response_frame(payload).len() == payload.len() + 4,
        spec_response_frame(payload).subrange(0, 4) == spec_be_bytes(payload.len() as u32),
        spec_u32_be(spec_response_frame(payload).subrange(0, 4)) == payload.len(),
        spec_response_frame(payload).skip(4) == payload,
{
    let frame = spec_response_frame(payload);
    assert(frame.subrange(0, 4) =~= spec_be_bytes(payload.len() as u32));
    lemma_u32_be_round_trip(payload.len() as u32);
    assert(frame.skip(4) =~= payload);
}

} // verus!
