//! The wire frame: one type byte, a four-byte big-endian payload length, then
//! the payload.

use crate::error::AppError;
use crate::types::PacketType;
use vstd::prelude::*;
use vstd::slice::slice_subrange;
use vstd::slice::slice_to_vec;
use vstd::string::StringExecFns;

verus! {

/// One decoded frame.
#[derive(Debug)]
pub struct Frame {
    pub packet_type: PacketType,
    pub payload: Vec<u8>,
}

/// The number of bytes before the payload.
pub const HEADER_LEN: usize = 5;

/// The four bytes of `n` modulo 2^32, most significant first.
pub open spec fn be32(n: nat) -> Seq<u8> {
    seq![
        ((n / 0x100_0000) % 0x100) as u8,
        ((n / 0x1_0000) % 0x100) as u8,
        ((n / 0x100) % 0x100) as u8,
        (n % 0x100) as u8,
    ]
}

/// The number that four big-endian bytes stand for.
pub open spec fn be32_value(b: Seq<u8>) -> nat
    recommends
        b.len() == 4,
{
    (b[0] as nat) * 0x100_0000 + (b[1] as nat) * 0x1_0000 + (b[2] as nat) * 0x100 + (b[3] as nat)
}

/// The bytes of a frame. The length field holds the payload length modulo
/// 2^32: no cap is enforced here.
pub open spec fn frame_bytes(packet_type: PacketType, payload: Seq<u8>) -> Seq<u8> {
    seq![packet_type.wire_value()] + be32(payload.len()) + payload
}

/// What reading one frame off the front of `input` gives.
pub enum Decoded {
    /// The input is empty: the peer closed the stream between frames.
    End,
    /// The first byte names no packet type.
    BadType(u8),
    /// The input stops inside the length field or inside the payload.
    Truncated,
    /// A whole frame, and the number of input bytes it took.
    Frame { packet_type: PacketType, payload: Seq<u8>, used: nat },
}

/// Reads one frame off the front of `input`.
pub open spec fn decode_spec(input: Seq<u8>) -> Decoded {
    if input.len() == 0 {
        Decoded::End
    } else {
        match PacketType::of_wire(input[0]) {
            None => Decoded::BadType(input[0]),
            Some(packet_type) => {
                if input.len() < 5 {
                    Decoded::Truncated
                } else {
                    let len = be32_value(input.subrange(1, 5));
                    if input.len() < 5 + len {
                        Decoded::Truncated
                    } else {
                        Decoded::Frame {
                            packet_type,
                            payload: input.subrange(5, 5 + len as int),
                            used: 5 + len,
                        }
                    }
                }
            },
        }
    }
}

/// Encodes one frame. A frame whose payload length fits the length field
/// decodes to the same type and payload.
pub fn encode_frame(packet_type: PacketType, payload: &[u8]) -> (frame: Vec<u8>)
    ensures
        frame@ == frame_bytes(packet_type, payload@),
        payload@.len() <= u32::MAX ==> decode_spec(frame@) == (Decoded::Frame {
            packet_type,
            payload: payload@,
            used: frame@.len(),
        }),
{
    let len: usize = payload.len();
    let b0: u8 = ((len >> 24) & 0xff) as u8;
    let b1: u8 = ((len >> 16) & 0xff) as u8;
    let b2: u8 = ((len >> 8) & 0xff) as u8;
    let b3: u8 = (len & 0xff) as u8;
    proof {
        assert(((len >> 24) & 0xff) == (len / 0x100_0000) % 0x100) by (bit_vector);
        assert(((len >> 16) & 0xff) == (len / 0x1_0000) % 0x100) by (bit_vector);
        assert(((len >> 8) & 0xff) == (len / 0x100) % 0x100) by (bit_vector);
        assert((len & 0xff) == len % 0x100) by (bit_vector);
    }
    let mut frame: Vec<u8> = Vec::new();
    frame.push(packet_type.to_u8());
    frame.push(b0);
    frame.push(b1);
    frame.push(b2);
    frame.push(b3);
    frame.extend_from_slice(payload);
    proof {
        assert(frame@ =~= frame_bytes(packet_type, payload@));
        if payload@.len() <= u32::MAX {
            lemma_frame_roundtrip(packet_type, payload@, Seq::empty());
            assert(frame@ + Seq::<u8>::empty() =~= frame@);
        }
    }
    frame
}

/// The payload length that a frame header announces.
pub fn payload_len(header: &[u8]) -> (len: u32)
    requires
        header@.len() == HEADER_LEN,
    ensures
        len == be32_value(header@.subrange(1, 5)),
{
    let b0: u32 = header[1] as u32;
    let b1: u32 = header[2] as u32;
    let b2: u32 = header[3] as u32;
    let b3: u32 = header[4] as u32;
    b0 * 0x100_0000 + b1 * 0x1_0000 + b2 * 0x100 + b3
}

/// Reads one frame off the front of `input`. `Ok(None)` means that the input
/// is empty, which is how a clean disconnect looks. An unknown type byte is a
/// `ParseError`; input that stops inside a frame is an `Io` error. On success
/// the second component is the number of bytes the frame took.
pub fn decode_frame(input: &[u8]) -> (r: Result<Option<(Frame, usize)>, AppError>)
    ensures
        match decode_spec(input@) {
            Decoded::End => r == Ok::<Option<(Frame, usize)>, AppError>(None),
            Decoded::BadType(_) => r is Err && r->Err_0 is ParseError,
            Decoded::Truncated => r is Err && r->Err_0 is Io,
            Decoded::Frame { packet_type, payload, used } => {
                &&& r is Ok
                &&& r->Ok_0 is Some
                &&& r->Ok_0->Some_0.0.packet_type == packet_type
                &&& r->Ok_0->Some_0.0.payload@ == payload
                &&& r->Ok_0->Some_0.1 == used
            },
        },
{
    if input.len() == 0 {
        return Ok(None);
    }
    let packet_type = match PacketType::from_u8(input[0]) {
        Some(t) => t,
        None => {
            return Err(AppError::ParseError(String::from_str("Invalid packet type")));
        },
    };
    if input.len() < HEADER_LEN {
        return Err(AppError::Io(String::from_str("unexpected end of stream")));
    }
    let header = slice_subrange(input, 0, HEADER_LEN);
    assert(header@.subrange(1, 5) =~= input@.subrange(1, 5));
    let len: usize = payload_len(header) as usize;
    if input.len() - HEADER_LEN < len {
        return Err(AppError::Io(String::from_str("unexpected end of stream")));
    }
    let body = slice_subrange(input, HEADER_LEN, HEADER_LEN + len);
    let payload = slice_to_vec(body);
    Ok(Some((Frame { packet_type, payload }, HEADER_LEN + len)))
}

/// Decoding an encoded frame gives the frame back and consumes exactly its
/// bytes, whatever follows them, as long as the payload length fits the
/// four-byte length field.
pub proof fn lemma_frame_roundtrip(packet_type: PacketType, payload: Seq<u8>, rest: Seq<u8>)
    requires
        payload.len() <= u32::MAX,
    ensures
        decode_spec(frame_bytes(packet_type, payload) + rest) == (Decoded::Frame {
            packet_type,
            payload,
            used: 5 + payload.len(),
        }),
{
    let bytes = frame_bytes(packet_type, payload) + rest;
    let n = payload.len();
    assert(bytes[0] == packet_type.wire_value());
    assert(bytes.subrange(1, 5) =~= be32(n));
    assert(be32_value(be32(n)) == n) by {
        lemma_be32_value(n);
    }
    assert(bytes.subrange(5, 5 + n as int) =~= payload);
}

/// Four big-endian bytes stand for the number they were made from, when it
/// fits in 32 bits.
pub proof fn lemma_be32_value(n: nat)
    requires
        n <= u32::MAX,
    ensures
        be32_value(be32(n)) == n,
{
    let a = (n / 0x100_0000) % 0x100;
    let b = (n / 0x1_0000) % 0x100;
    let c = (n / 0x100) % 0x100;
    let d = n % 0x100;
    assert(a * 0x100_0000 + b * 0x1_0000 + c * 0x100 + d == n) by (nonlinear_arith)
        requires
            n <= 0xffff_ffff,
            a == (n / 0x100_0000) % 0x100,
            b == (n / 0x1_0000) % 0x100,
            c == (n / 0x100) % 0x100,
            d == n % 0x100,
    ;
}

} // verus!
