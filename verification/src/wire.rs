//! The gRPC message frame: one flag byte, always zero, then the payload's
//! length as four bytes in big-endian order, then the payload.
use vstd::prelude::*;

verus! {

/// Number of bytes in a frame header.
pub const HEADER_LEN: usize = 5;

/// Largest payload whose length the header can hold.
pub const MAX_PAYLOAD: u64 = 0xffff_ffff;

/// The four big-endian bytes of a number below 2^32.
pub open spec fn be32(n: int) -> Seq<u8> {
    seq![
        (n / 0x100_0000 % 0x100) as u8,
        (n / 0x1_0000 % 0x100) as u8,
        (n / 0x100 % 0x100) as u8,
        (n % 0x100) as u8,
    ]
}

/// The number that four big-endian bytes stand for.
pub open spec fn be32_value(b: Seq<u8>) -> int
    recommends
        b.len() == 4,
{
    b[0] as int * 0x100_0000 + b[1] as int * 0x1_0000 + b[2] as int * 0x100 + b[3] as int
}

/// The header of a frame for a payload of the given length. A length that
/// does not fit in four bytes is reduced modulo 2^32.
pub open spec fn frame_header(len: nat) -> Seq<u8> {
    seq![0u8] + be32(len as int % 0x1_0000_0000)
}

/// The frame of a payload.
pub open spec fn grpc_frame(payload: Seq<u8>) -> Seq<u8> {
    frame_header(payload.len()) + payload
}

/// Whether the bytes are exactly one uncompressed frame.
pub open spec fn is_frame(data: Seq<u8>) -> bool {
    &&& data.len() >= 5
    &&& data[0] == 0
    &&& be32_value(data.subrange(1, 5)) == data.len() - 5
}

/// The payload of the bytes if they are exactly one frame.
pub open spec fn frame_payload(data: Seq<u8>) -> Option<Seq<u8>> {
    if is_frame(data) {
        Some(data.subrange(5, data.len() as int))
    } else {
        None
    }
}

/// Reading four big-endian bytes gives back the number they were made from.
pub proof fn lemma_be32_round_trip(n: int)
    requires
        0 <= n < 0x1_0000_0000,
    ensures
        be32(n).len() == 4,
        be32_value(be32(n)) == n,
{
}

/// Framing a message and then reading the frame recovers the message, for
/// every message whose length fits in the header.
pub proof fn lemma_frame_round_trip(payload: Seq<u8>)
    requires
        payload.len() <= MAX_PAYLOAD,
    ensures
        grpc_frame(payload).len() == payload.len() + 5,
        grpc_frame(payload)[0] == 0,
        is_frame(grpc_frame(payload)),
        frame_payload(grpc_frame(payload)) == Some(payload),
{
    let n = payload.len() as int;
    let f = grpc_frame(payload);
    lemma_be32_round_trip(n);
    assert(f.subrange(1, 5) =~= be32(n));
    assert(f.subrange(5, f.len() as int) =~= payload);
}

/// Builds the frame of a message.
pub fn encode_frame(payload: &[u8]) -> (r: Vec<u8>)
    ensures
        r@ == grpc_frame(payload@),
{
    let n: u64 = (payload.len() as u64) % 0x1_0000_0000u64;
    let mut r: Vec<u8> = Vec::new();
    r.push(0u8);
    r.push((n / 0x100_0000 % 0x100) as u8);
    r.push((n / 0x1_0000 % 0x100) as u8);
    r.push((n / 0x100 % 0x100) as u8);
    r.push((n % 0x100) as u8);
    assert(r@ =~= frame_header(payload@.len()));
    let mut i: usize = 0;
    while i < payload.len()
        invariant
            i <= payload.len(),
            r@ == frame_header(payload@.len()) + payload@.subrange(0, i as int),
        decreases payload.len() - i,
    {
        r.push(payload[i]);
        assert(r@ =~= frame_header(payload@.len()) + payload@.subrange(0, i as int + 1));
        i += 1;
    }
    assert(payload@.subrange(0, i as int) =~= payload@);
    r
}

/// Reads the payload out of bytes that are exactly one frame.
pub fn decode_frame(data: &[u8]) -> (r: Option<Vec<u8>>)
    ensures
        r is Some <==> is_frame(data@),
        r is Some ==> Some(r->Some_0@) == frame_payload(data@),
{
    if data.len() < HEADER_LEN {
        return None;
    }
    if data[0] != 0 {
        return None;
    }
    let n: u64 = (data[1] as u64) * 0x100_0000 + (data[2] as u64) * 0x1_0000 + (data[3] as u64)
        * 0x100 + (data[4] as u64);
    assert(n == be32_value(data@.subrange(1, 5)));
    if n != (data.len() - HEADER_LEN) as u64 {
        return None;
    }
    let mut r: Vec<u8> = Vec::new();
    let mut i: usize = HEADER_LEN;
    while i < data.len()
        invariant
            5 <= i <= data.len(),
            r@ == data@.subrange(5, i as int),
        decreases data.len() - i,
    {
        r.push(data[i]);
        assert(r@ =~= data@.subrange(5, i as int + 1));
        i += 1;
    }
    Some(r)
}

} // verus!
