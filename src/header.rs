use vstd::prelude::*;
use vstd::bytes::{spec_u64_from_le_bytes, spec_u64_to_le_bytes, u64_from_le_bytes, u64_to_le_bytes};

verus! {

/// Size in bytes of a result header: two little-endian `u64` words.
pub const HEADER_SIZE: u64 = 16;

/// The two words stored at a result handle: where the payload starts and how
/// many bytes it has.
#[derive(Clone, Copy, Debug, PartialEq, Eq, Structural)]
pub struct ResultHeader {
    pub payload_offset: u64,
    pub payload_length: u64,
}

/// The 16 bytes that encode a header on the wire.
pub open spec fn header_bytes(h: ResultHeader) -> Seq<u8> {
    spec_u64_to_le_bytes(h.payload_offset) + spec_u64_to_le_bytes(h.payload_length)
}

/// The header that 16 bytes encode.
pub open spec fn header_of(b: Seq<u8>) -> ResultHeader {
    ResultHeader {
        payload_offset: spec_u64_from_le_bytes(b.subrange(0, 8)),
        payload_length: spec_u64_from_le_bytes(b.subrange(8, 16)),
    }
}

/// Encoding then decoding a header gives it back, and every header encodes to
/// exactly 16 bytes.
pub proof fn lemma_header_round_trip(h: ResultHeader)
    ensures
        header_bytes(h).len() == HEADER_SIZE,
        header_of(header_bytes(h)) == h,
{
    vstd::bytes::lemma_auto_spec_u64_to_from_le_bytes();
    let b = header_bytes(h);
    assert(b.subrange(0, 8) =~= spec_u64_to_le_bytes(h.payload_offset));
    assert(b.subrange(8, 16) =~= spec_u64_to_le_bytes(h.payload_length));
}

/// Writes a header as its 16 wire bytes.
pub fn encode_header(h: ResultHeader) -> (r: Vec<u8>)
    ensures
        r@ == header_bytes(h),
        r@.len() == HEADER_SIZE,
{
    proof {
        lemma_header_round_trip(h);
    }
    let mut r = u64_to_le_bytes(h.payload_offset);
    let mut hi = u64_to_le_bytes(h.payload_length);
    r.append(&mut hi);
    r
}

/// Reads the header stored in the 16 bytes of `mem` that start at `at`.
pub fn decode_header(mem: &[u8], at: usize) -> (h: ResultHeader)
    requires
        at + HEADER_SIZE <= mem@.len(),
    ensures
        h == header_of(mem@.subrange(at as int, at + HEADER_SIZE)),
{
    let _n = mem.len();
    let lo = slice_range(mem, at, at + 8);
    let hi = slice_range(mem, at + 8, at + 16);
    let ghost b = mem@.subrange(at as int, at + HEADER_SIZE);
    assert(b.subrange(0, 8) =~= lo@);
    assert(b.subrange(8, 16) =~= hi@);
    ResultHeader { payload_offset: u64_from_le_bytes(lo), payload_length: u64_from_le_bytes(hi) }
}

/// The bytes of `mem` from `start` up to `end`.
pub fn slice_range(mem: &[u8], start: usize, end: usize) -> (r: &[u8])
    requires
        start <= end <= mem@.len(),
    ensures
        r@ == mem@.subrange(start as int, end as int),
{
    let (left, _) = mem.split_at(end);
    let (_, mid) = left.split_at(start);
    mid
}

} // verus!
