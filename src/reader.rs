use vstd::prelude::*;
use vstd::utf8::{decode_utf8, valid_utf8};
use crate::header::{decode_header, header_of, ResultHeader, HEADER_SIZE};

verus! {

/// Why a result could not be read out of guest memory.
#[derive(Debug)]
pub enum ReadError {
    /// The header or the payload it describes does not lie inside memory;
    /// nothing of the payload was read.
    BoundaryViolation,
    /// The payload is not valid UTF-8; its bytes are kept for diagnostics.
    Decode(Vec<u8>),
}

/// The header stored at `handle`, if its 16 bytes lie inside `mem`.
pub open spec fn header_at(mem: Seq<u8>, handle: u64) -> Option<ResultHeader> {
    if handle + HEADER_SIZE <= mem.len() {
        Some(header_of(mem.subrange(handle as int, handle + HEADER_SIZE)))
    } else {
        None
    }
}

/// The payload bytes that the header at `handle` describes, if both the header
/// and the payload lie inside `mem`.
pub open spec fn payload_at(mem: Seq<u8>, handle: u64) -> Option<Seq<u8>> {
    match header_at(mem, handle) {
        Some(h) => if h.payload_offset + h.payload_length <= mem.len() {
            Some(mem.subrange(h.payload_offset as int, h.payload_offset + h.payload_length))
        } else {
            None
        },
        None => None,
    }
}

/// What reading the result at `handle` out of `mem` gives: absent for the
/// null handle, a boundary violation when header or payload leave memory, the
/// decoded text for a UTF-8 payload, and a decode error holding the payload's
/// bytes otherwise.
pub open spec fn read_post(mem: Seq<u8>, handle: u64, r: Result<Option<String>, ReadError>) -> bool {
    &&& handle == 0 ==> (r matches Ok(None))
    &&& handle != 0 ==> match payload_at(mem, handle) {
        None => (r matches Err(ReadError::BoundaryViolation)),
        Some(p) => if valid_utf8(p) {
            (r matches Ok(Some(s)) && s@ == decode_utf8(p))
        } else {
            (r matches Err(ReadError::Decode(b)) && b@ == p)
        },
    }
}

/// Relies on `String::from_utf8`: it succeeds exactly on valid UTF-8, and the
/// string then holds the characters that the bytes encode.
#[verifier::external_body]
fn utf8_to_string(bytes: Vec<u8>) -> (r: Result<String, Vec<u8>>)
    ensures
        r is Ok <==> valid_utf8(bytes@),
        r matches Ok(s) ==> s@ == decode_utf8(bytes@),
        r matches Err(b) ==> b@ == bytes@,
{
    match String::from_utf8(bytes) {
        Ok(s) => Ok(s),
        Err(e) => Err(e.into_bytes()),
    }
}

/// An owned copy of the bytes of `mem` from `start` up to `end`.
pub fn copy_range(mem: &[u8], start: usize, end: usize) -> (r: Vec<u8>)
    requires
        start <= end <= mem@.len(),
    ensures
        r@ == mem@.subrange(start as int, end as int),
{
    let mut r: Vec<u8> = Vec::new();
    let mut i: usize = start;
    while i < end
        invariant
            start <= i <= end <= mem@.len(),
            r@ == mem@.subrange(start as int, i as int),
        decreases end - i,
    {
        r.push(mem[i]);
        i = i + 1;
    }
    r
}

/// Reads the result that `handle` names out of the guest memory `mem`.
///
/// A zero handle is absent and is never read as a header. A header or payload
/// that reaches past the end of memory is a boundary violation, found before
/// any payload byte is read. A payload that is not UTF-8 is a decode error.
pub fn read_result(mem: &[u8], handle: u64) -> (r: Result<Option<String>, ReadError>)
    ensures
        read_post(mem@, handle, r),
{
    if handle == 0 {
        return Ok(None);
    }
    let len = mem.len() as u64;
    if handle > len || len - handle < HEADER_SIZE {
        return Err(ReadError::BoundaryViolation);
    }
    let h = decode_header(mem, handle as usize);
    if h.payload_offset > len || len - h.payload_offset < h.payload_length {
        return Err(ReadError::BoundaryViolation);
    }
    let start = h.payload_offset as usize;
    let end = (h.payload_offset + h.payload_length) as usize;
    let bytes = copy_range(mem, start, end);
    match utf8_to_string(bytes) {
        Ok(s) => Ok(Some(s)),
        Err(b) => Err(ReadError::Decode(b)),
    }
}

} // verus!
