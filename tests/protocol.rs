use hello_wasm::guest::{GuestHeap, HEAP_BASE, MEMORY_LIMIT};
use hello_wasm::header::{decode_header, encode_header, ResultHeader, HEADER_SIZE};
use hello_wasm::host::take_result;
use hello_wasm::reader::{read_result, ReadError};
use hello_wasm::routes::hello_endpoint;

fn memory_with_header(handle: usize, offset: u64, length: u64, size: usize) -> Vec<u8> {
    let mut mem = vec![0u8; size];
    let h = encode_header(ResultHeader { payload_offset: offset, payload_length: length });
    mem[handle..handle + 16].copy_from_slice(&h);
    mem
}

#[test]
fn header_bytes_are_little_endian() {
    let h = ResultHeader { payload_offset: 0x0102030405060708, payload_length: 5 };
    let b = encode_header(h);
    assert_eq!(b, vec![8, 7, 6, 5, 4, 3, 2, 1, 5, 0, 0, 0, 0, 0, 0, 0]);
    assert_eq!(decode_header(&b, 0), h);
    assert_eq!(HEADER_SIZE, 16);
}

#[test]
fn header_decodes_at_offset() {
    let mem = memory_with_header(4, 300, 7, 32);
    assert_eq!(decode_header(&mem, 4), ResultHeader { payload_offset: 300, payload_length: 7 });
}

#[test]
fn zero_handle_is_absent() {
    let mem = memory_with_header(0, 0, 0, 64);
    assert!(matches!(read_result(&mem, 0), Ok(None)));
}

#[test]
fn payload_past_memory_is_boundary_violation() {
    let mem = memory_with_header(8, 30, 10, 32);
    assert!(matches!(read_result(&mem, 8), Err(ReadError::BoundaryViolation)));
    let mem = memory_with_header(8, 24, 8, 32);
    assert!(matches!(read_result(&mem, 8), Ok(Some(s)) if s.is_empty() == false));
}

#[test]
fn payload_offset_overflow_is_boundary_violation() {
    let mem = memory_with_header(8, u64::MAX, 2, 32);
    assert!(matches!(read_result(&mem, 8), Err(ReadError::BoundaryViolation)));
}

#[test]
fn header_past_memory_is_boundary_violation() {
    let mem = vec![0u8; 20];
    assert!(matches!(read_result(&mem, 8), Err(ReadError::BoundaryViolation)));
    assert!(matches!(read_result(&mem, u64::MAX), Err(ReadError::BoundaryViolation)));
}

#[test]
fn payload_is_read_exactly() {
    let mut mem = memory_with_header(8, 24, 5, 40);
    mem[24..29].copy_from_slice(b"hello");
    mem[29] = b'!';
    match read_result(&mem, 8) {
        Ok(Some(s)) => assert_eq!(s, "hello"),
        _ => panic!("expected text"),
    }
}

#[test]
fn invalid_utf8_is_decode_error_and_still_released() {
    let mut heap = GuestHeap::new();
    let h = heap.produce_bytes(&[0x80]);
    assert_ne!(h, 0);
    assert!(matches!(read_result(heap.memory(), h), Err(ReadError::Decode(ref b)) if b == &vec![0x80u8]));
    let t = take_result(&mut heap, h);
    assert!(matches!(t.outcome, Err(ReadError::Decode(ref b)) if b == &vec![0x80u8]));
    assert!(t.released);
    assert_eq!(heap.live_count(), 0);
}

fn round_trip(s: &str) {
    let mut heap = GuestHeap::new();
    let h = heap.produce_result(s);
    assert_ne!(h, 0);
    let t = take_result(&mut heap, h);
    match t.outcome {
        Ok(Some(text)) => assert_eq!(text, s),
        _ => panic!("expected text"),
    }
    assert!(t.released);
}

#[test]
fn round_trip_empty() {
    round_trip("");
}

#[test]
fn round_trip_multibyte() {
    round_trip("héllo ✓ 🦀");
}

#[test]
fn round_trip_64_kib() {
    let s: String = "abcdefgh".repeat(8192);
    assert_eq!(s.len(), 65536);
    round_trip(&s);
}

#[test]
fn hello_end_to_end() {
    let mut heap = GuestHeap::new();
    let body = hello_endpoint();
    let h = heap.produce_result(&body);
    assert_ne!(h, 0);
    let header = decode_header(heap.memory(), h as usize);
    assert_eq!(header.payload_offset, HEAP_BASE);
    assert_eq!(header.payload_length, body.len() as u64);
    let start = header.payload_offset as usize;
    let end = start + header.payload_length as usize;
    assert_eq!(std::str::from_utf8(&heap.memory()[start..end]).unwrap(), "{\"message\":\"World\"}");
    let t = take_result(&mut heap, h);
    assert!(matches!(t.outcome, Ok(Some(ref s)) if s == "{\"message\":\"World\"}"));
    assert!(t.released);
    let again = heap.produce_result(&body);
    assert_eq!(again, h);
    assert_eq!(heap.allocate(4), again + HEADER_SIZE);
}

#[test]
fn one_release_per_handle() {
    let mut heap = GuestHeap::new();
    let a = heap.produce_result("first");
    let b = heap.produce_result("second");
    assert_eq!(heap.live_count(), 4);
    assert!(heap.free_result(a));
    assert_eq!(heap.live_count(), 2);
    assert!(!heap.free_result(a));
    assert_eq!(heap.live_count(), 2);
    assert!(heap.free_result(b));
    assert!(!heap.free_result(b));
    assert_eq!(heap.live_count(), 0);
}

#[test]
fn free_of_null_handle_is_no_op() {
    let mut heap = GuestHeap::new();
    let a = heap.produce_result("kept");
    assert!(heap.free_result(0));
    assert_eq!(heap.live_count(), 2);
    assert!(heap.free_result(a));
}

#[test]
fn free_of_payload_offset_is_refused() {
    let mut heap = GuestHeap::new();
    let a = heap.produce_result("kept");
    assert!(!heap.free_result(HEAP_BASE));
    assert_eq!(heap.live_count(), 2);
    assert!(heap.free_result(a));
}

#[test]
fn cycles_do_not_grow_memory() {
    let mut heap = GuestHeap::new();
    let body = hello_endpoint();
    let h = heap.produce_result(&body);
    assert!(take_result(&mut heap, h).released);
    let size = heap.memory_size();
    assert_eq!(size as u64, HEAP_BASE + body.len() as u64 + HEADER_SIZE);
    for _ in 0..10_000 {
        let h = heap.produce_result(&body);
        assert_ne!(h, 0);
        let t = take_result(&mut heap, h);
        assert!(t.released);
        assert!(t.outcome.is_ok());
    }
    assert_eq!(heap.memory_size(), size);
    assert_eq!(heap.live_count(), 0);
}

#[test]
fn allocate_never_returns_null_when_it_fits() {
    let mut heap = GuestHeap::new();
    assert_eq!(heap.allocate(0), HEAP_BASE);
    assert_eq!(heap.allocate(3), HEAP_BASE + 1);
    assert_eq!(heap.allocate(1), HEAP_BASE + 4);
}

#[test]
fn allocate_past_limit_is_null() {
    let mut heap = GuestHeap::new();
    assert_eq!(heap.allocate(MEMORY_LIMIT), 0);
    assert_eq!(heap.live_count(), 0);
    assert_eq!(heap.memory_size() as u64, HEAP_BASE);
}

#[test]
fn release_needs_matching_size() {
    let mut heap = GuestHeap::new();
    let p = heap.allocate(10);
    assert!(!heap.release(p, 9));
    assert!(!heap.release(p + 1, 10));
    assert!(heap.release(p, 10));
    assert!(!heap.release(p, 10));
}

#[test]
fn releasing_topmost_lowers_top() {
    let mut heap = GuestHeap::new();
    let a = heap.allocate(4);
    let b = heap.allocate(4);
    assert!(heap.release(b, 4));
    assert_eq!(heap.allocate(4), b);
    assert!(heap.release(a, 4));
    assert_eq!(heap.allocate(2), b + 4);
}
