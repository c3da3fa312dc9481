use vstd::prelude::*;
use vstd::utf8::{decode_utf8, encode_utf8, encode_utf8_decode_utf8, encode_utf8_valid_utf8, valid_utf8};
use crate::guest::{
    blocks_after_free, free_post, freeable, produce_post, span, GuestHeap, HEAP_BASE,
};
use crate::header::{ResultHeader, HEADER_SIZE};
use crate::reader::{header_at, payload_at};

verus! {

/// The largest text, in bytes, that an idle heap always has room for.
pub const MAX_RESULT_BYTES: u64 = 65536;

/// Round trip: a text that the guest stores as a result is read back by the
/// host as exactly that text. On an idle heap a text of at most 64 KiB is
/// always stored.
pub proof fn law_round_trip(before: GuestHeap, after: GuestHeap, s: Seq<char>, handle: u64)
    requires
        before.wf(),
        encode_utf8(s).len() <= MAX_RESULT_BYTES,
        produce_post(before, after, encode_utf8(s), handle),
    ensures
        before.idle() ==> handle != 0,
        handle != 0 ==> {
            &&& payload_at(after.mem(), handle) == Some(encode_utf8(s))
            &&& valid_utf8(encode_utf8(s))
            &&& decode_utf8(encode_utf8(s)) == s
        },
{
    broadcast use encode_utf8_valid_utf8, encode_utf8_decode_utf8;

    before.lemma_idle_top();
    assert(span(encode_utf8(s).len() as u64) <= MAX_RESULT_BYTES);
}

/// Freeing a freshly produced result releases exactly what producing it
/// allocated, and the same handle cannot be freed a second time.
pub proof fn law_free_releases_once(
    before: GuestHeap,
    mid: GuestHeap,
    after: GuestHeap,
    bytes: Seq<u8>,
    handle: u64,
    r: bool,
)
    requires
        before.wf(),
        produce_post(before, mid, bytes, handle),
        handle != 0,
        free_post(mid, after, handle, r),
    ensures
        r,
        after.blocks() == before.blocks(),
        !freeable(after, handle),
{
    let p = before.top() as u64;
    let n = bytes.len() as u64;
    let a = (p, n);
    let b = (handle, HEADER_SIZE);
    assert(mid.live().last() == b);
    assert(mid.live()[mid.live().len() - 2] == a);
    assert(mid.blocks().contains(a));
    assert(mid.blocks().contains(b));
    before.lemma_blocks_below_top();
    assert(header_at(mid.mem(), handle) == Some(ResultHeader { payload_offset: p, payload_length: n }));
    assert(freeable(mid, handle));
    assert forall|e: (u64, u64)| #[trigger] mid.blocks().contains(e) <==> before.blocks().contains(e) || e == a || e == b by {
        if mid.live().contains(e) {
            let k = choose|k: int| 0 <= k < mid.live().len() && mid.live()[k] == e;
            if k < before.live().len() {
                assert(before.live()[k] == e);
            }
        }
        if before.live().contains(e) {
            let k = choose|k: int| 0 <= k < before.live().len() && before.live()[k] == e;
            assert(mid.live()[k] == e);
        }
    }
    assert(!before.blocks().contains(a));
    assert(!before.blocks().contains(b));
    assert(blocks_after_free(mid, handle) =~= before.blocks());
}

/// A produce-and-free cycle on an idle heap leaves it idle, with its top back
/// where it was, and memory grown at most to what one such result needs: so
/// any number of cycles of texts no longer than `bytes` never grows memory
/// past that.
pub proof fn law_cycle_bounded(
    before: GuestHeap,
    mid: GuestHeap,
    after: GuestHeap,
    bytes: Seq<u8>,
    handle: u64,
    r: bool,
)
    requires
        before.wf(),
        before.idle(),
        produce_post(before, mid, bytes, handle),
        handle != 0,
        free_post(mid, after, handle, r),
    ensures
        after.idle(),
        after.top() == before.top(),
        after.mem().len() == if before.mem().len() < HEAP_BASE + span(bytes.len() as u64)
            + HEADER_SIZE {
            HEAP_BASE + span(bytes.len() as u64) + HEADER_SIZE
        } else {
            before.mem().len() as int
        },
{
    law_free_releases_once(before, mid, after, bytes, handle, r);
    before.lemma_idle_top();
    before.lemma_idle_iff_no_blocks();
    after.lemma_idle_iff_no_blocks();
}

} // verus!
