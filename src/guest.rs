use vstd::prelude::*;
use crate::header::{decode_header, encode_header, header_bytes, lemma_header_round_trip, ResultHeader, HEADER_SIZE};
use crate::reader::{header_at, payload_at};
use vstd::utf8::encode_utf8;

verus! {

/// The first offset that the heap hands out; offset 0 stays the null handle.
pub const HEAP_BASE: u64 = 8;

/// The size that guest memory may grow to.
pub const MEMORY_LIMIT: u64 = 0x8000_0000;

/// The room that an allocation of `size` bytes takes: at least one byte, so
/// that no two live allocations share an offset.
pub open spec fn span(size: u64) -> nat {
    if size == 0 { 1 } else { size as nat }
}

/// A guest's linear memory together with its allocator.
///
/// Allocation bumps a top offset; the allocations that are still live are kept
/// in order of their offsets. Releasing the topmost allocation lowers the top
/// again, and once nothing is live the whole heap is free for reuse.
pub struct GuestHeap {
    memory: Vec<u8>,
    top: u64,
    live: Vec<(u64, u64)>,
}

/// What `produce_result` leaves behind: on success, a header at `handle`
/// naming a fresh payload allocation that holds `bytes`, with everything that
/// was live before left in place; on failure, the null handle and the same
/// live allocations.
pub open spec fn produce_post(old: GuestHeap, new: GuestHeap, bytes: Seq<u8>, handle: u64) -> bool {
    let n = bytes.len();
    &&& (handle != 0 <==> old.top() + span(n as u64) + HEADER_SIZE <= MEMORY_LIMIT)
    &&& handle != 0 ==> {
        &&& handle == old.top() + span(n as u64)
        &&& new.live() == old.live().push((old.top() as u64, n as u64)).push((handle, HEADER_SIZE))
        &&& new.top() == handle + HEADER_SIZE
        &&& header_at(new.mem(), handle) == Some(
            ResultHeader { payload_offset: old.top() as u64, payload_length: n as u64 },
        )
        &&& payload_at(new.mem(), handle) == Some(bytes)
        &&& new.mem().len() == if old.mem().len() < handle + HEADER_SIZE {
            (handle + HEADER_SIZE) as nat
        } else {
            old.mem().len()
        }
        &&& new.mem().subrange(0, old.top() as int) == old.mem().subrange(0, old.top() as int)
    }
    &&& handle == 0 ==> new.live() == old.live() && new.top() == old.top()
}

/// A result handle that `free_result` accepts: the null handle, or a live
/// header allocation whose header names another live allocation.
pub open spec fn freeable(heap: GuestHeap, handle: u64) -> bool {
    handle == 0 || (heap.blocks().contains((handle, HEADER_SIZE)) && match header_at(
        heap.mem(),
        handle,
    ) {
        Some(h) => heap.blocks().contains((h.payload_offset, h.payload_length)) && (
        h.payload_offset, h.payload_length) != (handle, HEADER_SIZE),
        None => false,
    })
}

/// The live allocations once the result at `handle` is freed: its payload and
/// its header are gone.
pub open spec fn blocks_after_free(heap: GuestHeap, handle: u64) -> Set<(u64, u64)> {
    match header_at(heap.mem(), handle) {
        Some(h) => heap.blocks().remove((h.payload_offset, h.payload_length)).remove(
            (handle, HEADER_SIZE),
        ),
        None => heap.blocks(),
    }
}

/// What `free_result` does: it accepts exactly the freeable handles, frees
/// payload and header of a non-null one, and never touches memory bytes.
pub open spec fn free_post(old: GuestHeap, new: GuestHeap, handle: u64, r: bool) -> bool {
    &&& r == freeable(old, handle)
    &&& new.mem() == old.mem()
    &&& new.idle() ==> new.top() == HEAP_BASE
    &&& if r && handle != 0 {
        new.blocks() == blocks_after_free(old, handle)
    } else {
        new == old
    }
}

impl GuestHeap {
    /// The bytes of linear memory.
    pub closed spec fn mem(self) -> Seq<u8> {
        self.memory@
    }

    /// The first offset past every live allocation.
    pub closed spec fn top(self) -> nat {
        self.top as nat
    }

    /// The live allocations as (offset, size), in order of their offsets.
    pub closed spec fn live(self) -> Seq<(u64, u64)> {
        self.live@
    }

    /// The live allocations as a set of (offset, size).
    pub open spec fn blocks(self) -> Set<(u64, u64)> {
        Set::new(|b: (u64, u64)| self.live().contains(b))
    }

    /// The heap is idle when nothing is allocated.
    pub open spec fn idle(self) -> bool {
        self.live().len() == 0
    }

    /// Well-formedness: the top lies between the base and the end of memory,
    /// an idle heap has its top at the base, and the live allocations lie
    /// above the base and below the top, in increasing order, without overlap.
    pub closed spec fn wf(self) -> bool {
        &&& HEAP_BASE <= self.top <= self.memory@.len() <= MEMORY_LIMIT
        &&& self.live@.len() == 0 ==> self.top == HEAP_BASE
        &&& forall|i: int|
            0 <= i < self.live@.len() ==> HEAP_BASE <= #[trigger] self.live@[i].0 && self.live@[i].0
                + span(self.live@[i].1) <= self.top
        &&& forall|i: int, j: int|
            0 <= i < j < self.live@.len() ==> #[trigger] self.live@[i].0 + span(self.live@[i].1)
                <= #[trigger] self.live@[j].0
    }

    /// A fresh heap: nothing allocated, memory no larger than the reserved base.
    pub fn new() -> (h: GuestHeap)
        ensures
            h.wf(),
            h.idle(),
            h.top() == HEAP_BASE,
            h.mem().len() == HEAP_BASE,
    {
        let mut memory: Vec<u8> = Vec::new();
        while memory.len() < HEAP_BASE as usize
            invariant
                memory@.len() <= HEAP_BASE,
            decreases HEAP_BASE - memory@.len(),
        {
            memory.push(0);
        }
        GuestHeap { memory, top: HEAP_BASE, live: Vec::new() }
    }

    /// The bytes of linear memory, for a host to read results from.
    pub fn memory(&self) -> (r: &[u8])
        ensures
            r@ == self.mem(),
    {
        self.memory.as_slice()
    }

    /// The current size of linear memory.
    pub fn memory_size(&self) -> (r: usize)
        ensures
            r == self.mem().len(),
    {
        self.memory.len()
    }

    /// How many allocations are live.
    pub fn live_count(&self) -> (r: usize)
        ensures
            r == self.live().len(),
    {
        self.live.len()
    }

    /// Grows memory with zero bytes until it holds `size` bytes.
    fn grow_to(&mut self, size: u64)
        requires
            old(self).wf(),
            size <= MEMORY_LIMIT,
        ensures
            final(self).wf(),
            final(self).top == old(self).top,
            final(self).live@ == old(self).live@,
            final(self).memory@.len() == if size > old(self).memory@.len() {
                size as nat
            } else {
                old(self).memory@.len()
            },
            final(self).memory@.subrange(0, old(self).memory@.len() as int) == old(self).memory@,
    {
        let target = size as usize;
        while self.memory.len() < target
            invariant
                self.wf(),
                self.top == old(self).top,
                self.live@ == old(self).live@,
                old(self).memory@.len() <= self.memory@.len(),
                self.memory@.len() <= if size > old(self).memory@.len() {
                    size as nat
                } else {
                    old(self).memory@.len()
                },
                self.memory@.subrange(0, old(self).memory@.len() as int) == old(self).memory@,
                target == size,
                size <= MEMORY_LIMIT,
            decreases size - self.memory@.len(),
        {
            self.memory.push(0);
        }
    }

    /// Reserves `size` bytes and returns their offset, or 0 when memory would
    /// grow past its limit. An allocation that fits never gets offset 0, which
    /// stays free to mean "none".
    pub fn allocate(&mut self, size: u64) -> (r: u64)
        requires
            old(self).wf(),
        ensures
            final(self).wf(),
            old(self).top() + span(size) <= MEMORY_LIMIT ==> {
                &&& r == old(self).top()
                &&& r != 0
                &&& final(self).live() == old(self).live().push((r, size))
                &&& final(self).top() == old(self).top() + span(size)
                &&& final(self).mem().len() == if final(self).top() > old(self).mem().len() {
                    final(self).top()
                } else {
                    old(self).mem().len()
                }
                &&& final(self).mem().subrange(0, old(self).mem().len() as int) == old(self).mem()
            },
            old(self).top() + span(size) > MEMORY_LIMIT ==> r == 0 && *final(self) == *old(self),
    {
        let room: u64 = if size == 0 { 1 } else { size };
        if room > MEMORY_LIMIT - self.top {
            return 0;
        }
        let r = self.top;
        let new_top = self.top + room;
        self.grow_to(new_top);
        self.top = new_top;
        self.live.push((r, size));
        proof {
            assert forall|i: int, j: int|
                0 <= i < j < self.live@.len() implies #[trigger] self.live@[i].0 + span(
                self.live@[i].1) <= #[trigger] self.live@[j].0 by {
                if j == self.live@.len() - 1 {
                    assert(self.live@[i] == old(self).live@[i]);
                }
            }
        }
        r
    }

    /// No two live allocations share an offset.
    proof fn lemma_offsets_unique(self, i: int, j: int)
        requires
            self.wf(),
            0 <= i < self.live@.len(),
            0 <= j < self.live@.len(),
            i != j,
        ensures
            self.live@[i].0 != self.live@[j].0,
    {
        if i < j {
            assert(self.live@[i].0 + span(self.live@[i].1) <= self.live@[j].0);
        } else {
            assert(self.live@[j].0 + span(self.live@[j].1) <= self.live@[i].0);
        }
    }

    /// An idle heap has its top at the base.
    pub proof fn lemma_idle_top(self)
        requires
            self.wf(),
        ensures
            self.idle() ==> self.top() == HEAP_BASE,
            self.top() <= MEMORY_LIMIT,
    {
    }

    /// Every live allocation starts below the top.
    pub proof fn lemma_blocks_below_top(self)
        requires
            self.wf(),
        ensures
            forall|e: (u64, u64)| #[trigger] self.blocks().contains(e) ==> e.0 < self.top(),
    {
        assert forall|e: (u64, u64)| #[trigger] self.blocks().contains(e) implies e.0 < self.top() by {
            let k = choose|k: int| 0 <= k < self.live@.len() && self.live@[k] == e;
            assert(self.live@[k].0 + span(self.live@[k].1) <= self.top);
        }
    }

    /// The heap is idle exactly when it holds no allocation.
    pub proof fn lemma_idle_iff_no_blocks(self)
        ensures
            self.idle() <==> self.blocks() =~= Set::<(u64, u64)>::empty(),
    {
        if !self.idle() {
            assert(self.live().contains(self.live()[0]));
            assert(self.blocks().contains(self.live()[0]));
        }
    }

    /// Releases the live allocation of `size` bytes at `offset`. Returns
    /// false, and changes nothing, when there is none.
    pub fn release(&mut self, offset: u64, size: u64) -> (r: bool)
        requires
            old(self).wf(),
        ensures
            final(self).wf(),
            r == old(self).blocks().contains((offset, size)),
            final(self).blocks() == old(self).blocks().remove((offset, size)),
            final(self).mem() == old(self).mem(),
            final(self).idle() ==> final(self).top() == HEAP_BASE,
            !r ==> *final(self) == *old(self),
            r && old(self).live().last() == (offset, size) ==> {
                &&& final(self).live() == old(self).live().drop_last()
                &&& final(self).top() == if final(self).idle() { HEAP_BASE as nat } else { offset as nat }
            },
    {
        let mut i: usize = 0;
        while i < self.live.len()
            invariant
                *self == *old(self),
                self.wf(),
                i <= self.live@.len(),
                forall|j: int| 0 <= j < i ==> self.live@[j] != (offset, size),
            decreases self.live@.len() - i,
        {
            let entry = self.live[i];
            if entry.0 == offset && entry.1 == size {
                let ghost before = self.live@;
                let last = i + 1 == self.live.len();
                self.live.remove(i);
                if self.live.len() == 0 {
                    self.top = HEAP_BASE;
                } else if last {
                    self.top = offset;
                }
                proof {
                    let after = self.live@;
                    assert forall|k: int| 0 <= k < after.len() implies after[k] == if k < i {
                        before[k]
                    } else {
                        before[k + 1]
                    } by {}
                    assert forall|k: int|
                        0 <= k < after.len() implies HEAP_BASE <= #[trigger] after[k].0
                        && after[k].0 + span(after[k].1) <= self.top by {
                        if k < i {
                            assert(before[k].0 + span(before[k].1) <= before[i as int].0);
                        } else {
                            assert(before[k + 1].0 + span(before[k + 1].1) <= old(self).top);
                        }
                    }
                    assert forall|a: int, b: int|
                        0 <= a < b < after.len() implies #[trigger] after[a].0 + span(after[a].1)
                        <= #[trigger] after[b].0 by {
                        let a2 = if a < i { a } else { a + 1 };
                        let b2 = if b < i { b } else { b + 1 };
                        assert(before[a2].0 + span(before[a2].1) <= before[b2].0);
                    }
                    assert forall|e: (u64, u64)| #[trigger]
                        after.contains(e) <==> before.contains(e) && e != (offset, size) by {
                        if after.contains(e) {
                            let k = choose|k: int| 0 <= k < after.len() && after[k] == e;
                            let k2 = if k < i { k } else { k + 1 };
                            assert(before[k2] == e);
                            old(self).lemma_offsets_unique(k2, i as int);
                        }
                        if before.contains(e) && e != (offset, size) {
                            let k = choose|k: int| 0 <= k < before.len() && before[k] == e;
                            assert(k != i);
                            let k2 = if k < i { k } else { k - 1 };
                            assert(after[k2] == e);
                        }
                    }
                    assert(before.contains((offset, size)));
                    if before.last() == (offset, size) {
                        if i + 1 < before.len() {
                            old(self).lemma_offsets_unique(i as int, before.len() - 1);
                        }
                        assert(after =~= before.drop_last());
                    }
                    assert(self.blocks() =~= old(self).blocks().remove((offset, size)));
                }
                return true;
            }
            i = i + 1;
        }
        proof {
            assert(!self.live@.contains((offset, size)));
            assert(self.blocks() =~= old(self).blocks().remove((offset, size)));
        }
        false
    }

    /// Copies `data` into memory at `at`.
    fn write_bytes(&mut self, at: u64, data: &[u8])
        requires
            old(self).wf(),
            at + data@.len() <= old(self).memory@.len(),
        ensures
            final(self).wf(),
            final(self).top == old(self).top,
            final(self).live@ == old(self).live@,
            final(self).memory@.len() == old(self).memory@.len(),
            final(self).memory@.subrange(at as int, at + data@.len()) == data@,
            forall|k: int|
                0 <= k < old(self).memory@.len() && !(at <= k < at + data@.len())
                    ==> final(self).memory@[k] == old(self).memory@[k],
    {
        let base = at as usize;
        let mut j: usize = 0;
        while j < data.len()
            invariant
                self.wf(),
                self.top == old(self).top,
                self.live@ == old(self).live@,
                base == at,
                at + data@.len() <= old(self).memory@.len(),
                self.memory@.len() == old(self).memory@.len(),
                j <= data@.len(),
                forall|k: int| 0 <= k < j ==> self.memory@[at + k] == data@[k],
                forall|k: int|
                    0 <= k < old(self).memory@.len() && !(at <= k < at + j)
                        ==> self.memory@[k] == old(self).memory@[k],
            decreases data@.len() - j,
        {
            self.memory.set(base + j, data[j]);
            j = j + 1;
        }
        assert(self.memory@.subrange(at as int, at + data@.len()) =~= data@);
    }

    /// Whether an allocation of `size` bytes at `offset` is live.
    pub fn is_live(&self, offset: u64, size: u64) -> (r: bool)
        ensures
            r == self.blocks().contains((offset, size)),
    {
        let mut i: usize = 0;
        while i < self.live.len()
            invariant
                i <= self.live@.len(),
                forall|j: int| 0 <= j < i ==> self.live@[j] != (offset, size),
            decreases self.live@.len() - i,
        {
            let entry = self.live[i];
            if entry.0 == offset && entry.1 == size {
                assert(self.live@.contains(self.live@[i as int]));
                return true;
            }
            i = i + 1;
        }
        assert(!self.live@.contains((offset, size)));
        false
    }

    /// Stores the UTF-8 bytes of `text` as a result.
    pub fn produce_result(&mut self, text: &str) -> (handle: u64)
        requires
            old(self).wf(),
        ensures
            final(self).wf(),
            produce_post(*old(self), *final(self), encode_utf8(text@), handle),
    {
        self.produce_bytes(text.as_bytes())
    }

    /// Stores `bytes` as a result: allocates and fills the payload first, then
    /// allocates and fills the header that names it, and returns the header's
    /// offset. Returns 0, leaving the live allocations as they were, when
    /// memory would outgrow its limit.
    pub fn produce_bytes(&mut self, bytes: &[u8]) -> (handle: u64)
        requires
            old(self).wf(),
        ensures
            final(self).wf(),
            produce_post(*old(self), *final(self), bytes@, handle),
    {
        let n = bytes.len() as u64;
        let p = self.allocate(n);
        if p == 0 {
            return 0;
        }
        self.write_bytes(p, bytes);
        let ghost after_payload = self.memory@;
        let h = self.allocate(HEADER_SIZE);
        if h == 0 {
            let ghost pending = *self;
            assert(pending.live().last() == (p, n));
            assert(pending.blocks().contains((p, n))) by {
                assert(pending.live()[pending.live().len() - 1] == (p, n));
            }
            let _ = self.release(p, n);
            assert(old(self).live() =~= pending.live().drop_last());
            return 0;
        }
        let header = ResultHeader { payload_offset: p, payload_length: n };
        let hb = encode_header(header);
        self.write_bytes(h, hb.as_slice());
        proof {
            lemma_header_round_trip(header);
            let m = self.memory@;
            assert(m.subrange(h as int, h + HEADER_SIZE) =~= header_bytes(header));
            assert forall|k: int| 0 <= k < p + n implies m[k] == after_payload[k] by {}
            assert(m.subrange(p as int, p + n) =~= after_payload.subrange(p as int, p + n));
            assert(m.subrange(0, old(self).top as int) =~= old(self).memory@.subrange(
                0,
                old(self).top as int,
            ));
        }
        h
    }

    /// Frees the result at `handle`: releases its payload, then its header.
    /// The null handle is accepted and changes nothing. A handle that is not a
    /// live result header is refused, and nothing is released.
    pub fn free_result(&mut self, handle: u64) -> (r: bool)
        requires
            old(self).wf(),
        ensures
            final(self).wf(),
            free_post(*old(self), *final(self), handle, r),
    {
        if handle == 0 {
            return true;
        }
        if !self.is_live(handle, HEADER_SIZE) {
            return false;
        }
        let ghost i = choose|i: int| 0 <= i < self.live@.len() && self.live@[i] == (handle, HEADER_SIZE);
        assert(self.live@[i].0 + span(self.live@[i].1) <= self.top);
        let h = decode_header(self.memory.as_slice(), handle as usize);
        assert(header_at(self.memory@, handle) == Some(h));
        if !self.is_live(h.payload_offset, h.payload_length) || h.payload_offset == handle {
            proof {
                if h.payload_offset == handle && self.blocks().contains(
                    (h.payload_offset, h.payload_length),
                ) {
                    let j = choose|j: int|
                        0 <= j < self.live@.len() && self.live@[j] == (
                            h.payload_offset,
                            h.payload_length,
                        );
                    if j != i {
                        self.lemma_offsets_unique(i, j);
                    }
                }
            }
            return false;
        }
        let _ = self.release(h.payload_offset, h.payload_length);
        let _ = self.release(handle, HEADER_SIZE);
        true
    }
}

} // verus!
