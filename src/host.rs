use vstd::prelude::*;
use crate::guest::{free_post, GuestHeap};
use crate::reader::{read_post, read_result, ReadError};

verus! {

/// A result taken out of the guest: what reading it gave, and whether the
/// guest accepted its release.
pub struct Taken {
    pub outcome: Result<Option<String>, ReadError>,
    pub released: bool,
}

/// Takes the result at `handle` out of the guest: reads it, then releases it
/// whatever the read gave, so that a failed read leaks nothing and no read
/// can follow the release.
pub fn take_result(heap: &mut GuestHeap, handle: u64) -> (t: Taken)
    requires
        old(heap).wf(),
    ensures
        final(heap).wf(),
        read_post(old(heap).mem(), handle, t.outcome),
        free_post(*old(heap), *final(heap), handle, t.released),
{
    let outcome = read_result(heap.memory(), handle);
    let released = heap.free_result(handle);
    Taken { outcome, released }
}

} // verus!
