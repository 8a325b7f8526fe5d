use vstd::prelude::*;

verus! {

/// Allocates identifiers for events and their subscribers: a monotonic
/// counter, so every identifier it hands out is distinct from all earlier
/// ones.
pub struct IdAllocator {
    next: u64,
}

impl IdAllocator {
    /// The next identifier this allocator would hand out.
    pub closed spec fn spec_next(&self) -> u64 {
        self.next
    }

    pub fn new() -> (r: IdAllocator)
        ensures
            r.spec_next() == 0,
    {
        IdAllocator { next: 0 }
    }

    /// The next identifier this allocator would hand out, for callers that
    /// must check for exhaustion before asking.
    pub fn peek_next(&self) -> (id: u64)
        ensures
            id == self.spec_next(),
    {
        self.next
    }

    /// Hands out a fresh identifier: strictly larger than every identifier
    /// this allocator has handed out before.
    pub fn allocate(&mut self) -> (id: u64)
        requires
            old(self).spec_next() < u64::MAX,
        ensures
            id == old(self).spec_next(),
            final(self).spec_next() == old(self).spec_next() + 1,
    {
        let id = self.next;
        self.next = self.next + 1;
        id
    }
}

} // verus!
