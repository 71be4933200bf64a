//! Early allocation in byte granularity.
use vstd::prelude::*;

use crate::AllocError;
use crate::AllocResult;

verus! {

/// A byte-granularity bump allocator for the early boot phase.  Allocation
/// advances a position; deallocation only rewinds the position once every
/// allocated byte has been returned.
pub struct EarlyByteAllocator {
    start: usize,
    pos: usize,
    total_bytes: usize,
    used_bytes: usize,
}

impl EarlyByteAllocator {
    /// The start of the managed region.
    pub closed spec fn spec_start(self) -> usize {
        self.start
    }

    /// The next position handed out.
    pub closed spec fn spec_pos(self) -> usize {
        self.pos
    }

    /// The size of the managed region in bytes.
    pub closed spec fn spec_total(self) -> usize {
        self.total_bytes
    }

    /// The number of bytes currently allocated.
    pub closed spec fn spec_used(self) -> usize {
        self.used_bytes
    }

    /// Creates a new empty `EarlyByteAllocator`.
    pub fn new() -> (r: Self)
        ensures
            r.spec_start() == 0,
            r.spec_pos() == 0,
            r.spec_total() == 0,
            r.spec_used() == 0,
    {
        Self { start: 0, pos: 0, total_bytes: 0, used_bytes: 0 }
    }

    #[inline]
    fn increase_pos(&mut self, size: usize)
        requires
            old(self).spec_pos() + size <= usize::MAX,
        ensures
            final(self).spec_pos() == old(self).spec_pos() + size,
            final(self).spec_start() == old(self).spec_start(),
            final(self).spec_total() == old(self).spec_total(),
            final(self).spec_used() == old(self).spec_used(),
    {
        self.pos += size;
    }

    #[inline]
    fn reset_pos(&mut self)
        ensures
            final(self).spec_pos() == if old(self).spec_used() == 0 {
                old(self).spec_start()
            } else {
                old(self).spec_pos()
            },
            final(self).spec_start() == old(self).spec_start(),
            final(self).spec_total() == old(self).spec_total(),
            final(self).spec_used() == old(self).spec_used(),
    {
        if self.used_bytes == 0 {
            self.pos = self.start;
        }
    }

    /// Hands the allocator a memory region to manage; the region replaces
    /// whatever was managed before.
    pub fn init(&mut self, start: usize, size: usize)
        ensures
            final(self).spec_start() == start,
            final(self).spec_pos() == start,
            final(self).spec_total() == size,
            final(self).spec_used() == old(self).spec_used(),
    {
        self.start = start;
        self.pos = start;
        self.total_bytes = size;
    }

    /// Growing the managed region is unsupported.
    pub fn add_memory(&mut self, _start: usize, _size: usize) -> (r: AllocResult<()>)
        ensures
            r == AllocResult::<()>::Err(AllocError::NoMemory),
            *final(self) == *old(self),
    {
        Err(AllocError::NoMemory)
    }

    /// Allocates `size` bytes by bumping the position.  The current position
    /// is handed out; a position of zero cannot be handed out and reports
    /// exhaustion.
    pub fn alloc_bytes(&mut self, size: usize) -> (r: AllocResult<usize>)
        requires
            old(self).spec_pos() + size <= usize::MAX,
            old(self).spec_used() + size <= usize::MAX,
        ensures
            old(self).spec_pos() == 0 ==> r == AllocResult::<usize>::Err(AllocError::NoMemory)
                && *final(self) == *old(self),
            old(self).spec_pos() != 0 ==> ({
                &&& r matches Ok(p)
                &&& p == old(self).spec_pos()
                &&& final(self).spec_pos() == old(self).spec_pos() + size
                &&& final(self).spec_used() == old(self).spec_used() + size
                &&& final(self).spec_start() == old(self).spec_start()
                &&& final(self).spec_total() == old(self).spec_total()
            }),
    {
        if self.pos == 0 {
            return Err(AllocError::NoMemory);
        }
        let pos = self.pos;
        self.used_bytes += size;
        self.increase_pos(size);
        Ok(pos)
    }

    /// Returns `size` bytes; once nothing stays allocated, the position
    /// rewinds to the start of the region.
    pub fn dealloc(&mut self, size: usize)
        requires
            size <= old(self).spec_used(),
        ensures
            final(self).spec_used() == old(self).spec_used() - size,
            final(self).spec_pos() == if old(self).spec_used() == size {
                old(self).spec_start()
            } else {
                old(self).spec_pos()
            },
            final(self).spec_start() == old(self).spec_start(),
            final(self).spec_total() == old(self).spec_total(),
    {
        self.used_bytes -= size;
        self.reset_pos();
    }

    /// The size of the managed region in bytes.
    pub fn total_bytes(&self) -> (r: usize)
        ensures
            r == self.spec_total(),
    {
        self.total_bytes
    }

    /// The number of bytes currently allocated.
    pub fn used_bytes(&self) -> (r: usize)
        ensures
            r == self.spec_used(),
    {
        self.used_bytes
    }

    /// The number of bytes not yet allocated.
    pub fn available_bytes(&self) -> (r: usize)
        requires
            self.spec_used() <= self.spec_total(),
        ensures
            r == self.spec_total() - self.spec_used(),
    {
        self.total_bytes - self.used_bytes
    }
}

} // verus!
