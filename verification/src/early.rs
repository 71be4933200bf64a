//! The combined early allocator.
use vstd::prelude::*;

use crate::addr::spec_align_down;
use crate::addr::spec_align_up;
use crate::addr::spec_is_power_of_two;
use crate::early_byte::EarlyByteAllocator;
use crate::early_page::EarlyPageAllocator;
use crate::AllocError;
use crate::AllocResult;

verus! {

/// The early allocator: a byte-granularity and a page-granularity bump
/// allocator over one region, the bytes growing from the start and the
/// pages carved from the end.  The loader runs strictly sequentially, so
/// the allocator needs no lock.
pub struct EarlyAllocator<const PAGE_SIZE: usize> {
    byte_alloc: EarlyByteAllocator,
    page_alloc: EarlyPageAllocator<PAGE_SIZE>,
}

impl<const PAGE_SIZE: usize> EarlyAllocator<PAGE_SIZE> {
    /// The byte-granularity half.
    pub closed spec fn spec_bytes(self) -> EarlyByteAllocator {
        self.byte_alloc
    }

    /// The page-granularity half.
    pub closed spec fn spec_pages(self) -> EarlyPageAllocator<PAGE_SIZE> {
        self.page_alloc
    }

    /// Creates a new empty `EarlyAllocator`.
    pub fn new() -> (r: Self)
        ensures
            r.spec_bytes().spec_pos() == 0,
            r.spec_bytes().spec_used() == 0,
            r.spec_bytes().spec_total() == 0,
            r.spec_pages().spec_pos() == 0,
            r.spec_pages().spec_used() == 0,
            r.spec_pages().spec_total() == 0,
            1 <= PAGE_SIZE ==> r.spec_pages().wf(),
    {
        Self { byte_alloc: EarlyByteAllocator::new(), page_alloc: EarlyPageAllocator::new() }
    }

    /// Hands both halves the memory region to manage.
    pub fn init(&mut self, start: usize, size: usize)
        requires
            spec_is_power_of_two(PAGE_SIZE as int),
            start + size <= usize::MAX,
            start + PAGE_SIZE - 1 <= usize::MAX,
            spec_align_up(start as int, PAGE_SIZE as int) <= spec_align_down(
                start as int + size,
                PAGE_SIZE as int,
            ),
        ensures
            final(self).spec_bytes().spec_start() == start,
            final(self).spec_bytes().spec_pos() == start,
            final(self).spec_bytes().spec_total() == size,
            final(self).spec_bytes().spec_used() == old(self).spec_bytes().spec_used(),
            final(self).spec_pages().spec_end() == spec_align_down(
                start as int + size,
                PAGE_SIZE as int,
            ),
            final(self).spec_pages().spec_pos() == final(self).spec_pages().spec_end(),
            final(self).spec_pages().spec_total() == (final(self).spec_pages().spec_end()
                - spec_align_up(start as int, PAGE_SIZE as int)) / PAGE_SIZE as int,
            final(self).spec_pages().spec_used() == old(self).spec_pages().spec_used(),
            final(self).spec_pages().wf(),
    {
        self.page_alloc.init(start, size);
        self.byte_alloc.init(start, size);
    }

    /// Growing the managed region is unsupported.
    pub fn add_memory(&mut self, start: usize, size: usize) -> (r: AllocResult<()>)
        ensures
            r == AllocResult::<()>::Err(AllocError::NoMemory),
            *final(self) == *old(self),
    {
        self.byte_alloc.add_memory(start, size)
    }

    /// Allocates `size` bytes from the byte half.
    pub fn alloc_bytes(&mut self, size: usize) -> (r: AllocResult<usize>)
        requires
            old(self).spec_bytes().spec_pos() + size <= usize::MAX,
            old(self).spec_bytes().spec_used() + size <= usize::MAX,
        ensures
            old(self).spec_bytes().spec_pos() == 0 ==> r == AllocResult::<usize>::Err(
                AllocError::NoMemory,
            ) && *final(self) == *old(self),
            old(self).spec_bytes().spec_pos() != 0 ==> ({
                &&& r matches Ok(p)
                &&& p == old(self).spec_bytes().spec_pos()
                &&& final(self).spec_bytes().spec_pos() == old(self).spec_bytes().spec_pos()
                    + size
                &&& final(self).spec_bytes().spec_used() == old(self).spec_bytes().spec_used()
                    + size
                &&& final(self).spec_bytes().spec_start() == old(self).spec_bytes().spec_start()
                &&& final(self).spec_bytes().spec_total() == old(self).spec_bytes().spec_total()
                &&& final(self).spec_pages() == old(self).spec_pages()
            }),
    {
        self.byte_alloc.alloc_bytes(size)
    }

    /// Returns `size` bytes to the byte half.
    pub fn dealloc(&mut self, size: usize)
        requires
            size <= old(self).spec_bytes().spec_used(),
        ensures
            final(self).spec_bytes().spec_used() == old(self).spec_bytes().spec_used() - size,
            final(self).spec_bytes().spec_pos() == if old(self).spec_bytes().spec_used() == size {
                old(self).spec_bytes().spec_start()
            } else {
                old(self).spec_bytes().spec_pos()
            },
            final(self).spec_bytes().spec_start() == old(self).spec_bytes().spec_start(),
            final(self).spec_bytes().spec_total() == old(self).spec_bytes().spec_total(),
            final(self).spec_pages() == old(self).spec_pages(),
    {
        self.byte_alloc.dealloc(size)
    }

    /// The size of the managed region in bytes.
    pub fn total_bytes(&self) -> (r: usize)
        ensures
            r == self.spec_bytes().spec_total(),
    {
        self.byte_alloc.total_bytes()
    }

    /// The number of bytes currently allocated.
    pub fn used_bytes(&self) -> (r: usize)
        ensures
            r == self.spec_bytes().spec_used(),
    {
        self.byte_alloc.used_bytes()
    }

    /// The number of bytes not yet allocated.
    pub fn available_bytes(&self) -> (r: usize)
        requires
            self.spec_bytes().spec_used() <= self.spec_bytes().spec_total(),
        ensures
            r == self.spec_bytes().spec_total() - self.spec_bytes().spec_used(),
    {
        self.byte_alloc.available_bytes()
    }

    /// Allocates `num_pages` pages from the page half.
    pub fn alloc_pages(&mut self, num_pages: usize, align_pow2: usize) -> (r: AllocResult<usize>)
        requires
            old(self).spec_pages().wf(),
            old(self).spec_pages().spec_used() + num_pages <= usize::MAX,
        ensures
            final(self).spec_pages().wf(),
            ({
                let p = PAGE_SIZE as int;
                let bad_align = align_pow2 as int % p != 0 || !spec_is_power_of_two(
                    align_pow2 as int / p,
                );
                let base = spec_align_down(
                    old(self).spec_pages().spec_pos() - p * num_pages,
                    align_pow2 as int,
                );
                &&& (bad_align || num_pages == 0) ==> r == AllocResult::<usize>::Err(
                    AllocError::InvalidParam,
                ) && *final(self) == *old(self)
                &&& (!bad_align && num_pages >= 1 && p * num_pages > old(
                    self,
                ).spec_pages().spec_pos()) ==> r == AllocResult::<usize>::Err(AllocError::NoMemory)
                    && *final(self) == *old(self)
                &&& (!bad_align && num_pages >= 1 && p * num_pages <= old(
                    self,
                ).spec_pages().spec_pos() && base < old(self).spec_pages().spec_region_start())
                    ==> r == AllocResult::<usize>::Err(AllocError::NoMemory) && *final(self)
                    == *old(self)
                &&& (!bad_align && num_pages >= 1 && p * num_pages <= old(
                    self,
                ).spec_pages().spec_pos() && base >= old(self).spec_pages().spec_region_start())
                    ==> ({
                    &&& r matches Ok(b)
                    &&& b == base
                    &&& base % (align_pow2 as int) == 0
                    &&& final(self).spec_pages().spec_pos() == base
                    &&& final(self).spec_pages().spec_used() == old(self).spec_pages().spec_used()
                        + num_pages
                    &&& final(self).spec_pages().spec_end() == old(self).spec_pages().spec_end()
                    &&& final(self).spec_pages().spec_total() == old(
                        self,
                    ).spec_pages().spec_total()
                    &&& final(self).spec_bytes() == old(self).spec_bytes()
                })
            }),
    {
        self.page_alloc.alloc_pages(num_pages, align_pow2)
    }

    /// Returns `num_pages` pages to the page half.
    pub fn dealloc_pages(&mut self, pos: usize, num_pages: usize)
        requires
            num_pages <= old(self).spec_pages().spec_used(),
        ensures
            final(self).spec_pages().spec_used() == old(self).spec_pages().spec_used() - num_pages,
            final(self).spec_pages().spec_pos() == if old(self).spec_pages().spec_used()
                == num_pages {
                old(self).spec_pages().spec_end()
            } else {
                old(self).spec_pages().spec_pos()
            },
            final(self).spec_pages().spec_end() == old(self).spec_pages().spec_end(),
            final(self).spec_pages().spec_total() == old(self).spec_pages().spec_total(),
            final(self).spec_bytes() == old(self).spec_bytes(),
    {
        self.page_alloc.dealloc_pages(pos, num_pages)
    }

    /// The number of whole pages in the managed region.
    pub fn total_pages(&self) -> (r: usize)
        ensures
            r == self.spec_pages().spec_total(),
    {
        self.page_alloc.total_pages()
    }

    /// The number of pages currently allocated.
    pub fn used_pages(&self) -> (r: usize)
        ensures
            r == self.spec_pages().spec_used(),
    {
        self.page_alloc.used_pages()
    }

    /// The number of pages not yet allocated.
    pub fn available_pages(&self) -> (r: usize)
        requires
            self.spec_pages().spec_used() <= self.spec_pages().spec_total(),
        ensures
            r == self.spec_pages().spec_total() - self.spec_pages().spec_used(),
    {
        self.page_alloc.available_pages()
    }
}

} // verus!
