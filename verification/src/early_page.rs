//! Early allocation in page granularity.
use vstd::prelude::*;

use crate::addr::align_down;
use crate::addr::align_up;
use crate::addr::is_power_of_two;
use crate::addr::spec_align_down;
use crate::addr::spec_align_up;
use crate::addr::spec_is_power_of_two;
use crate::AllocError;
use crate::AllocResult;

verus! {

/// A page-granularity bump allocator for the early boot phase: pages are
/// handed out downwards from the end of the managed region, and the
/// position rewinds only once every page has been returned.
///
/// `PAGE_SIZE` must be a power of two.
pub struct EarlyPageAllocator<const PAGE_SIZE: usize> {
    end: usize,
    pos: usize,
    total_pages: usize,
    used_pages: usize,
}

impl<const PAGE_SIZE: usize> EarlyPageAllocator<PAGE_SIZE> {
    /// The page-aligned end of the managed region.
    pub closed spec fn spec_end(self) -> usize {
        self.end
    }

    /// The position the next allocation is carved below.
    pub closed spec fn spec_pos(self) -> usize {
        self.pos
    }

    /// The number of whole pages in the managed region.
    pub closed spec fn spec_total(self) -> usize {
        self.total_pages
    }

    /// The number of pages currently allocated.
    pub closed spec fn spec_used(self) -> usize {
        self.used_pages
    }

    /// The aligned start of the managed region: `spec_total` whole pages
    /// below the region end.
    pub open spec fn spec_region_start(self) -> int {
        self.spec_end() - (PAGE_SIZE as int) * (self.spec_total() as int)
    }

    /// A consistent allocator state: the total pages fit below the region
    /// end, the position lies between the aligned region start and the
    /// region end, and the end and position are page-aligned.
    pub open spec fn wf(self) -> bool {
        &&& 1 <= PAGE_SIZE
        &&& 0 <= self.spec_region_start()
        &&& self.spec_region_start() <= self.spec_pos() <= self.spec_end()
        &&& self.spec_end() as int % (PAGE_SIZE as int) == 0
        &&& self.spec_pos() as int % (PAGE_SIZE as int) == 0
    }

    /// Creates a new empty `EarlyPageAllocator`.
    pub fn new() -> (r: Self)
        ensures
            r.spec_end() == 0,
            r.spec_pos() == 0,
            r.spec_total() == 0,
            r.spec_used() == 0,
            1 <= PAGE_SIZE ==> r.wf(),
    {
        proof {
            if 1 <= PAGE_SIZE {
                crate::addr::lemma_mul_mod_zero(0, PAGE_SIZE as int);
            }
        }
        Self { end: 0, pos: 0, total_pages: 0, used_pages: 0 }
    }

    /// Moves the position down by `num_pages` pages.
    #[inline]
    pub fn decrease_pos(&mut self, num_pages: usize)
        requires
            PAGE_SIZE * num_pages <= old(self).spec_pos(),
        ensures
            final(self).spec_pos() == old(self).spec_pos() - PAGE_SIZE * num_pages,
            final(self).spec_end() == old(self).spec_end(),
            final(self).spec_total() == old(self).spec_total(),
            final(self).spec_used() == old(self).spec_used(),
    {
        self.pos -= PAGE_SIZE * num_pages;
    }

    /// Rewinds the position to the region end once nothing stays allocated.
    #[inline]
    pub fn reset_pos(&mut self)
        ensures
            final(self).spec_pos() == if old(self).spec_used() == 0 {
                old(self).spec_end()
            } else {
                old(self).spec_pos()
            },
            final(self).spec_end() == old(self).spec_end(),
            final(self).spec_total() == old(self).spec_total(),
            final(self).spec_used() == old(self).spec_used(),
    {
        if self.used_pages == 0 {
            self.pos = self.end;
        }
    }

    /// Hands the allocator a memory region to manage: the end is the region
    /// end rounded down to a page, the page count covers the whole pages
    /// inside the region.
    pub fn init(&mut self, start: usize, size: usize)
        requires
            spec_is_power_of_two(PAGE_SIZE as int),
            start + size <= usize::MAX,
            start + PAGE_SIZE - 1 <= usize::MAX,
            spec_align_up(start as int, PAGE_SIZE as int) <= spec_align_down(
                start as int + size,
                PAGE_SIZE as int,
            ),
        ensures
            final(self).spec_end() == spec_align_down(start as int + size, PAGE_SIZE as int),
            final(self).spec_pos() == final(self).spec_end(),
            final(self).spec_total() == (final(self).spec_end() - spec_align_up(
                start as int,
                PAGE_SIZE as int,
            )) / PAGE_SIZE as int,
            final(self).spec_region_start() == spec_align_up(start as int, PAGE_SIZE as int),
            final(self).spec_used() == old(self).spec_used(),
            final(self).wf(),
    {
        proof {
            lemma_power_of_two_pos(PAGE_SIZE as int);
            crate::addr::lemma_align_down(start as int + size, PAGE_SIZE as int);
            crate::addr::lemma_align_up(start as int, PAGE_SIZE as int);
            crate::addr::lemma_aligned_range(
                spec_align_up(start as int, PAGE_SIZE as int),
                spec_align_down(start as int + size, PAGE_SIZE as int),
                PAGE_SIZE as int,
            );
            let p = PAGE_SIZE as int;
            let a = spec_align_up(start as int, p);
            let b = spec_align_down(start as int + size, p);
            let t = (b - a) / p;
            assert(b - p * t == a) by (nonlinear_arith)
                requires
                    t * p == b - a,
            ;
        }
        let ok = is_power_of_two(PAGE_SIZE);
        assert(ok);
        self.end = align_down(start + size, PAGE_SIZE);
        let start = align_up(start, PAGE_SIZE);
        self.pos = self.end;
        self.total_pages = (self.end - start) / PAGE_SIZE;
    }

    /// Growing the managed region is unsupported.
    pub fn add_memory(&mut self, _start: usize, _size: usize) -> (r: AllocResult<()>)
        ensures
            r == AllocResult::<()>::Err(AllocError::NoMemory),
            *final(self) == *old(self),
    {
        Err(AllocError::NoMemory)
    }

    /// Allocates `num_pages` pages below the current position and hands out
    /// the base of the carved range, aligned down to the requested
    /// alignment, which must be a power-of-two multiple of the page size.
    /// A request for more pages than remain between the managed region's
    /// aligned start and the position reports exhaustion and changes
    /// nothing.
    pub fn alloc_pages(&mut self, num_pages: usize, align_pow2: usize) -> (r: AllocResult<usize>)
        requires
            old(self).wf(),
            old(self).spec_used() + num_pages <= usize::MAX,
        ensures
            final(self).wf(),
            ({
                let p = PAGE_SIZE as int;
                let bad_align = align_pow2 as int % p != 0 || !spec_is_power_of_two(
                    align_pow2 as int / p,
                );
                let base = spec_align_down(old(self).spec_pos() - p * num_pages, align_pow2 as int);
                &&& (bad_align || num_pages == 0) ==> r == AllocResult::<usize>::Err(
                    AllocError::InvalidParam,
                ) && *final(self) == *old(self)
                &&& (!bad_align && num_pages >= 1 && p * num_pages > old(self).spec_pos()) ==> r
                    == AllocResult::<usize>::Err(AllocError::NoMemory) && *final(self) == *old(
                    self,
                )
                &&& (!bad_align && num_pages >= 1 && p * num_pages <= old(self).spec_pos() && base
                    < old(self).spec_region_start()) ==> r == AllocResult::<usize>::Err(
                    AllocError::NoMemory,
                ) && *final(self) == *old(self)
                &&& (!bad_align && num_pages >= 1 && p * num_pages <= old(self).spec_pos() && base
                    >= old(self).spec_region_start()) ==> ({
                    &&& r matches Ok(b)
                    &&& b == base
                    &&& base % (align_pow2 as int) == 0
                    &&& old(self).spec_region_start() <= base && base + p * num_pages <= old(
                        self,
                    ).spec_pos()
                    &&& final(self).spec_pos() == base
                    &&& final(self).spec_used() == old(self).spec_used() + num_pages
                    &&& final(self).spec_end() == old(self).spec_end()
                    &&& final(self).spec_total() == old(self).spec_total()
                })
            }),
    {
        if align_pow2 % PAGE_SIZE != 0 {
            return Err(AllocError::InvalidParam);
        }
        if !is_power_of_two(align_pow2 / PAGE_SIZE) {
            return Err(AllocError::InvalidParam);
        }
        if num_pages == 0 {
            return Err(AllocError::InvalidParam);
        }
        proof {
            lemma_power_of_two_pos(align_pow2 as int / PAGE_SIZE as int);
            vstd::arithmetic::div_mod::lemma_fundamental_div_mod(
                align_pow2 as int,
                PAGE_SIZE as int,
            );
            assert(align_pow2 as int >= PAGE_SIZE as int) by (nonlinear_arith)
                requires
                    align_pow2 as int == (PAGE_SIZE as int) * (align_pow2 as int
                        / PAGE_SIZE as int),
                    align_pow2 as int / PAGE_SIZE as int >= 1,
                    PAGE_SIZE as int >= 1,
            ;
        }
        if num_pages > self.pos / PAGE_SIZE {
            proof {
                vstd::arithmetic::div_mod::lemma_remainder(
                    self.spec_pos() as int,
                    PAGE_SIZE as int,
                );
                assert((PAGE_SIZE as int) * (num_pages as int) > self.spec_pos())
                    by (nonlinear_arith)
                    requires
                        1 <= (PAGE_SIZE as int),
                        (num_pages as int) > (self.spec_pos() as int) / (PAGE_SIZE as int),
                        (self.spec_pos() as int) - (PAGE_SIZE as int) < ((
                        self.spec_pos() as int) / (PAGE_SIZE as int)) * (PAGE_SIZE as int),
                ;
            }
            return Err(AllocError::NoMemory);
        }
        proof {
            vstd::arithmetic::div_mod::lemma_remainder_lower(
                self.spec_pos() as int,
                PAGE_SIZE as int,
            );
            assert((PAGE_SIZE as int) * (num_pages as int) <= self.spec_pos())
                by (nonlinear_arith)
                requires
                    1 <= (PAGE_SIZE as int),
                    (num_pages as int) <= (self.spec_pos() as int) / (PAGE_SIZE as int),
                    ((self.spec_pos() as int) / (PAGE_SIZE as int)) * (PAGE_SIZE as int)
                        <= self.spec_pos(),
            ;
        }
        let remainder = self.pos - PAGE_SIZE * num_pages;
        let base = align_down(remainder, align_pow2);
        let region_start = self.end - PAGE_SIZE * self.total_pages;
        if base < region_start {
            return Err(AllocError::NoMemory);
        }
        proof {
            crate::addr::lemma_align_down(remainder as int, align_pow2 as int);
            crate::addr::lemma_multiple_mod_zero(
                base as int,
                align_pow2 as int / PAGE_SIZE as int,
                PAGE_SIZE as int,
            );
            assert((align_pow2 as int / PAGE_SIZE as int) * (PAGE_SIZE as int)
                == align_pow2 as int) by (nonlinear_arith)
                requires
                    align_pow2 as int == (PAGE_SIZE as int) * (align_pow2 as int
                        / PAGE_SIZE as int),
            ;
        }
        self.used_pages += num_pages;
        self.pos = base;
        Ok(base)
    }

    /// Returns `num_pages` pages; once nothing stays allocated, the
    /// position rewinds to the region end.
    pub fn dealloc_pages(&mut self, _pos: usize, num_pages: usize)
        requires
            num_pages <= old(self).spec_used(),
        ensures
            final(self).spec_used() == old(self).spec_used() - num_pages,
            final(self).spec_pos() == if old(self).spec_used() == num_pages {
                old(self).spec_end()
            } else {
                old(self).spec_pos()
            },
            final(self).spec_end() == old(self).spec_end(),
            final(self).spec_total() == old(self).spec_total(),
    {
        self.used_pages -= num_pages;
        self.reset_pos();
    }

    /// The number of whole pages in the managed region.
    pub fn total_pages(&self) -> (r: usize)
        ensures
            r == self.spec_total(),
    {
        self.total_pages
    }

    /// The number of pages currently allocated.
    pub fn used_pages(&self) -> (r: usize)
        ensures
            r == self.spec_used(),
    {
        self.used_pages
    }

    /// The number of pages not yet allocated.
    pub fn available_pages(&self) -> (r: usize)
        requires
            self.spec_used() <= self.spec_total(),
        ensures
            r == self.spec_total() - self.spec_used(),
    {
        self.total_pages - self.used_pages
    }
}

/// A power of two is at least one.
pub proof fn lemma_power_of_two_pos(n: int)
    requires
        spec_is_power_of_two(n),
    ensures
        n >= 1,
{
}

} // verus!
