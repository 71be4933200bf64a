//! Page-granular staging of loadable segments.
//!
//! The loader computes each segment's page-aligned range, asks the page
//! allocator for backing pages, and fills the mapped window: the file bytes
//! verbatim at the segment's address, zeroes everywhere else.
use vstd::prelude::*;

use crate::addr::lemma_align_down;
use crate::addr::lemma_align_up;
use crate::addr::spec_align_down;
use crate::addr::spec_align_up;
use crate::addr::PAGE_SIZE_4K;
use crate::early_page::EarlyPageAllocator;
use crate::segment::parse_load_segments;
use crate::segment::spec_entries_ok;
use crate::segment::spec_load_segments;
use crate::segment::spec_program_table;
use crate::segment::Segment;
use crate::LoaderError;
use vstd::arithmetic::div_mod::lemma_div_multiples_vanish;
use vstd::arithmetic::div_mod::lemma_fundamental_div_mod;

verus! {

impl Segment {
    /// The segment's virtual range rounded down to a page boundary.
    pub open spec fn spec_page_start(self) -> int {
        spec_align_down(self.virtual_address as int, PAGE_SIZE_4K as int)
    }

    /// The segment's virtual range rounded up to a page boundary.
    pub open spec fn spec_page_end(self) -> int {
        spec_align_up(self.virtual_address + self.memory_size, PAGE_SIZE_4K as int)
    }

    /// The number of pages covering the segment's virtual range.
    pub open spec fn spec_page_count(self) -> int {
        (self.spec_page_end() - self.spec_page_start()) / (PAGE_SIZE_4K as int)
    }
}

/// The page-aligned range of a stageable segment covers the segment and is
/// a whole number of pages.
pub proof fn lemma_page_range(s: Segment)
    requires
        s.virtual_address + s.memory_size + 0xfff <= usize::MAX,
    ensures
        s.spec_page_start() % (PAGE_SIZE_4K as int) == 0,
        s.spec_page_end() % (PAGE_SIZE_4K as int) == 0,
        0 <= s.spec_page_start() <= s.virtual_address,
        s.virtual_address + s.memory_size <= s.spec_page_end() <= usize::MAX,
        s.spec_page_end() - s.spec_page_start() == s.spec_page_count() * (PAGE_SIZE_4K as int),
        0 <= s.spec_page_count(),
{
    let p = PAGE_SIZE_4K as int;
    lemma_align_down(s.virtual_address as int, p);
    lemma_align_up(s.virtual_address + s.memory_size, p);
    let a = s.spec_page_start();
    let b = s.spec_page_end();
    lemma_fundamental_div_mod(a, p);
    lemma_fundamental_div_mod(b, p);
    let qa = a / p;
    let qb = b / p;
    assert(b - a == p * (qb - qa)) by (nonlinear_arith)
        requires
            a == p * qa,
            b == p * qb,
    ;
    lemma_div_multiples_vanish(qb - qa, p);
    assert((b - a) / p == qb - qa);
    assert(s.spec_page_count() * p == b - a) by (nonlinear_arith)
        requires
            s.spec_page_count() == qb - qa,
            b - a == p * (qb - qa),
    ;
}

/// One page-granular mapping: `page_count` backing pages installed at the
/// page-aligned `virtual_base`, holding the staged window's bytes.
#[derive(Debug)]
pub struct PageMapping {
    /// Page-aligned base of the mapped virtual range.
    pub virtual_base: usize,
    /// Page-aligned base of the backing physical pages.
    pub physical_base: usize,
    /// Number of mapped pages.
    pub page_count: usize,
    /// What the mapped range holds.
    pub bytes: Vec<u8>,
}

impl PageMapping {
    /// Both bases page-aligned; the window is exactly the mapped pages.
    pub open spec fn wf(self) -> bool {
        &&& self.virtual_base as int % (PAGE_SIZE_4K as int) == 0
        &&& self.physical_base as int % (PAGE_SIZE_4K as int) == 0
        &&& self.bytes@.len() == self.page_count * (PAGE_SIZE_4K as int)
    }
}

/// What a correctly staged segment looks like: the mapping covers the
/// segment's page range, the file bytes sit verbatim at the segment's
/// address, and every other byte of the window is zero.
pub open spec fn spec_staged(m: PageMapping, s: Segment, image: Seq<u8>) -> bool {
    let off = s.virtual_address - m.virtual_base;
    &&& m.wf()
    &&& m.virtual_base == s.spec_page_start()
    &&& m.page_count == s.spec_page_count()
    &&& s.virtual_address + s.memory_size <= m.virtual_base + m.bytes@.len()
    &&& forall|k: int|
        off <= k < off + s.file_size ==> #[trigger] m.bytes@[k] == image[s.file_offset + (k
            - off)]
    &&& forall|k: int|
        0 <= k < m.bytes@.len() && !(off <= k < off + s.file_size) ==> #[trigger] m.bytes@[k] == 0
}

/// Computes the page range, requests backing pages, and stages the segment:
/// `file_size` bytes copied from the container, the rest of the window
/// zero-filled.  Fails exactly where fewer whole pages remain between the
/// allocator's region start and its position than the segment needs, with
/// no partial work.
pub fn load_segment(
    image: &[u8],
    seg: &Segment,
    alloc: &mut EarlyPageAllocator<PAGE_SIZE_4K>,
) -> (r: Result<PageMapping, LoaderError>)
    requires
        seg.loadable(image@.len() as int),
        old(alloc).spec_used() + seg.spec_page_count() <= usize::MAX,
        old(alloc).wf(),
    ensures
        final(alloc).wf(),
        r is Ok <==> (seg.spec_page_count() == 0 || (PAGE_SIZE_4K as int) * seg.spec_page_count()
            <= old(alloc).spec_pos() - old(alloc).spec_region_start()),
        r matches Ok(m) ==> spec_staged(m, *seg, image@),
        r matches Ok(m) ==> (seg.spec_page_count() >= 1 ==> ({
            &&& m.physical_base == old(alloc).spec_pos() - (PAGE_SIZE_4K as int)
                * seg.spec_page_count()
            &&& final(alloc).spec_pos() == old(alloc).spec_pos() - (PAGE_SIZE_4K as int)
                * seg.spec_page_count()
            &&& final(alloc).spec_used() == old(alloc).spec_used() + seg.spec_page_count()
            &&& final(alloc).spec_end() == old(alloc).spec_end()
            &&& final(alloc).spec_total() == old(alloc).spec_total()
        })),
        seg.spec_page_count() == 0 ==> *final(alloc) == *old(alloc),
        r matches Err(e) ==> e == LoaderError::OutOfMemory && *final(alloc) == *old(alloc),
{
    proof {
        lemma_page_range(*seg);
    }
    let va_start = memory_addr::align_down_4k(seg.virtual_address);
    let va_end = memory_addr::align_up_4k(seg.virtual_address + seg.memory_size);
    let window_len = va_end - va_start;
    let num_pages = window_len / PAGE_SIZE_4K;
    let physical_base: usize;
    if num_pages == 0 {
        physical_base = 0;
    } else {
        proof {
            let p = PAGE_SIZE_4K as int;
            let pos0 = old(alloc).spec_pos() as int;
            if p * num_pages <= pos0 {
                vstd::arithmetic::div_mod::lemma_fundamental_div_mod(pos0, p);
                assert(pos0 - p * num_pages == (pos0 / p - num_pages) * p) by (nonlinear_arith)
                    requires
                        pos0 == p * (pos0 / p),
                ;
                crate::addr::lemma_mul_mod_zero(pos0 / p - num_pages, p);
                crate::addr::lemma_align_down_multiple(pos0 - p * num_pages, p);
            }
        }
        match alloc.alloc_pages(num_pages, PAGE_SIZE_4K) {
            Ok(pa) => {
                physical_base = pa;
            },
            Err(_) => {
                return Err(LoaderError::OutOfMemory);
            },
        }
    }
    let mut bytes: Vec<u8> = Vec::new();
    while bytes.len() < window_len
        invariant
            bytes@.len() <= window_len,
            forall|j: int| 0 <= j < bytes@.len() ==> bytes@[j] == 0,
        decreases window_len - bytes@.len(),
    {
        bytes.push(0u8);
    }
    let off = seg.virtual_address - va_start;
    let n_img: usize = image.len();
    let mut j: usize = 0;
    while j < seg.file_size
        invariant
            j <= seg.file_size,
            n_img == image@.len(),
            bytes@.len() == window_len,
            off == seg.virtual_address - va_start,
            va_start == seg.spec_page_start(),
            window_len == seg.spec_page_end() - seg.spec_page_start(),
            off + seg.memory_size <= window_len,
            seg.file_offset + seg.file_size <= image@.len(),
            seg.file_size <= seg.memory_size,
            forall|k: int|
                off <= k < off + j ==> #[trigger] bytes@[k] == image@[seg.file_offset + (k
                    - off)],
            forall|k: int|
                0 <= k < bytes@.len() && !(off <= k < off + j) ==> #[trigger] bytes@[k] == 0,
        decreases seg.file_size - j,
    {
        bytes[off + j] = image[seg.file_offset + j];
        j = j + 1;
    }
    Ok(PageMapping { virtual_base: va_start, physical_base, page_count: num_pages, bytes })
}

/// The number of pages covering the segment's virtual range.
pub fn page_count(seg: &Segment) -> (r: usize)
    requires
        seg.virtual_address + seg.memory_size + 0xfff <= usize::MAX,
    ensures
        r == seg.spec_page_count(),
{
    proof {
        lemma_page_range(*seg);
    }
    let va_start = memory_addr::align_down_4k(seg.virtual_address);
    let va_end = memory_addr::align_up_4k(seg.virtual_address + seg.memory_size);
    (va_end - va_start) / PAGE_SIZE_4K
}

/// The total number of pages a sequence of segments asks of the allocator.
pub open spec fn spec_pages_needed(segs: Seq<Segment>) -> int
    decreases segs.len(),
{
    if segs.len() == 0 {
        0
    } else {
        spec_pages_needed(segs.drop_last()) + segs.last().spec_page_count()
    }
}

proof fn lemma_pages_needed_take(segs: Seq<Segment>, i: int)
    requires
        0 <= i < segs.len(),
    ensures
        spec_pages_needed(segs.take(i + 1)) == spec_pages_needed(segs.take(i))
            + segs[i].spec_page_count(),
{
    assert(segs.take(i + 1).drop_last() =~= segs.take(i));
    assert(segs.take(i + 1).last() == segs[i]);
}

proof fn lemma_pages_needed_mono(segs: Seq<Segment>, i: int, image_len: int)
    requires
        0 <= i <= segs.len(),
        forall|k: int| 0 <= k < segs.len() ==> (#[trigger] segs[k]).loadable(image_len),
    ensures
        spec_pages_needed(segs.take(i)) <= spec_pages_needed(segs),
    decreases segs.len() - i,
{
    if i == segs.len() {
        assert(segs.take(i) =~= segs);
    } else {
        lemma_pages_needed_take(segs, i);
        lemma_page_range(segs[i]);
        lemma_pages_needed_mono(segs, i + 1, image_len);
    }
}

/// Parses the container and stages every loadable segment, in file order.
/// A malformed container aborts the whole load before anything is staged;
/// an exhausted allocator aborts the whole load, and no partial mapping is
/// handed out.
pub fn load_image(image: &[u8], alloc: &mut EarlyPageAllocator<PAGE_SIZE_4K>) -> (r: Result<
    Vec<PageMapping>,
    LoaderError,
>)
    requires
        old(alloc).wf(),
    ensures
        final(alloc).wf(),
        ({
            let parsed_ok = spec_program_table(image@) matches Some(t) && spec_entries_ok(
                t,
                image@.len() as int,
            );
            let segs = spec_load_segments(spec_program_table(image@)->Some_0);
            let total = spec_pages_needed(segs);
            let fits = old(alloc).spec_used() + total <= usize::MAX && (PAGE_SIZE_4K as int)
                * total <= old(alloc).spec_pos() - old(alloc).spec_region_start();
            &&& r is Ok <==> (parsed_ok && fits)
            &&& !parsed_ok ==> ({
                &&& r matches Err(e)
                &&& e == LoaderError::MalformedImage
                &&& *final(alloc) == *old(alloc)
            })
            &&& (parsed_ok && !fits) ==> ({
                &&& r matches Err(e)
                &&& e == LoaderError::OutOfMemory
            })
            &&& r matches Ok(v) ==> ({
                &&& v@.len() == segs.len()
                &&& forall|k: int|
                    0 <= k < segs.len() ==> spec_staged(#[trigger] v@[k], segs[k], image@)
                &&& final(alloc).spec_used() == old(alloc).spec_used() + total
                &&& final(alloc).spec_pos() == old(alloc).spec_pos() - (PAGE_SIZE_4K as int)
                    * total
                &&& final(alloc).spec_end() == old(alloc).spec_end()
                &&& final(alloc).spec_total() == old(alloc).spec_total()
            })
        }),
{
    let segs = match parse_load_segments(image) {
        Ok(v) => v,
        Err(e) => {
            return Err(e);
        },
    };
    let ghost segs_model = segs@;
    let ghost used0 = old(alloc).spec_used();
    let ghost pos0 = old(alloc).spec_pos();
    let mut total: u128 = 0;
    let mut i: usize = 0;
    while i < segs.len()
        invariant
            i <= segs@.len(),
            forall|k: int|
                0 <= k < segs@.len() ==> (#[trigger] segs@[k]).loadable(image@.len() as int),
            total as int == spec_pages_needed(segs@.take(i as int)),
            total as int <= (i as int) * 0x10000000000000,
        decreases segs@.len() - i,
    {
        proof {
            lemma_pages_needed_take(segs@, i as int);
            lemma_page_range(segs@[i as int]);
            assert(segs@[i as int].spec_page_count() * (PAGE_SIZE_4K as int) <= usize::MAX);
            assert(segs@[i as int].spec_page_count() <= 0x10000000000000) by (nonlinear_arith)
                requires
                    segs@[i as int].spec_page_count() * (PAGE_SIZE_4K as int) <= usize::MAX,
                    (PAGE_SIZE_4K as int) == 0x1000,
                    usize::MAX <= 0xffffffffffffffff,
                    segs@[i as int].spec_page_count() >= 0,
            ;
        }
        let c = page_count(&segs[i]);
        total = total + c as u128;
        i = i + 1;
    }
    proof {
        assert(segs@.take(segs@.len() as int) =~= segs@);
    }
    let used_now = alloc.used_pages();
    if total > (usize::MAX - used_now) as u128 {
        proof {
            lemma_pages_needed_mono(segs@, 0, image@.len() as int);
        }
        return Err(LoaderError::OutOfMemory);
    }
    let mut maps: Vec<PageMapping> = Vec::new();
    let mut i: usize = 0;
    while i < segs.len()
        invariant
            i <= segs@.len(),
            segs_model == segs@,
            spec_program_table(image@) is Some,
            spec_entries_ok(spec_program_table(image@)->Some_0, image@.len() as int),
            segs@ == spec_load_segments(spec_program_table(image@)->Some_0),
            forall|k: int|
                0 <= k < segs@.len() ==> (#[trigger] segs@[k]).loadable(image@.len() as int),
            total as int == spec_pages_needed(segs@),
            used0 + total as int <= usize::MAX,
            used0 == old(alloc).spec_used(),
            pos0 == old(alloc).spec_pos(),
            alloc.wf(),
            alloc.spec_used() == used0 + spec_pages_needed(segs@.take(i as int)),
            alloc.spec_pos() == pos0 - (PAGE_SIZE_4K as int) * spec_pages_needed(
                segs@.take(i as int),
            ),
            alloc.spec_end() == old(alloc).spec_end(),
            alloc.spec_total() == old(alloc).spec_total(),
            alloc.spec_region_start() == old(alloc).spec_region_start(),
            0 <= spec_pages_needed(segs@.take(i as int)),
            maps@.len() == i,
            forall|k: int| 0 <= k < i ==> spec_staged(#[trigger] maps@[k], segs@[k], image@),
        decreases segs@.len() - i,
    {
        proof {
            lemma_pages_needed_take(segs@, i as int);
            lemma_page_range(segs@[i as int]);
            lemma_pages_needed_mono(segs@, i as int + 1, image@.len() as int);
        }
        let seg = segs[i];
        match load_segment(image, &seg, alloc) {
            Ok(m) => {
                maps.push(m);
            },
            Err(e) => {
                proof {
                    let before = spec_pages_needed(segs_model.take(i as int));
                    let c = segs_model[i as int].spec_page_count();
                    let rs = old(alloc).spec_region_start();
                    assert((PAGE_SIZE_4K as int) * c > pos0 - (PAGE_SIZE_4K as int) * before
                        - rs);
                    assert((PAGE_SIZE_4K as int) * (before + c) > pos0 - rs) by (nonlinear_arith)
                        requires
                            (PAGE_SIZE_4K as int) * c > pos0 - (PAGE_SIZE_4K as int) * before
                                - rs,
                    ;
                    assert(before + c <= total as int);
                    assert((PAGE_SIZE_4K as int) * (total as int) >= (PAGE_SIZE_4K as int) * (
                    before + c)) by (nonlinear_arith)
                        requires
                            before + c <= total as int,
                    ;
                }
                return Err(e);
            },
        }
        i = i + 1;
    }
    proof {
        assert(segs@.take(segs@.len() as int) =~= segs@);
        let rs = old(alloc).spec_region_start();
        assert((PAGE_SIZE_4K as int) * (total as int) <= pos0 - rs) by (nonlinear_arith)
            requires
                pos0 - (PAGE_SIZE_4K as int) * (total as int) >= rs,
        ;
    }
    Ok(maps)
}

} // verus!
