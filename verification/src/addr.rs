//! Page-granular address arithmetic.
//!
//! The loader computes page-aligned virtual ranges before it asks the page
//! allocator for memory; the 4K helpers of the `memory_addr` crate carry the
//! same arithmetic meaning as the generic helpers proved here.
use vstd::prelude::*;

use vstd::arithmetic::div_mod::lemma_remainder;

verus! {

/// The size of a 4K page (4096 bytes).
pub const PAGE_SIZE_4K: usize = 0x1000;

/// The greatest multiple of `align` that is at most `addr`.
pub open spec fn spec_align_down(addr: int, align: int) -> int {
    (addr / align) * align
}

/// The least multiple of `align` that is at least `addr`.
pub open spec fn spec_align_up(addr: int, align: int) -> int {
    ((addr + align - 1) / align) * align
}

/// Rounding down moves at most `align - 1` bytes and yields a multiple of
/// `align`.
pub proof fn lemma_align_down(addr: int, align: int)
    requires
        0 <= addr,
        1 <= align,
    ensures
        addr - align < spec_align_down(addr, align) <= addr,
        spec_align_down(addr, align) % align == 0,
{
    lemma_remainder(addr, align);
    lemma_mul_mod_zero(addr / align, align);
}

/// Rounding up moves at most `align - 1` bytes and yields a multiple of
/// `align`.
pub proof fn lemma_align_up(addr: int, align: int)
    requires
        0 <= addr,
        1 <= align,
    ensures
        addr <= spec_align_up(addr, align) < addr + align,
        spec_align_up(addr, align) % align == 0,
{
    lemma_remainder(addr + align - 1, align);
    lemma_mul_mod_zero((addr + align - 1) / align, align);
}

/// A multiple of a positive integer leaves no remainder.
pub proof fn lemma_mul_mod_zero(q: int, align: int)
    requires
        1 <= align,
    ensures
        (q * align) % align == 0,
{
    assert((q * align) % align == 0) by (nonlinear_arith)
        requires
            1 <= align,
    ;
}

/// A range whose ends are both aligned holds a whole number of units.
pub proof fn lemma_aligned_range(a: int, b: int, align: int)
    requires
        1 <= align,
        a % align == 0,
        b % align == 0,
        a <= b,
    ensures
        ((b - a) / align) * align == b - a,
        0 <= (b - a) / align,
{
    vstd::arithmetic::div_mod::lemma_fundamental_div_mod(a, align);
    vstd::arithmetic::div_mod::lemma_fundamental_div_mod(b, align);
    let qa = a / align;
    let qb = b / align;
    assert(b - a == align * (qb - qa)) by (nonlinear_arith)
        requires
            a == align * qa,
            b == align * qb,
    ;
    vstd::arithmetic::div_mod::lemma_div_multiples_vanish(qb - qa, align);
    assert(((b - a) / align) * align == b - a) by (nonlinear_arith)
        requires
            (b - a) / align == qb - qa,
            b - a == align * (qb - qa),
    ;
    assert(0 <= (b - a) / align) by (nonlinear_arith)
        requires
            ((b - a) / align) * align == b - a,
            0 <= b - a,
            1 <= align,
    ;
}

/// An aligned address rounds down to itself.
pub proof fn lemma_align_down_multiple(x: int, align: int)
    requires
        1 <= align,
        x % align == 0,
    ensures
        spec_align_down(x, align) == x,
{
    vstd::arithmetic::div_mod::lemma_fundamental_div_mod(x, align);
    assert((x / align) * align == x) by (nonlinear_arith)
        requires
            x == align * (x / align),
    ;
}

/// A multiple of `k * m` is a multiple of `m`.
pub proof fn lemma_multiple_mod_zero(x: int, k: int, m: int)
    requires
        1 <= k,
        1 <= m,
        x % (k * m) == 0,
    ensures
        x % m == 0,
{
    assert(k * m >= 1) by (nonlinear_arith)
        requires
            1 <= k,
            1 <= m,
    ;
    vstd::arithmetic::div_mod::lemma_fundamental_div_mod(x, k * m);
    let q = x / (k * m);
    assert(x == (q * k) * m) by (nonlinear_arith)
        requires
            x == (k * m) * q,
    ;
    lemma_mul_mod_zero(q * k, m);
}

/// Aligns `addr` downwards to a multiple of `align`.
pub fn align_down(addr: usize, align: usize) -> (r: usize)
    requires
        1 <= align,
    ensures
        r == spec_align_down(addr as int, align as int),
        r <= addr,
{
    proof {
        lemma_align_down(addr as int, align as int);
    }
    (addr / align) * align
}

/// Aligns `addr` upwards to a multiple of `align`.
pub fn align_up(addr: usize, align: usize) -> (r: usize)
    requires
        1 <= align,
        addr + align - 1 <= usize::MAX,
    ensures
        r == spec_align_up(addr as int, align as int),
        addr <= r,
{
    proof {
        lemma_align_up(addr as int, align as int);
    }
    ((addr + (align - 1)) / align) * align
}

/// Whether `n` is a power of two: one, or an even number whose half is a
/// power of two.
pub open spec fn spec_is_power_of_two(n: int) -> bool
    decreases n,
{
    if n <= 0 {
        false
    } else if n == 1 {
        true
    } else {
        n % 2 == 0 && spec_is_power_of_two(n / 2)
    }
}

/// Decides whether `n` is a power of two by halving it down to one.
pub fn is_power_of_two(n: usize) -> (b: bool)
    ensures
        b == spec_is_power_of_two(n as int),
{
    if n == 0 {
        return false;
    }
    let mut m: usize = n;
    while m > 1
        invariant
            1 <= m,
            spec_is_power_of_two(n as int) == spec_is_power_of_two(m as int),
        decreases m,
    {
        if m % 2 != 0 {
            return false;
        }
        m = m / 2;
    }
    true
}

/// Relies on `memory_addr::align_down_4k`: it masks the low twelve bits,
/// which for the power-of-two page size equals rounding down to a multiple
/// of 4096.
pub assume_specification[ memory_addr::align_down_4k ](addr: usize) -> (r: usize)
    ensures
        r == spec_align_down(addr as int, PAGE_SIZE_4K as int),
;

/// Relies on `memory_addr::align_up_4k`: it adds 4095 and masks the low
/// twelve bits, which equals rounding up to a multiple of 4096; the addition
/// must not wrap.
pub assume_specification[ memory_addr::align_up_4k ](addr: usize) -> (r: usize)
    requires
        addr + 0xfff <= usize::MAX,
    ensures
        r == spec_align_up(addr as int, PAGE_SIZE_4K as int),
;

} // verus!
