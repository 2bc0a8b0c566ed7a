//! Address alignment helpers.
//!
//! Alignments are powers of two; aligning a misaligned address never moves it
//! by a full alignment step.

use vstd::prelude::*;
use vstd::arithmetic::div_mod::{
    lemma_fundamental_div_mod, lemma_fundamental_div_mod_converse, lemma_mod_multiples_basic,
};

verus! {

/// `n` is a power of two.
pub open spec fn is_pow2(n: nat) -> bool
    decreases n,
{
    if n == 0 {
        false
    } else if n == 1 {
        true
    } else {
        n % 2 == 0 && is_pow2(n / 2)
    }
}

/// The least multiple of `align` that is at least `addr`.
pub open spec fn spec_align_up(addr: int, align: int) -> int {
    ((addr + align - 1) / align) * align
}

/// The greatest multiple of `align` that is at most `addr`.
pub open spec fn spec_align_down(addr: int, align: int) -> int {
    (addr / align) * align
}

/// The facts callers need about `spec_align_up`.
pub proof fn lemma_align_up(addr: int, align: int)
    requires
        addr >= 0,
        align >= 1,
    ensures
        spec_align_up(addr, align) % align == 0,
        addr <= spec_align_up(addr, align) < addr + align,
        addr % align == 0 ==> spec_align_up(addr, align) == addr,
{
    let q = (addr + align - 1) / align;
    lemma_fundamental_div_mod(addr + align - 1, align);
    lemma_mod_multiples_basic(q, align);
    if addr % align == 0 {
        lemma_fundamental_div_mod(addr, align);
        let k = addr / align;
        assert(addr == align * k);
        assert(addr + align - 1 == align * k + (align - 1));
        lemma_fundamental_div_mod_converse(addr + align - 1, align, k, align - 1);
    }
}

/// The facts callers need about `spec_align_down`.
pub proof fn lemma_align_down(addr: int, align: int)
    requires
        addr >= 0,
        align >= 1,
    ensures
        spec_align_down(addr, align) % align == 0,
        addr - align < spec_align_down(addr, align) <= addr,
        addr % align == 0 ==> spec_align_down(addr, align) == addr,
{
    let q = addr / align;
    lemma_fundamental_div_mod(addr, align);
    lemma_mod_multiples_basic(q, align);
}

/// The alignments this crate uses are powers of two.
pub proof fn lemma_pow2_literals()
    ensures
        is_pow2(1),
        is_pow2(2),
        is_pow2(4),
        is_pow2(8),
        is_pow2(16),
        is_pow2(4096),
        is_pow2(0x40_0000),
{
    reveal_with_fuel(is_pow2, 24);
}

/// A power of two is positive.
pub proof fn lemma_pow2_pos(n: nat)
    requires
        is_pow2(n),
    ensures
        n >= 1,
{
}

/// Rounds `addr` up to the next multiple of `align`.
pub fn align_ptr_up(addr: usize, align: usize) -> (r: usize)
    requires
        is_pow2(align as nat),
        addr + align - 1 <= usize::MAX,
    ensures
        r == spec_align_up(addr as int, align as int),
        r as int % align as int == 0,
        addr <= r < addr + align,
{
    proof {
        lemma_pow2_pos(align as nat);
        lemma_align_up(addr as int, align as int);
    }
    ((addr + (align - 1)) / align) * align
}

/// Rounds `addr` down to the previous multiple of `align`.
pub fn align_ptr_down(addr: usize, align: usize) -> (r: usize)
    requires
        is_pow2(align as nat),
    ensures
        r == spec_align_down(addr as int, align as int),
        r as int % align as int == 0,
        addr - align < r <= addr,
{
    proof {
        lemma_pow2_pos(align as nat);
        lemma_align_down(addr as int, align as int);
    }
    (addr / align) * align
}

} // verus!
