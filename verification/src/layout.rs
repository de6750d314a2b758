//! What an allocation asks for.
use vstd::arithmetic::div_mod::lemma_fundamental_div_mod;
use vstd::arithmetic::power2::{lemma_pow2_pos, pow2};
use vstd::prelude::*;

use crate::power::{
    is_power_of_two, lemma_half_range, lemma_smaller_power_divides, power_of_two,
};

verus! {

/// Whether a block of `size` bytes at multiples of `align` can be asked for: the alignment is a
/// power of two, and the size, rounded up to it, stays within `isize`.
pub open spec fn valid_layout(size: int, align: int) -> bool {
    power_of_two(align) && 0 <= size && size + align <= isize::MAX + 1
}

/// The size and alignment of a block of memory.
#[derive(Clone, Copy, Debug, PartialEq, Eq)]
pub struct Layout {
    size: usize,
    align: usize,
}

/// A size and an alignment that no block can have.
#[derive(Clone, Copy, Debug, PartialEq, Eq)]
pub struct LayoutError;

impl Layout {
    #[verifier::type_invariant]
    spec fn well_formed(self) -> bool {
        valid_layout(self.size as int, self.align as int)
    }

    /// The size in bytes.
    pub closed spec fn spec_size(self) -> usize {
        self.size
    }

    /// The alignment in bytes.
    pub closed spec fn spec_align(self) -> usize {
        self.align
    }

    /// The layout of `size` bytes at a multiple of `align`.
    pub fn from_size_align(size: usize, align: usize) -> (r: Result<Layout, LayoutError>)
        ensures
            r is Ok <==> valid_layout(size as int, align as int),
            r matches Ok(l) ==> l.spec_size() == size && l.spec_align() == align,
    {
        if !is_power_of_two(align) {
            return Err(LayoutError);
        }
        let limit: usize = isize::MAX as usize + 1;
        if align > limit || size > limit - align {
            return Err(LayoutError);
        }
        Ok(Layout { size, align })
    }

    /// The size in bytes.
    pub fn size(&self) -> (r: usize)
        ensures
            r == self.spec_size(),
            valid_layout(self.spec_size() as int, self.spec_align() as int),
    {
        proof {
            use_type_invariant(self);
        }
        self.size
    }

    /// The alignment in bytes.
    pub fn align(&self) -> (r: usize)
        ensures
            r == self.spec_align(),
            valid_layout(self.spec_size() as int, self.spec_align() as int),
    {
        proof {
            use_type_invariant(self);
        }
        self.align
    }
}

/// A layout can be asked for just where its alignment is a power of two and its size, rounded up to
/// a multiple of the alignment, is no more than the largest `isize`.
pub proof fn law_valid_layout(size: nat, align: nat, k: nat)
    requires
        align == pow2(k),
        align <= usize::MAX,
    ensures
        valid_layout(size as int, align as int) <==> exists|m: int|
            size <= #[trigger] (m * align) <= isize::MAX,
{
    let s = size as int;
    let a = align as int;
    let limit = isize::MAX + 1;
    lemma_pow2_pos(k);
    assert(power_of_two(a));
    assert(limit == usize::MAX / 2 + 1);
    lemma_half_range();
    if valid_layout(s, a) {
        let q = (s + a - 1) / a;
        lemma_fundamental_div_mod(s + a - 1, a);
        assert(0 <= (s + a - 1) % a < a);
        assert(a * q == q * a) by (nonlinear_arith);
        assert(s <= q * a <= isize::MAX);
    }
    if exists|m: int| s <= #[trigger] (m * a) <= isize::MAX {
        let m = choose|m: int| s <= #[trigger] (m * a) <= isize::MAX;
        if a > limit {
            lemma_smaller_power_divides(limit, a);
            assert(a % limit == a - limit) by (nonlinear_arith)
                requires
                    limit < a < 2 * limit,
            ;
        } else {
            lemma_smaller_power_divides(a, limit);
            let n = limit / a;
            lemma_fundamental_div_mod(limit, a);
            assert(limit == n * a) by (nonlinear_arith)
                requires
                    limit == a * n,
            ;
            assert(m < n) by (nonlinear_arith)
                requires
                    m * a < n * a,
                    a > 0,
            ;
            assert(m * a <= n * a - a) by (nonlinear_arith)
                requires
                    m <= n - 1,
                    a > 0,
            ;
        }
    }
}

/// An alignment that is no power of two is never asked for.
pub proof fn law_alignments_are_powers_of_two(size: int, align: int)
    requires
        valid_layout(size, align),
    ensures
        exists|k: nat| align == #[trigger] pow2(k),
        0 <= size <= isize::MAX,
        align >= 1,
{
    let k = choose|k: nat| align == #[trigger] pow2(k);
    lemma_pow2_pos(k);
}

} // verus!
