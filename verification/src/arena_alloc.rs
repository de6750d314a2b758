//! The allocator's answer to a layout.
use vstd::arithmetic::div_mod::{lemma_fundamental_div_mod, lemma_mod_multiples_basic};
use vstd::math::max;
use vstd::prelude::*;

use crate::layout::{valid_layout, Layout};
use crate::power::{lemma_smaller_power_divides, power_of_two};
use crate::raw::{buddy_block, serves, MAX_BLOCK};

verus! {

/// The allocator over libarena's buddy blocks.
///
/// Buddy blocks are sized and aligned in powers of two, so that a block of `max(size, align)`
/// bytes satisfies any layout.
pub struct ArenaAlloc;

impl ArenaAlloc {
    /// How many bytes to ask the buddy allocator for: the larger of size and alignment.
    pub fn request_size(layout: Layout) -> (r: usize)
        ensures
            r == max(layout.spec_size() as int, layout.spec_align() as int),
            r >= layout.spec_size() && r >= layout.spec_align(),
            r == layout.spec_size() || r == layout.spec_align(),
            1 <= r <= usize::MAX / 2 + 1,
    {
        let size: usize = layout.size();
        let align: usize = layout.align();
        proof {
            lemma_smaller_power_divides(align as int, align as int);
        }
        if size > align {
            size
        } else {
            align
        }
    }
}

/// A block of a power of two in size, at a multiple of its size, is at a multiple of every smaller
/// power of two.
proof fn lemma_block_is_aligned(align: int, addr: int, block: int)
    requires
        power_of_two(align),
        power_of_two(block),
        align <= block,
        addr % block == 0,
    ensures
        addr % align == 0,
{
    lemma_smaller_power_divides(align, block);
    let p = block / align;
    let q = addr / block;
    lemma_fundamental_div_mod(block, align);
    lemma_fundamental_div_mod(addr, block);
    assert(addr == align * (p * q)) by (nonlinear_arith)
        requires
            addr == block * q,
            block == align * p,
    ;
    lemma_mod_multiples_basic(p * q, align);
    assert((p * q) * align == align * (p * q)) by (nonlinear_arith);
}

/// Any buddy block as large as the request satisfies the layout: it holds the size, and its
/// address is a multiple of the alignment.
pub proof fn law_buddy_block_satisfies_layout(size: int, align: int, addr: int, block: int)
    requires
        valid_layout(size, align),
        buddy_block(addr, block),
        block >= max(size, align),
    ensures
        size <= block,
        addr % align == 0,
{
    lemma_smaller_power_divides(block, block);
    lemma_block_is_aligned(align, addr, block);
}

/// No buddy block serves a layout that asks for more than the largest block.
pub proof fn law_large_layouts_have_no_buddy_block(size: int, align: int, addr: int, block: int)
    requires
        max(size, align) > MAX_BLOCK,
        buddy_block(addr, block),
    ensures
        block < max(size, align),
{
}

/// The hosted stand-in satisfies every layout as a buddy block does: a block that serves the
/// request, at a multiple of its size, holds the size of the layout, and its address is a multiple
/// of the layout's alignment.
pub proof fn law_hosted_block_satisfies_layout(size: int, align: int, addr: int, block: int)
    requires
        valid_layout(size, align),
        serves(block, max(size, align)),
        addr % block == 0,
    ensures
        size <= block,
        addr % align == 0,
{
    lemma_smaller_power_divides(block, block);
    lemma_block_is_aligned(align, addr, block);
}

} // verus!
