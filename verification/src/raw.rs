//! The blocks behind an allocation, and the two forms of their addresses.
use vstd::arithmetic::power2::{lemma2_to64, lemma_pow2_unfold, pow2};
use vstd::prelude::*;

use crate::cast::{cast_kern, cast_user, kern_view, user_view, Ptr};
use crate::power::{is_next_power, next_power_of_two, power_of_two};

verus! {

/// The size of the smallest block, in bytes.
pub const MIN_BLOCK: usize = 16;

/// The size of the largest block of the buddy allocator, in bytes.
pub const MAX_BLOCK: usize = 524288;

/// Whether the buddy allocator can hand out `size` bytes at `addr`: its blocks are sized in powers
/// of two, from the smallest to the largest, and each lies at a multiple of its size.
pub open spec fn buddy_block(addr: int, size: int) -> bool {
    power_of_two(size) && MIN_BLOCK <= size <= MAX_BLOCK && addr % size == 0
}

/// Whether `b` is the size of the block that serves a request of `size` bytes.
pub open spec fn serves(b: int, size: int) -> bool {
    is_next_power(
        b,
        if size > MIN_BLOCK {
            size
        } else {
            MIN_BLOCK as int
        },
    )
}

/// A block to be had from the hosted allocator.
#[derive(Clone, Copy, Debug, PartialEq, Eq)]
pub struct Block {
    pub size: usize,
    pub align: usize,
}

/// The block that stands in for a buddy block of at least `size` bytes where there is no arena: a
/// power of two in size, and aligned to its size.
pub fn hosted_block(size: usize) -> (r: Block)
    requires
        size <= usize::MAX / 2 + 1,
    ensures
        serves(r.size as int, size as int),
        r.align == r.size,
{
    let wanted: usize = if size > MIN_BLOCK {
        size
    } else {
        MIN_BLOCK
    };
    let size: usize = next_power_of_two(wanted).unwrap();
    Block { size, align: size }
}

/// The kernel-view address, off BPF, of the block that the allocator gave the arena address `ua`;
/// null where it gave none.
pub open spec fn kernel_addr(ua: u64) -> usize {
    if ua == 0 {
        0
    } else {
        kern_view(ua) as usize
    }
}

/// The arena address, off BPF, by which a block is given back.
pub open spec fn arena_addr(ptr: usize) -> u64 {
    user_view(ptr as u64)
}

/// The kernel-view pointer to the block that the allocator gave the arena address `ua`. An address
/// of 0 means that it gave none, and the pointer is null.
pub fn arena_malloc(ua: u64) -> (r: Ptr<u8>)
    ensures
        r.addr == kernel_addr(ua),
{
    if ua == 0 {
        return Ptr::new(0);
    }
    Ptr::new(cast_kern(ua) as usize)
}

/// The arena address under which the block at the kernel-view pointer `ptr` is given back to the
/// allocator.
pub fn arena_free(ptr: Ptr<u8>) -> (r: u64)
    ensures
        r == arena_addr(ptr.addr),
{
    cast_user(ptr.addr as u64)
}

/// What is given back is the address that was handed out. Like the casts this speaks of targets
/// other than BPF; on BPF it rests on the machine that one cast undoes the other.
pub proof fn law_free_gives_back_what_malloc_got(ua: u64)
    requires
        ua <= usize::MAX,
    ensures
        arena_addr(kernel_addr(ua)) == ua,
        kernel_addr(ua) == 0 <==> ua == 0,
{
}

/// The block that serves a request is a power of two in size, holds the request and no less than
/// sixteen bytes, and is less than twice as large as it has to be for that: so there is just one
/// such size.
pub proof fn law_serving_block(b: int, size: int)
    requires
        0 <= size,
        serves(b, size),
    ensures
        exists|k: nat| b == #[trigger] pow2(k),
        b >= 16,
        b >= size,
        b == 16 || b < 2 * size,
        forall|c: int| serves(c, size) ==> c == b,
{
    let k = choose|k: nat| b == #[trigger] pow2(k);
    lemma2_to64();
    assert(pow2(4) == 16);
    if k == 0 {
    } else {
        lemma_pow2_unfold(k);
        let half = pow2((k - 1) as nat) as int;
        assert(power_of_two(half));
        assert(b == 2 * half);
        if b > 16 {
            assert(power_of_two(16));
        }
    }
    assert forall|c: int| serves(c, size) implies c == b by {
        assert(power_of_two(c) && power_of_two(b));
    }
}

/// The kernel-view pointer to a block is null just where there is no block, and off BPF it is the
/// block's own address otherwise; what is given back is the pointer's own address.
pub proof fn law_addresses_off_bpf(ua: u64, ptr: usize)
    requires
        ua <= usize::MAX,
    ensures
        kernel_addr(0) == 0,
        kernel_addr(ua) == ua,
        arena_addr(ptr) == ptr,
{
}

/// A buddy block is of a power of two of sixteen bytes to half a mebibyte, at a multiple of its
/// size.
pub proof fn law_buddy_blocks(addr: int, size: int)
    ensures
        buddy_block(addr, size) <==> (exists|k: nat| size == #[trigger] pow2(k)) && 16 <= size <= 512 * 1024 && addr % size
            == 0,
{
}

} // verus!
