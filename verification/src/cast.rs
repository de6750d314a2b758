//! Address-space casts.
//!
//! libarena hands out arena addresses in the form that userspace knows; code in the kernel works
//! on the kernel view of the same memory. On BPF one instruction takes an address from the one to
//! the other, and its encoding is given here; to execute it is up to the program. On every other
//! target both views are the same: there the casts below leave an address as it is, and it is of
//! those targets that they speak. That on BPF the two instructions undo each other, on an address
//! that libarena handed out, rests on the machine and is not stated.
use std::marker::PhantomData;
use vstd::prelude::*;

verus! {

/// The kernel view of an arena address on targets other than BPF: the address itself.
pub open spec fn kern_view(addr: u64) -> u64 {
    addr
}

/// The arena address of a kernel-view address on targets other than BPF: the address itself.
pub open spec fn user_view(addr: u64) -> u64 {
    addr
}

/// The kernel view of an arena address. To be applied once to every address that libarena hands
/// out, before it is used. This is the cast of targets other than BPF; on BPF the instruction of
/// [`cast_kern_insn`] takes its place.
pub fn cast_kern(addr: u64) -> (r: u64)
    ensures
        r == kern_view(addr),
{
    addr
}

/// The arena address, which libarena and userspace understand, of a kernel-view address. This is
/// the cast of targets other than BPF; on BPF the instruction of [`cast_user_insn`] takes its
/// place.
pub fn cast_user(addr: u64) -> (r: u64)
    ensures
        r == user_view(addr),
{
    addr
}

/// The address of a `T`.
#[derive(Debug, PartialEq, Eq)]
pub struct Ptr<T> {
    pub addr: usize,
    pub pointee: PhantomData<T>,
}

impl<T> Ptr<T> {
    /// The pointer to `addr`.
    pub fn new(addr: usize) -> (r: Ptr<T>)
        ensures
            r.addr == addr,
    {
        Ptr { addr, pointee: PhantomData }
    }

    /// Whether this is the null pointer.
    pub fn is_null(&self) -> (r: bool)
        ensures
            r == (self.addr == 0),
    {
        self.addr == 0
    }
}

/// [`cast_kern`] on a typed pointer.
pub fn cast_kern_ptr<T>(p: Ptr<T>) -> (r: Ptr<T>)
    ensures
        r.addr == kern_view(p.addr as u64),
{
    Ptr::new(cast_kern(p.addr as u64) as usize)
}

/// [`cast_user`] on a typed pointer.
pub fn cast_user_ptr<T>(p: Ptr<T>) -> (r: Ptr<T>)
    ensures
        r.addr == user_view(p.addr as u64),
{
    Ptr::new(cast_user(p.addr as u64) as usize)
}

/// The opcode of a 64-bit register move (`BPF_ALU64 | BPF_MOV | BPF_X`).
pub const MOV_OPCODE: u8 = 0xBF;

/// The address space of the kernel view.
pub const KERN_SPACE: u16 = 0;

/// The address space of the arena.
pub const ARENA_SPACE: u16 = 1;

/// The byte of `n` at little-endian position `i`.
pub open spec fn le_byte(n: int, i: int) -> int {
    if i == 0 {
        n % 256
    } else if i == 1 {
        (n / 256) % 256
    } else if i == 2 {
        (n / 65536) % 256
    } else {
        (n / 16777216) % 256
    }
}

/// Whether `b` is the instruction `r<reg> = addr_space_cast(r<reg>, dst_as, src_as)`: the opcode,
/// the register as both operands, the offset 1 and the two spaces as the immediate, the source in
/// its low half.
pub open spec fn encodes_cast(b: Seq<u8>, reg: int, dst_as: int, src_as: int) -> bool {
    let imm = dst_as * 65536 + src_as;
    &&& b.len() == 8
    &&& b[0] == MOV_OPCODE
    &&& b[1] == reg * 16 + reg
    &&& b[2] == 1
    &&& b[3] == 0
    &&& b[4] == le_byte(imm, 0)
    &&& b[5] == le_byte(imm, 1)
    &&& b[6] == le_byte(imm, 2)
    &&& b[7] == le_byte(imm, 3)
}

/// The bytes of the immediate are those of its two halves.
proof fn lemma_immediate(hi: u16, lo: u16)
    ensures
        le_byte(hi as int * 65536 + lo as int, 0) == lo % 256,
        le_byte(hi as int * 65536 + lo as int, 1) == lo / 256,
        le_byte(hi as int * 65536 + lo as int, 2) == hi % 256,
        le_byte(hi as int * 65536 + lo as int, 3) == hi / 256,
{
    let imm = hi as int * 65536 + lo as int;
    assert(imm % 256 == lo as int % 256);
    assert(imm / 256 == hi as int * 256 + lo as int / 256);
    assert(imm / 65536 == hi as int);
    assert(imm / 16777216 == hi as int / 256);
}

/// The instruction that casts register `reg` from address space `src_as` to `dst_as`. The frame
/// pointer `r10` is no operand of a cast, nor is what lies beyond it.
pub fn addr_space_cast(reg: u8, dst_as: u16, src_as: u16) -> (r: Option<[u8; 8]>)
    ensures
        r is Some <==> reg <= 9,
        r matches Some(b) ==> encodes_cast(b@, reg as int, dst_as as int, src_as as int),
{
    if reg > 9 {
        return None;
    }
    let b: [u8; 8] = [
        MOV_OPCODE,
        reg * 16 + reg,
        1,
        0,
        (src_as % 256) as u8,
        (src_as / 256) as u8,
        (dst_as % 256) as u8,
        (dst_as / 256) as u8,
    ];
    proof {
        lemma_immediate(dst_as, src_as);
    }
    Some(b)
}

/// The instruction of [`cast_kern`]: from the arena to the kernel view.
pub fn cast_kern_insn(reg: u8) -> (r: Option<[u8; 8]>)
    ensures
        r is Some <==> reg <= 9,
        r matches Some(b) ==> encodes_cast(
            b@,
            reg as int,
            KERN_SPACE as int,
            ARENA_SPACE as int,
        ),
{
    addr_space_cast(reg, KERN_SPACE, ARENA_SPACE)
}

/// The instruction of [`cast_user`]: from the kernel view to the arena.
pub fn cast_user_insn(reg: u8) -> (r: Option<[u8; 8]>)
    ensures
        r is Some <==> reg <= 9,
        r matches Some(b) ==> encodes_cast(
            b@,
            reg as int,
            ARENA_SPACE as int,
            KERN_SPACE as int,
        ),
{
    addr_space_cast(reg, ARENA_SPACE, KERN_SPACE)
}

/// Off BPF each cast undoes the other.
pub proof fn law_casts_are_inverse(addr: u64)
    ensures
        user_view(kern_view(addr)) == addr,
        kern_view(user_view(addr)) == addr,
{
}

/// An instruction says which register it casts, and between which spaces.
pub proof fn law_cast_encoding_is_unique(
    b: Seq<u8>,
    reg1: int,
    dst1: u16,
    src1: u16,
    reg2: int,
    dst2: u16,
    src2: u16,
)
    requires
        encodes_cast(b, reg1, dst1 as int, src1 as int),
        encodes_cast(b, reg2, dst2 as int, src2 as int),
    ensures
        reg1 == reg2,
        dst1 == dst2,
        src1 == src2,
{
    lemma_immediate(dst1, src1);
    lemma_immediate(dst2, src2);
}

/// Off BPF both casts leave an address as it is.
pub proof fn law_casts_are_the_identity(addr: u64)
    ensures
        kern_view(addr) == addr,
        user_view(addr) == addr,
{
}

/// An instruction of a cast is a move of a 64-bit register to itself, with the offset 1, and an
/// immediate whose two bytes of lower weight are the space it casts from, and whose two of higher
/// weight the space it casts to.
pub proof fn law_cast_encoding(b: Seq<u8>, reg: int, dst_as: u16, src_as: u16)
    requires
        encodes_cast(b, reg, dst_as as int, src_as as int),
    ensures
        b.len() == 8,
        b[0] == 0xBF,
        b[1] == 17 * reg,
        b[2] + 256 * b[3] == 1,
        b[4] + 256 * b[5] == src_as,
        b[6] + 256 * b[7] == dst_as,
{
    lemma_immediate(dst_as, src_as);
}

/// The kernel view is address space 0, the arena address space 1.
pub proof fn law_address_spaces()
    ensures
        KERN_SPACE == 0,
        ARENA_SPACE == 1,
{
}

} // verus!
