use libarena_rs::arena_alloc::ArenaAlloc;
use libarena_rs::cast::{
    addr_space_cast, cast_kern, cast_kern_insn, cast_kern_ptr, cast_user, cast_user_insn,
    cast_user_ptr, Ptr,
};
use libarena_rs::layout::{Layout, LayoutError};
use libarena_rs::power::{is_power_of_two, next_power_of_two};
use libarena_rs::raw::{arena_free, arena_malloc, hosted_block, Block, MAX_BLOCK};

#[test]
fn request_size_covers_alignment() {
    let l = Layout::from_size_align(24, 64).unwrap();
    assert_eq!(ArenaAlloc::request_size(l), 64);
    let l = Layout::from_size_align(100, 8).unwrap();
    assert_eq!(ArenaAlloc::request_size(l), 100);
    let l = Layout::from_size_align(0, 1).unwrap();
    assert_eq!(ArenaAlloc::request_size(l), 1);
}

#[test]
fn casts_are_identity_on_host() {
    assert_eq!(cast_kern(0x1234), 0x1234);
    assert_eq!(cast_user(0x1234), 0x1234);
}

#[test]
fn typed_casts_keep_the_address() {
    let p: Ptr<u32> = Ptr::new(0x1000);
    let p = cast_kern_ptr(p);
    assert_eq!(p.addr, 0x1000);
    let p = cast_user_ptr(p);
    assert_eq!(p.addr, 0x1000);
    assert!(!p.is_null());
    assert!(cast_kern_ptr(Ptr::<u8>::new(0)).is_null());
}

#[test]
fn cast_instructions_are_encoded() {
    assert_eq!(cast_kern_insn(0), Some([0xBF, 0x00, 1, 0, 1, 0, 0, 0]));
    assert_eq!(cast_kern_insn(9), Some([0xBF, 0x99, 1, 0, 1, 0, 0, 0]));
    assert_eq!(cast_user_insn(3), Some([0xBF, 0x33, 1, 0, 0, 0, 1, 0]));
    assert_eq!(
        addr_space_cast(5, 0x0203, 0x0405),
        Some([0xBF, 0x55, 1, 0, 0x05, 0x04, 0x03, 0x02])
    );
    assert_eq!(cast_kern_insn(10), None);
    assert_eq!(cast_user_insn(10), None);
}

#[test]
fn cast_instructions_tell_registers_and_spaces_apart() {
    let mut seen: Vec<[u8; 8]> = vec![];
    for reg in 0..10u8 {
        for (dst, src) in [(0u16, 1u16), (1, 0), (256, 1), (1, 256)] {
            let b = addr_space_cast(reg, dst, src).unwrap();
            assert!(!seen.contains(&b));
            seen.push(b);
        }
    }
}

#[test]
fn layouts_that_no_block_can_have_are_refused() {
    assert_eq!(Layout::from_size_align(8, 0), Err(LayoutError));
    assert_eq!(Layout::from_size_align(8, 3), Err(LayoutError));
    assert_eq!(Layout::from_size_align(isize::MAX as usize, 2), Err(LayoutError));
    assert_eq!(Layout::from_size_align(usize::MAX, 1), Err(LayoutError));
    let l = Layout::from_size_align(isize::MAX as usize, 1).unwrap();
    assert_eq!(l.size(), isize::MAX as usize);
    assert_eq!(l.align(), 1);
    let l = Layout::from_size_align(0, isize::MAX as usize + 1).unwrap();
    assert_eq!(ArenaAlloc::request_size(l), isize::MAX as usize + 1);
}

#[test]
fn powers_of_two() {
    assert_eq!(next_power_of_two(0), Some(1));
    assert_eq!(next_power_of_two(1), Some(1));
    assert_eq!(next_power_of_two(17), Some(32));
    assert_eq!(next_power_of_two(usize::MAX / 2 + 1), Some(usize::MAX / 2 + 1));
    assert_eq!(next_power_of_two(usize::MAX / 2 + 2), None);
    assert!(is_power_of_two(4096));
    assert!(!is_power_of_two(0));
    assert!(!is_power_of_two(4095));
}

#[test]
fn hosted_blocks_mimic_buddy_blocks() {
    assert_eq!(hosted_block(0), Block { size: 16, align: 16 });
    assert_eq!(hosted_block(16), Block { size: 16, align: 16 });
    assert_eq!(hosted_block(100), Block { size: 128, align: 128 });
    assert_eq!(hosted_block(4096), Block { size: 4096, align: 4096 });
    assert_eq!(hosted_block(5000), Block { size: 8192, align: 8192 });
}

#[test]
fn block_and_address_of_a_layout() {
    let l = Layout::from_size_align(100, 64).unwrap();
    let b = hosted_block(ArenaAlloc::request_size(l));
    assert_eq!(b, Block { size: 128, align: 128 });
    let mut memory: Vec<u8> = vec![0; 4 * b.size];
    let ua: u64 = 2 * b.align as u64;
    let p = arena_malloc(ua);
    assert!(!p.is_null());
    assert_eq!(p.addr % 64, 0);
    for i in 0..100 {
        memory[p.addr + i] = 0xAB;
    }
    assert_eq!(memory[p.addr + 99], 0xAB);
    assert_eq!(arena_free(p), ua);
}

#[test]
fn hosted_block_covers_every_layout() {
    for shift in 0..25 {
        let align: usize = 1 << shift;
        for size in [0, 1, 15, 16, 17, 4095, 4096, 70000, 1 << 24] {
            let l = Layout::from_size_align(size, align).unwrap();
            let b = hosted_block(ArenaAlloc::request_size(l));
            assert!(b.size >= size);
            assert_eq!(b.align % align, 0);
        }
    }
}

#[test]
fn buddy_blocks_end_at_half_a_mebibyte() {
    let l = Layout::from_size_align(524289, 8).unwrap();
    assert!(ArenaAlloc::request_size(l) > MAX_BLOCK);
    let l = Layout::from_size_align(524288, 8).unwrap();
    assert_eq!(ArenaAlloc::request_size(l), MAX_BLOCK);
}

#[test]
fn casts_undo_each_other() {
    for a in [0u64, 1, 0x1000, 0xFFFF_FFFF_0000_0010, u64::MAX] {
        assert_eq!(cast_user(cast_kern(a)), a);
        assert_eq!(cast_kern(cast_user(a)), a);
    }
}

#[test]
fn failed_allocation_is_null() {
    assert!(arena_malloc(0).is_null());
    assert_eq!(arena_free(arena_malloc(0)), 0);
}
