//! libarena-rs: Rust collections inside BPF programs, backed by a BPF arena.
//!
//! An arena is memory that a BPF program and userspace share. libarena's buddy allocator hands out
//! blocks of it; this library holds what the Rust side decides on top of that.
//!
//! - [`arena_alloc`], [`raw`], [`cast`], [`layout`] and [`power`]: how many bytes a layout asks of
//!   the buddy allocator, what its blocks guarantee, and how addresses move between the arena and
//!   the kernel view.
//! - [`build`]: libarena's headers and sources for other builds, and the commands that compile
//!   libarena and the glue to BPF bitcode.
//! - [`linker`]: the linker that rustc calls for BPF programs, from its command line to the
//!   commands of each stage.
//! - [`path`], [`text`] and [`order`]: the paths, texts and sorted lists that these work on.
pub mod arena_alloc;
pub mod build;
pub mod cast;
pub mod layout;
pub mod linker;
pub mod order;
pub mod path;
pub mod power;
pub mod raw;
pub mod text;

pub use arena_alloc::ArenaAlloc;
pub use cast::{cast_kern, cast_kern_ptr, cast_user, cast_user_ptr};
pub use raw::{arena_free, arena_malloc};
