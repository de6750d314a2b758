# libarena-rs

Rust `alloc` collections inside BPF programs, backed by a BPF arena through libarena's buddy
allocator. The decisions of the project are a library in Verus, `src/`, with contracts that are
proved; what touches the outside world is ordinary Rust around it, `app/`.

    src/arena_alloc.rs  how many bytes a layout asks of the buddy allocator
    src/raw.rs          the allocator's blocks, and the two forms of their addresses
    src/cast.rs         address-space casts and the encoding of the cast instruction
    src/layout.rs       sizes and alignments that a block can have
    src/power.rs        powers of two
    src/build/          libarena's sources for other builds; compiling them to BPF bitcode
    src/linker/         arena-linker: command line, knobs, stages and the course of a link
    src/path.rs         paths as byte strings
    src/text.rs         words, lines, prefixes
    src/order.rs        sorted lists
    app/                the linker's `main`, the global allocator, the build script
    tests/              the library from outside

What holds of the library as a whole stands in `src/` as proof functions whose names begin with
`law_`: among them that a buddy block as large as the request satisfies the layout, and so does the
hosted stand-in; that every link ends; and that a link which ends with an object has gone through
its stages in their order, on the course that its answers gave it. The casts of the library are
those of targets other than BPF, where the two views of an address are the same; of these targets
it is proved that what is freed is what was handed out. On BPF the program executes the cast
instruction (`app/cast.rs`), of which the library proves the encoding.

The linker installs its IR passes (`lower_mem.py`, `force_inline.py`, `keep_syms.py`,
`trap_to_ret.py`, `bpf_finalize.py`, `btf_rename.py`) from a directory `scripts` beside the program.

What std does and vstd gives no specification of is stated in `src/text.rs`
(`String::push`, `String::from_utf8_lossy`) and `src/build/compile.rs` (`Path::parent`).
