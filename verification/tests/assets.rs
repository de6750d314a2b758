use libarena_rs::build::compile::{
    is_for_bpf, some_line_ends_with, CompileJob, Header, Knobs, Setting,
};
use libarena_rs::build::{
    cflags, extract, extract_root, first_task, BpfAssets, Following, Task, TaskEnd,
};
use libarena_rs::linker::command::Cmd;
use libarena_rs::path::PathBuf;

fn path(s: &str) -> PathBuf {
    PathBuf::from_text(s)
}

fn words(c: &Cmd) -> Vec<String> {
    let mut v = vec![String::from_utf8(c.program.clone()).unwrap()];
    for a in &c.args {
        v.push(String::from_utf8(a.clone()).unwrap());
    }
    v
}

fn assets() -> BpfAssets {
    let root = extract_root(&path("/out"));
    match extract(&root, Task::Unpack, TaskEnd::Done) {
        Following::Ready(a) => a,
        other => panic!("{other:?}"),
    }
}

fn knobs() -> Knobs {
    Knobs {
        llvm_prefix: None,
        clang: None,
        vmlinux_h: None,
        vmlinux_btf: None,
        bpftool: None,
        libbpf_include: None,
        stream: None,
        arch_define: None,
        cpu: None,
    }
}

fn job(knobs: Knobs) -> CompileJob {
    CompileJob { knobs, out_dir: path("/out"), root: path("/crate") }
}

fn setting(stream: &str) -> Setting {
    Setting {
        host_arch: "x86_64".to_string(),
        header_dir: "/out".to_string(),
        libbpf_include: "/usr/include".to_string(),
        stream: stream.to_string(),
    }
}

#[test]
fn assets_lie_below_the_output_directory() {
    let a = assets();
    assert_eq!(a.root().bytes, b"/out/libarena-rs");
    assert_eq!(a.include_dir().join_text("libarena/buddy.h").bytes, b"/out/libarena-rs/include/libarena/buddy.h");
    assert_eq!(a.source_dir().bytes, b"/out/libarena-rs/src");
    assert_eq!(a.source(&path("buddy.bpf.c")).bytes, b"/out/libarena-rs/src/buddy.bpf.c");
    assert_eq!(a.source(&path("/abs/x.c")).bytes, b"/abs/x.c");
}

#[test]
fn extraction_takes_its_tasks_in_order() {
    let root = extract_root(&path("/out"));
    assert_eq!(extract(&root, Task::Remove, TaskEnd::Done), Following::Next(Task::Create));
    assert_eq!(extract(&root, Task::Remove, TaskEnd::NotFound), Following::Next(Task::Create));
    assert_eq!(extract(&root, Task::Create, TaskEnd::Done), Following::Next(Task::Unpack));
    assert_eq!(extract(&root, Task::Remove, TaskEnd::Failed), Following::GiveUp);
    assert_eq!(extract(&root, Task::Create, TaskEnd::NotFound), Following::GiveUp);
    assert_eq!(extract(&root, Task::Unpack, TaskEnd::NotFound), Following::GiveUp);
    assert_eq!(extract(&root, Task::Unpack, TaskEnd::Failed), Following::GiveUp);
}

#[test]
fn extraction_starts_afresh() {
    let root = extract_root(&path("/out"));
    let mut task = first_task();
    let mut performed = vec![];
    let ready = loop {
        performed.push(task);
        let end = if task == Task::Remove { TaskEnd::NotFound } else { TaskEnd::Done };
        match extract(&root, task, end) {
            Following::Next(next) => task = next,
            Following::Ready(a) => break a,
            Following::GiveUp => panic!(),
        }
    };
    assert_eq!(performed, [Task::Remove, Task::Create, Task::Unpack]);
    assert_eq!(ready.root(), &root);
}

#[test]
fn sources_need_these_flags() {
    assert_eq!(
        cflags(),
        ["-DENABLE_ATOMICS_TESTS", "-Wno-macro-redefined", "-Wno-missing-declarations"]
    );
}

#[test]
fn only_bpf_builds_compile() {
    assert!(is_for_bpf(&Some("bpf".to_string())));
    assert!(!is_for_bpf(&Some("x86_64".to_string())));
    assert!(!is_for_bpf(&None));
}

#[test]
fn header_is_given_or_made() {
    let given = job(Knobs { vmlinux_h: Some("/k/vmlinux.h".to_string()), ..knobs() });
    assert_eq!(given.header(), Header::Given(path("/k/vmlinux.h")));
    let made = job(Knobs { vmlinux_h: Some(String::new()), bpftool: Some("bt".to_string()), ..knobs() });
    match made.header() {
        Header::Made { path: p, command } => {
            assert_eq!(p.bytes, b"/out/vmlinux.h");
            assert_eq!(
                words(&command),
                ["bt", "btf", "dump", "file", "/sys/kernel/btf/vmlinux", "format", "c"]
            );
        }
        other => panic!("{other:?}"),
    }
}

#[test]
fn header_directory_is_the_parent() {
    let j = job(knobs());
    assert_eq!(j.header_dir(&path("/k/vmlinux.h")), Some("/k".to_string()));
    assert_eq!(j.header_dir(&path("vmlinux.h")), Some(String::new()));
    assert_eq!(j.header_dir(&path("/")), None);
    let broken = PathBuf { bytes: vec![b'a', 0xFF, b'/', b'h'] };
    assert_eq!(j.header_dir(&broken), Some("a\u{FFFD}".to_string()));
}

#[test]
fn libbpf_headers_come_from_the_first_source_that_knows() {
    let set = job(Knobs { libbpf_include: Some("/l".to_string()), ..knobs() });
    assert!(!set.asks_pkg_config());
    assert_eq!(set.libbpf_include(None), "/l");
    let unset = job(knobs());
    assert!(unset.asks_pkg_config());
    assert_eq!(unset.libbpf_include(Some(b"/pc/include\n".to_vec())), "/pc/include");
    assert_eq!(unset.libbpf_include(None), "/usr/include");
    assert_eq!(unset.libbpf_witness("/usr/include").bytes, b"/usr/include/bpf/bpf_helpers.h");
    assert_eq!(unset.libbpf_include_in(Some(" /x ".to_string())), "/x");
}

#[test]
fn stream_function_is_detected_for_the_running_kernel_only() {
    let symbols = Some("0 T a\n0 T bpf_stream_vprintk_impl\n0 T b\n".to_string());
    let j = job(knobs());
    assert!(j.asks_symbols());
    assert_eq!(j.stream(&symbols), "impl");
    assert_eq!(j.stream(&Some("0 T bpf_stream_vprintk_impl2\n".to_string())), "plain");
    assert_eq!(j.stream(&None), "plain");
    let other = job(Knobs { vmlinux_h: Some("/k/vmlinux.h".to_string()), ..knobs() });
    assert!(!other.asks_symbols());
    assert_eq!(other.stream(&symbols), "plain");
    let told = job(Knobs { stream: Some("impl".to_string()), ..knobs() });
    assert!(!told.asks_symbols());
    assert_eq!(told.stream(&None), "impl");
}

#[test]
fn line_ends_are_those_of_lines() {
    for text in ["x y", "x y\n", "x y\r\nz", "x yz", "z\nx y", "", "x\n y", "a x y\rb"] {
        let expected = text.lines().any(|l| l.ends_with(" y"));
        assert_eq!(some_line_ends_with(text, " y"), expected);
    }
}

#[test]
fn sources_are_compiled_for_the_target() {
    let j = job(Knobs { llvm_prefix: Some("/llvm".to_string()), ..knobs() });
    assert_eq!(j.libarena().bytes, b"/crate/vendor/libarena/libarena");
    assert_eq!(j.witness().bytes, b"/crate/vendor/libarena/libarena/src/common.bpf.c");
    let cmds = j.compile_commands(&setting("impl"));
    assert_eq!(cmds.len(), 3);
    assert_eq!(
        words(&cmds[0]),
        [
            "/llvm/bin/clang",
            "--target=bpfel",
            "-mcpu=v4",
            "-O2",
            "-g",
            "-DENABLE_ATOMICS_TESTS",
            "-D__TARGET_ARCH_x86",
            "-Wno-incompatible-pointer-types-discards-qualifiers",
            "-Wno-missing-declarations",
            "-Wno-macro-redefined",
            "-DLIBARENA_RS_STREAM_IMPL",
            "-include",
            "/crate/csrc/kfunc_compat.h",
            "-I/crate/vendor/libarena/libarena/include",
            "-I/out",
            "-I/usr/include",
            "-emit-llvm",
            "-c",
            "/crate/vendor/libarena/libarena/src/common.bpf.c",
            "-o",
            "/out/common.bc",
        ]
    );
    let plain = j.compile_commands(&setting("plain"));
    assert_eq!(plain[1].args.len() + 1, cmds[1].args.len());
    assert!(words(&plain[1]).contains(&"/crate/vendor/libarena/libarena/src/buddy.bpf.c".to_string()));
    assert!(words(&plain[2]).contains(&"/crate/csrc/arena_glue.bpf.c".to_string()));
}

#[test]
fn knobs_of_the_compiler_are_heeded() {
    let j = job(Knobs {
        clang: Some("my-clang".to_string()),
        cpu: Some("v3".to_string()),
        arch_define: None,
        ..knobs()
    });
    let arm = Setting { host_arch: "aarch64".to_string(), ..setting("plain") };
    let w = words(&j.compile_commands(&arm)[0]);
    assert_eq!(w[0], "my-clang");
    assert_eq!(w[2], "-mcpu=v3");
    assert_eq!(w[6], "-D__TARGET_ARCH_arm64");
    let j = job(Knobs { arch_define: Some("-D__TARGET_ARCH_riscv".to_string()), ..knobs() });
    assert_eq!(words(&j.compile_commands(&arm)[0])[6], "-D__TARGET_ARCH_riscv");
}

#[test]
fn archive_holds_what_was_compiled() {
    let j = job(knobs());
    let ar = words(&j.archive_command());
    assert_eq!(
        ar,
        [
            "llvm-ar",
            "rcs",
            "/out/libarena_c.a",
            "/out/common.bc",
            "/out/buddy.bc",
            "/out/arena_glue.bc",
        ]
    );
    assert_eq!(j.archive().bytes, b"/out/libarena_c.a");
    for (i, c) in j.compile_commands(&setting("plain")).iter().enumerate() {
        assert_eq!(words(c).last(), Some(&ar[3 + i]));
    }
}
