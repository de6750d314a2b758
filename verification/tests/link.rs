use libarena_rs::linker::args::{
    expand, parse, parse_args, response_file, ArgError, Opts, Source,
};
use libarena_rs::linker::command::{verdict, Cmd, Verdict};
use libarena_rs::linker::env::{envv, settle_trap_mode, Env};
use libarena_rs::linker::pipeline::{Action, Event, Phase, Step, Turn};
use libarena_rs::linker::stages::Session;
use libarena_rs::linker::symbols::{
    arena_syms, arena_syms_in, extract, is_archive, is_bitcode, read_lines, Member,
};
use libarena_rs::linker::tools::Tools;
use libarena_rs::path::PathBuf;

fn strings(v: &[&str]) -> Vec<String> {
    v.iter().map(|s| s.to_string()).collect()
}

fn path(s: &str) -> PathBuf {
    PathBuf::from_text(s)
}

fn text(b: &[u8]) -> String {
    String::from_utf8(b.to_vec()).unwrap()
}

fn words(c: &Cmd) -> Vec<String> {
    let mut v = vec![text(&c.program)];
    for a in &c.args {
        v.push(text(a));
    }
    v
}

fn env() -> Env {
    Env {
        llvm_prefix: None,
        python: None,
        trap_mode: None,
        trap_cookie: None,
        void_globals: None,
        keep_extra: None,
        pre_passes: None,
        post_passes: None,
        keep_temps: None,
        verbose: None,
        vmlinux_h: None,
    }
}

fn opts(args: &[&str]) -> Opts {
    parse(&strings(args)).outcome.unwrap()
}

fn session(args: &[&str], env: Env) -> Session {
    let tools = Tools::with_bindir(&env, Some("/llvm/bin\n".to_string()));
    Session { opts: opts(args), tools, env }
}

fn bitcode() -> Option<Vec<u8>> {
    Some(b"BC\xC0\xDErest".to_vec())
}

fn archive() -> Option<Vec<u8>> {
    Some(b"!<arch>\nrest".to_vec())
}

fn member(p: &str, contents: Option<Vec<u8>>) -> Member {
    Member { path: path(p), contents }
}

fn commands(t: &Turn) -> Vec<Vec<String>> {
    let mut v = vec![];
    if let Action::Perform(steps) = &t.action {
        for s in steps {
            if let Step::Run(c) = s {
                v.push(words(c));
            }
        }
    }
    v
}

fn written(t: &Turn, to: &str) -> Option<String> {
    if let Action::Perform(steps) = &t.action {
        for s in steps {
            if let Step::Write { path, text } = s {
                if path.bytes == to.as_bytes() {
                    return Some(text.clone());
                }
            }
        }
    }
    None
}

/// Takes a link of one bitcode input up to the list of libarena's functions.
fn up_to_symbols(s: &Session) -> Turn {
    let t = s.next(s.start().phase, Event::Output(vec![]));
    let t = s.next(t.phase, Event::Contents(bitcode()));
    let t = s.next(t.phase, Event::Exists(true));
    s.next(t.phase, Event::Members(vec![member("o.arena-linker/arena_c/buddy.bc", bitcode())]))
}

#[test]
fn rustc_command_line_is_read() {
    let p = parse(&strings(&[
        "a.o", "b.rlib", "-L", "/d1", "-L/d2", "-l", "c", "-lfoo", "--export-symbols", "syms", "--cpu", "v3",
        "--cpu-features", "+alu32", "-O3", "--debug", "-o", "out.o",
    ]));
    assert_eq!(p.ignored, strings(&[]));
    let o = p.outcome.unwrap();
    assert_eq!(o.inputs, vec![path("a.o"), path("b.rlib")]);
    assert_eq!(o.lib_dirs, vec![path("/d1"), path("/d2")]);
    assert_eq!(o.export_symbols, Some(path("syms")));
    assert_eq!(o.output, path("out.o"));
    assert_eq!(o.cpu, "v3");
}

#[test]
fn cpu_defaults_to_v4_and_may_be_joined() {
    assert_eq!(opts(&["-o", "x"]).cpu, "v4");
    assert_eq!(opts(&["--cpu=v2", "-o", "x"]).cpu, "v2");
    assert_eq!(opts(&["--cpu=v2", "-o", "x"]), opts(&["--cpu", "v2", "-o", "x"]));
    assert_eq!(opts(&["-L/d", "-o", "x"]), opts(&["-L", "/d", "-o", "x"]));
}

#[test]
fn every_optimization_level_is_passed_over() {
    for flag in ["--debug", "-O0", "-O1", "-O2", "-O3", "-Os", "-Oz"] {
        let p = parse(&strings(&[flag, "-o", "x"]));
        assert_eq!(p.ignored, strings(&[]));
        assert_eq!(p.outcome, Ok(opts(&["-o", "x"])));
    }
}

#[test]
fn unknown_flags_are_told_and_change_nothing() {
    let p = parse(&strings(&["--gc-sections", "a.o", "-O4", "-o", "x", "-"]));
    assert_eq!(p.ignored, strings(&["--gc-sections", "-O4", "-"]));
    assert_eq!(p.outcome, Ok(opts(&["a.o", "-o", "x"])));
}

#[test]
fn last_output_counts() {
    assert_eq!(opts(&["-o", "x", "a.o", "-o", "y"]).output, path("y"));
}

#[test]
fn reading_goes_on_where_it_stopped() {
    let whole = opts(&["a.o", "-L", "/d", "b.o", "-o", "x"]);
    assert_eq!(whole.inputs, vec![path("a.o"), path("b.o")]);
    assert_eq!(whole.lib_dirs, vec![path("/d")]);
}

#[test]
fn missing_values_are_refused() {
    for flag in ["-o", "-L", "-l", "--cpu", "--cpu-features", "--export-symbols"] {
        let p = parse(&strings(&["--what", "-o", "x", flag]));
        assert_eq!(p.outcome, Err(ArgError::MissingValue));
        assert_eq!(p.ignored, strings(&["--what"]));
    }
    assert_eq!(ArgError::MissingValue.message(), "missing argument value");
}

#[test]
fn output_is_required() {
    assert_eq!(parse(&strings(&["a.o"])).outcome, Err(ArgError::NoOutput));
    assert_eq!(parse(&strings(&["a.o", "-o", ""])).outcome, Err(ArgError::NoOutput));
    assert_eq!(ArgError::NoOutput.message(), "no -o output");
}

#[test]
fn a_value_may_look_like_a_flag() {
    let o = opts(&["-o", "-L", "-L", "-o"]);
    assert_eq!(o.output, path("-L"));
    assert_eq!(o.lib_dirs, vec![path("-o")]);
}

#[test]
fn response_files_are_expanded_once() {
    assert_eq!(response_file("@args.txt"), Some(path("args.txt")));
    assert_eq!(response_file("args.txt"), None);
    assert_eq!(response_file("@"), Some(path("")));
    let v = vec![
        Source::Plain("a b.o".to_string()),
        Source::Response("-o  x\n@more\n".to_string()),
        Source::Plain("c.o".to_string()),
    ];
    assert_eq!(expand(&v), strings(&["a b.o", "-o", "x", "@more", "c.o"]));
    let o = parse_args(&v).outcome.unwrap();
    assert_eq!(o.inputs, vec![path("a b.o"), path("@more"), path("c.o")]);
    assert_eq!(o.output, path("x"));
}

#[test]
fn empty_variables_count_as_unset() {
    assert_eq!(envv(Some(String::new())), None);
    assert_eq!(envv(None), None);
    assert_eq!(envv(Some("x".to_string())), Some("x".to_string()));
    let e = Env { verbose: Some(String::new()), python: Some(String::new()), ..env() };
    assert!(!e.verbose());
    assert_eq!(e.python(), "python3");
}

#[test]
fn knobs_have_their_defaults() {
    let e = env();
    assert!(!e.verbose());
    assert!(!e.keep_temps());
    assert!(e.internalize_void());
    assert_eq!(e.trap_cookie(), "0xC0DED");
    assert_eq!(e.trap_mode(), "auto");
    assert_eq!(e.keep_extra(), strings(&[]));
    assert_eq!(e.pre_passes(), vec![]);
    assert_eq!(e.post_passes(), vec![]);
    assert_eq!(e.llvm_prefix(), None);
}

#[test]
fn knobs_are_heeded() {
    let e = Env {
        keep_temps: Some("1".to_string()),
        void_globals: Some("keep".to_string()),
        keep_extra: Some(" a  b ".to_string()),
        post_passes: Some("p.py:::q.py".to_string()),
        vmlinux_h: Some("/k/vmlinux.h".to_string()),
        ..env()
    };
    assert!(e.keep_temps());
    assert!(!e.internalize_void());
    assert_eq!(e.keep_extra(), strings(&["a", "b"]));
    assert_eq!(e.post_passes(), vec![path("p.py"), path("q.py")]);
    assert_eq!(e.trap_mode(), "throw");
    assert_eq!(Env { trap_mode: Some("ret".to_string()), ..e }.trap_mode(), "ret");
}

#[test]
fn trap_mode_is_settled_by_the_kernel() {
    let auto = || "auto".to_string();
    assert_eq!(settle_trap_mode(auto(), true, true), "throw");
    assert_eq!(settle_trap_mode(auto(), true, false), "ret");
    assert_eq!(settle_trap_mode(auto(), false, false), "throw");
    assert_eq!(settle_trap_mode("ret".to_string(), false, true), "ret");
    assert_eq!(settle_trap_mode("odd".to_string(), true, false), "odd");
}

#[test]
fn tools_are_found() {
    let e = Env { llvm_prefix: Some("/opt/llvm".to_string()), python: Some("py".to_string()), ..env() };
    assert!(!Tools::asks_llvm_config(&e));
    let t = Tools::find(&e, None);
    assert_eq!(words(&t.tool("opt")), ["/opt/llvm/bin/opt"]);
    assert_eq!(words(&t.pass(&path("s.py"))), ["py", "s.py"]);
    assert!(Tools::asks_llvm_config(&env()));
    let t = Tools::find(&env(), Some(b"/usr/lib/llvm-22/bin\n".to_vec()));
    assert_eq!(words(&t.tool("llc")), ["/usr/lib/llvm-22/bin/llc"]);
    let t = Tools::find(&env(), Some(b"/a\xFF/bin\n".to_vec()));
    assert_eq!(words(&t.tool("llc")), ["/a\u{FFFD}/bin/llc"]);
    let t = Tools::find(&env(), None);
    assert_eq!(words(&t.tool("llc")), ["llc"]);
    let c = t.unpack(&path("/abs/x.rlib"), &path("tmp/rlib0"));
    assert_eq!(words(&c), ["llvm-ar", "x", "/abs/x.rlib"]);
    assert_eq!(c.dir, Some(path("tmp/rlib0")));
}

#[test]
fn ended_commands_are_judged() {
    let err = b"oops".to_vec();
    assert_eq!(verdict(false, true, &err), Verdict { show_stderr: false, fail: false });
    assert_eq!(verdict(true, true, &err), Verdict { show_stderr: true, fail: false });
    assert_eq!(verdict(true, true, &vec![]), Verdict { show_stderr: false, fail: false });
    assert_eq!(verdict(false, false, &vec![]), Verdict { show_stderr: true, fail: true });
}

#[test]
fn files_are_told_by_their_magic() {
    assert!(is_bitcode(&bitcode()));
    assert!(!is_bitcode(&archive()));
    assert!(!is_bitcode(&Some(b"BC\xC0".to_vec())));
    assert!(!is_bitcode(&None));
    assert!(is_archive(&archive()));
    assert!(!is_archive(&bitcode()));
    assert!(!is_archive(&Some(b"!<arch>".to_vec())));
    assert!(!is_archive(&None));
}

#[test]
fn bitcode_members_come_in_order() {
    let v = vec![
        member("d/z.o", bitcode()),
        member("d/lib.rmeta", Some(b"rust".to_vec())),
        member("d/a.o", bitcode()),
        member("d/gone", None),
    ];
    assert_eq!(extract(&v), vec![path("d/a.o"), path("d/z.o")]);
    assert_eq!(extract(&vec![]), vec![]);
}

#[test]
fn name_lists_are_read() {
    assert_eq!(read_lines(&Some("a\nb c\n".to_string())), strings(&["a", "b", "c"]));
    assert_eq!(read_lines(&None), strings(&[]));
}

#[test]
fn arena_functions_are_listed() {
    let nm = "\nbuddy.bc:\n---------------- T arena_malloc\n---------------- t helper\n---------------- D data\n\
              ---------------- W weak\n---------------- w odd\n---------------- T memset\n\
              ---------------- T bpf_arena_memcpy\n---------------- T bpf_arena_memcmp\n\
              ---------------- T bpf_arena_memset\n---------------- T arena_malloc extra\r\nT two\n\
              ---------------- Tt both\n---------------- TW neither\n";
    let expected = strings(&["arena_malloc", "both", "helper", "odd", "weak"]);
    assert_eq!(arena_syms_in(nm), expected);
    assert_eq!(arena_syms(nm.as_bytes()), expected);
    assert_eq!(arena_syms(b"0 T a\xFF\n"), strings(&["a\u{FFFD}"]));
    assert_eq!(arena_syms(b""), strings(&[]));
}

#[test]
fn symbol_lists_are_read_back_from_their_files() {
    let syms = arena_syms_in("0 T z\n0 T b\n");
    let s = session(&["a.o", "-L", "/d", "-o", "o"], env());
    let t = s.on_keep(&syms, " main\tb ");
    let noinline = written(&t, "o.arena-linker/noinline.txt");
    assert_eq!(read_lines(&noinline), strings(&["b", "main", "z"]));
    let keep = written(&t, "o.arena-linker/keep.txt");
    assert_eq!(read_lines(&keep), strings(&["main", "b"]));
}

#[test]
fn link_starts_with_a_fresh_directory() {
    let s = session(&["a.o", "-o", "/t/o"], env());
    let t = s.start();
    assert_eq!(t.skipped, None);
    let Action::Perform(steps) = t.action else { panic!() };
    assert_eq!(steps[0], Step::Clear(path("/t/o.arena-linker")));
    assert_eq!(steps[1], Step::MakeTemp(path("/t/o.arena-linker")));
    assert_eq!(steps[2], Step::MakeDir(path("/t/o.arena-linker/scripts")));
    let names = [
        "lower_mem.py",
        "force_inline.py",
        "keep_syms.py",
        "trap_to_ret.py",
        "bpf_finalize.py",
        "btf_rename.py",
    ];
    assert_eq!(steps.len(), 9);
    for (i, name) in names.iter().enumerate() {
        let to = format!("/t/o.arena-linker/scripts/{name}");
        assert_eq!(steps[3 + i], Step::Install { name: name.to_string(), path: path(&to) });
    }
}

#[test]
fn inputs_are_gathered_in_order() {
    let loud = Env { verbose: Some("1".to_string()), ..env() };
    let s = session(&["a.o", "x.txt", "b.rlib", "-L", "/d1", "-L", "/d2", "-o", "o"], loud);
    let t = s.next(s.start().phase, Event::Output(vec![]));
    assert_eq!(t.action, Action::Read(path("a.o")));
    let t = s.next(t.phase, Event::Contents(bitcode()));
    assert_eq!(t.action, Action::Read(path("x.txt")));
    let t = s.next(t.phase, Event::Contents(Some(b"text".to_vec())));
    assert_eq!(t.skipped, Some(path("x.txt")));
    assert_eq!(t.action, Action::Read(path("b.rlib")));
    let t = s.next(t.phase, Event::Contents(archive()));
    assert_eq!(
        t.action,
        Action::Unpack { archive: path("b.rlib"), dir: path("o.arena-linker/rlib2") }
    );
    let t = s.next(t.phase, Event::Members(vec![member("r/2.o", bitcode()), member("r/1.o", bitcode())]));
    assert_eq!(t.action, Action::Exists(path("/d1/libarena_c.a")));
    let t = s.next(t.phase, Event::Exists(false));
    assert_eq!(t.action, Action::Exists(path("/d2/libarena_c.a")));
    let t = s.next(t.phase, Event::Exists(true));
    assert_eq!(
        t.action,
        Action::Unpack { archive: path("/d2/libarena_c.a"), dir: path("o.arena-linker/arena_c") }
    );
    let t = s.next(t.phase, Event::Members(vec![member("c/buddy.bc", bitcode())]));
    assert_eq!(commands(&t), [["/llvm/bin/llvm-nm", "--defined-only", "c/buddy.bc"]]);
    let t = s.next(t.phase, Event::Output(b"0 T f\n".to_vec()));
    assert_eq!(
        commands(&t),
        [
            vec!["/llvm/bin/llvm-link", "a.o", "r/1.o", "r/2.o", "c/buddy.bc", "-o", "o.arena-linker/linked.bc"],
            vec!["/llvm/bin/llvm-dis", "o.arena-linker/linked.bc", "-o", "o.arena-linker/stage0.ll"],
        ]
    );
    assert_eq!(written(&t, "o.arena-linker/arena_syms.txt"), Some("f\n".to_string()));
}

#[test]
fn quiet_links_do_not_tell_what_they_skip() {
    let s = session(&["x.txt", "-L", "/d", "-o", "o"], env());
    let t = s.next(s.start().phase, Event::Output(vec![]));
    let t = s.next(t.phase, Event::Contents(None));
    assert_eq!(t.skipped, None);
    assert_eq!(t.action, Action::Exists(path("/d/libarena_c.a")));
}

#[test]
fn missing_archive_ends_the_link() {
    let s = session(&["a.o", "-L", "/d", "-o", "o"], env());
    let t = s.next(s.start().phase, Event::Output(vec![]));
    let t = s.next(t.phase, Event::Contents(bitcode()));
    let t = s.next(t.phase, Event::Exists(false));
    assert_eq!(t.phase, Phase::Over);
    assert_eq!(
        t.action,
        Action::Die(
            "libarena_c.a not found in any -L directory: is libarena-rs a dependency (its build.rs produces it)?"
                .to_string()
        )
    );
}

#[test]
fn nothing_is_linked_without_bitcode() {
    let die = Action::Die("no bitcode inputs".to_string());
    let s = session(&["-L", "/d", "-o", "o"], env());
    let t = s.next(s.start().phase, Event::Output(vec![]));
    let t = s.next(t.phase, Event::Exists(true));
    let t = s.next(t.phase, Event::Members(vec![member("c/buddy.bc", bitcode())]));
    assert_eq!(t.action, die);
    let s = session(&["a.o", "-L", "/d", "-o", "o"], env());
    let t = s.next(s.start().phase, Event::Output(vec![]));
    let t = s.next(t.phase, Event::Contents(bitcode()));
    let t = s.next(t.phase, Event::Exists(true));
    let t = s.next(t.phase, Event::Members(vec![member("c/readme", Some(vec![]))]));
    assert_eq!(t.action, die);
}

#[test]
fn whole_link_goes_through_its_stages() {
    let e = Env {
        keep_extra: Some("more".to_string()),
        pre_passes: Some("pre1.py:pre2.py".to_string()),
        post_passes: Some("post.py".to_string()),
        ..env()
    };
    let s = session(&["a.o", "-L", "/d", "--export-symbols", "exp", "--cpu", "v3", "-o", "o"], e);
    let t = up_to_symbols(&s);
    let t = s.next(t.phase, Event::Output(b"0 T z\n0 t b\n".to_vec()));
    let t = s.next(t.phase, Event::Output(vec![]));
    assert_eq!(t.action, Action::ReadText(path("exp")));
    let t = s.next(t.phase, Event::Text(Some("main\n".to_string())));
    assert_eq!(
        commands(&t),
        [[
            "python3",
            "o.arena-linker/scripts/keep_syms.py",
            "o.arena-linker/stage0.ll",
            "--nm-list",
            "o.arena-linker/arena_syms.txt",
            "--extra",
            "main",
            "more",
            "--drop-void-globals",
        ]]
    );
    let t = s.next(t.phase, Event::Output(b"main\nc\nb\n".to_vec()));
    assert_eq!(written(&t, "o.arena-linker/keep.txt"), Some("main\nc\nb\n".to_string()));
    assert_eq!(written(&t, "o.arena-linker/noinline.txt"), Some("b\nc\nmain\nz\n".to_string()));
    let ll = "o.arena-linker/stage0.ll";
    assert_eq!(
        commands(&t),
        [
            vec!["python3", "o.arena-linker/scripts/lower_mem.py", ll, ll],
            vec!["python3", "pre1.py", ll, ll],
            vec!["python3", "pre2.py", ll, ll],
            vec![
                "/llvm/bin/opt",
                "--internalize-public-api-list=main",
                "--internalize-public-api-list=c",
                "--internalize-public-api-list=b",
                "--force-remove-attribute=cold",
                "-passes=forceattrs,internalize,globaldce",
                ll,
                "-o",
                "o.arena-linker/stage1.bc",
            ],
            vec!["/llvm/bin/llvm-dis", "o.arena-linker/stage1.bc", "-o", "o.arena-linker/stage1.ll"],
            vec![
                "python3",
                "o.arena-linker/scripts/force_inline.py",
                "o.arena-linker/stage1.ll",
                "o.arena-linker/stage2.ll",
                "o.arena-linker/noinline.txt",
            ],
        ]
    );
    let t = s.next(t.phase, Event::Output(b"-force-attribute=x  -y\n".to_vec()));
    let ll = "o.arena-linker/stage3.ll";
    assert_eq!(
        commands(&t),
        [
            vec![
                "/llvm/bin/opt",
                "-force-attribute=x",
                "-y",
                "-passes=forceattrs,always-inline,globaldce,default<O2>",
                "o.arena-linker/stage2.ll",
                "-o",
                "o.arena-linker/stage3.bc",
            ],
            vec!["/llvm/bin/llvm-dis", "o.arena-linker/stage3.bc", "-o", ll],
            vec!["python3", "post.py", ll, ll],
        ]
    );
    let t = s.next(t.phase, Event::Output(vec![]));
    assert_eq!(t.action, Action::Probe);
    let t = s.next(t.phase, Event::Kernel { has_config: true, orc: false });
    assert_eq!(
        commands(&t),
        [
            vec!["python3", "o.arena-linker/scripts/trap_to_ret.py", ll, ll, "0xC0DED"],
            vec!["python3", "o.arena-linker/scripts/bpf_finalize.py", ll, "o.arena-linker/final.ll"],
            vec![
                "/llvm/bin/llc",
                "-march=bpfel",
                "-mcpu=v3",
                "-filetype=obj",
                "o.arena-linker/final.ll",
                "-o",
                "o.arena-linker/out.o",
            ],
            vec![
                "/llvm/bin/llvm-objcopy",
                "--remove-section=.eh_frame",
                "--remove-section=.rel.eh_frame",
                "--remove-section=.gcc_except_table",
                "--strip-symbol=rust_eh_personality",
                "o.arena-linker/out.o",
                "o",
            ],
            vec!["python3", "o.arena-linker/scripts/btf_rename.py", "o"],
        ]
    );
    let t = s.next(t.phase, Event::Output(vec![]));
    assert_eq!(t.phase, Phase::Over);
    assert_eq!(t.action, Action::Done(Some(path("o.arena-linker"))));
}

#[test]
fn thrown_traps_carry_the_cookie() {
    let e = Env {
        trap_mode: Some("throw".to_string()),
        trap_cookie: Some("7".to_string()),
        void_globals: Some("keep".to_string()),
        keep_temps: Some("1".to_string()),
        ..env()
    };
    let s = session(&["a.o", "-L", "/d", "-o", "o"], e);
    let t = up_to_symbols(&s);
    let t = s.next(t.phase, Event::Output(vec![]));
    assert_eq!(written(&t, "o.arena-linker/arena_syms.txt"), Some("\n".to_string()));
    let t = s.next(t.phase, Event::Output(vec![]));
    assert_eq!(
        commands(&t),
        [[
            "python3",
            "o.arena-linker/scripts/keep_syms.py",
            "o.arena-linker/stage0.ll",
            "--nm-list",
            "o.arena-linker/arena_syms.txt",
        ]]
    );
    let t = s.next(t.phase, Event::Output(b"main\xFF".to_vec()));
    assert_eq!(written(&t, "o.arena-linker/keep.txt"), Some("main\u{FFFD}\n".to_string()));
    let t = s.next(t.phase, Event::Output(vec![]));
    let t = s.next(t.phase, Event::Output(vec![]));
    let c = commands(&t);
    assert_eq!(c.len(), 4);
    assert_eq!(
        c[0],
        [
            "python3",
            "o.arena-linker/scripts/bpf_finalize.py",
            "o.arena-linker/stage3.ll",
            "o.arena-linker/final.ll",
            "--trap-cookie=7",
        ]
    );
    let t = s.next(t.phase, Event::Output(vec![]));
    assert_eq!(t.action, Action::Done(None));
}

#[test]
fn unknown_trap_modes_leave_traps_alone() {
    let e = Env { trap_mode: Some("odd".to_string()), ..env() };
    let s = session(&["a.o", "-L", "/d", "-o", "o"], e);
    let t = s.on_force("");
    let t = s.next(t.phase, Event::Output(vec![]));
    let c = commands(&t);
    assert_eq!(c.len(), 4);
    assert_eq!(c[0].len(), 4);
}

#[test]
fn stages_can_be_taken_with_their_texts() {
    let s = session(&["a.o", "-L", "/d", "-o", "o"], env());
    let t = s.on_symbols(&vec![path("a.o")], &vec![path("c.bc")], "0 T g\n0 T g\n");
    assert_eq!(t.phase, Phase::Linked { syms: strings(&["g"]) });
    let t = s.on_keep(&strings(&["g"]), "");
    assert_eq!(written(&t, "o.arena-linker/keep.txt"), Some("\n".to_string()));
    assert_eq!(written(&t, "o.arena-linker/noinline.txt"), Some("g\n".to_string()));
    assert_eq!(t.phase, Phase::Force);
    assert_eq!(s.on_force("").phase, Phase::Optimized);
}

#[test]
fn the_build_puts_the_archive_where_the_linker_looks() {
    let s = session(&["a.o", "-L", "/out", "-o", "o"], env());
    let t = s.next(s.start().phase, Event::Output(vec![]));
    let t = s.next(t.phase, Event::Contents(bitcode()));
    assert_eq!(t.action, Action::Exists(path("/out").join_text("libarena_c.a")));
}
