//! How libarena's C and the glue become BPF bitcode.
use vstd::prelude::*;

use crate::linker::command::{command, Cmd, CmdSpec};
use crate::linker::env::{envv, value, value_or};
use crate::linker::stages::Session;
use crate::path::{bytes_of, copy_bytes, joined, law_utf8, utf8, PathBuf};
use crate::text::{
    cat, chars_of, from_utf8_lossy, opt_text, same, starts_with, trim, trimmed, utf8_lossy,
};

verus! {

/// The variables that the build reads, each as it is set.
#[derive(Debug, PartialEq, Eq)]
pub struct Knobs {
    /// `LLVM_PREFIX`: where the LLVM tools are installed.
    pub llvm_prefix: Option<String>,
    /// `CLANG`: the compiler.
    pub clang: Option<String>,
    /// `LIBARENA_VMLINUX_H`: the header of the kernel to build for.
    pub vmlinux_h: Option<String>,
    /// `VMLINUX_BTF`: the type information to generate that header from.
    pub vmlinux_btf: Option<String>,
    /// `BPFTOOL`: what generates it.
    pub bpftool: Option<String>,
    /// `LIBBPF_INCLUDE`: where libbpf's headers are.
    pub libbpf_include: Option<String>,
    /// `BPF_STREAM_KFUNC`: which kernel function prints to a stream.
    pub stream: Option<String>,
    /// `BPF_ARCH_DEFINE`: the define of the target's architecture.
    pub arch_define: Option<String>,
    /// `BPF_CPU`: the processor to generate code for.
    pub cpu: Option<String>,
}

/// What `Path::parent` makes of a path, in text: the path without its last component, where it
/// has one.
pub uninterp spec fn parent_of(path: Seq<char>) -> Option<Seq<char>>;

/// `std::path::Path::parent`. Claimed: the result is a function of the path.
#[verifier::external_body]
fn parent(path: &str) -> (r: Option<String>)
    ensures
        opt_text(r) == parent_of(path@),
{
    std::path::Path::new(path).parent().map(|p| p.display().to_string())
}

/// Whether some line of `text` ends with `suffix`, which is not empty and holds neither a line feed
/// nor a carriage return. A line ends before a line feed, with or without a carriage return before
/// it, or where the text does.
pub open spec fn line_ends_with(text: Seq<char>, suffix: Seq<char>) -> bool {
    exists|i: int|
        0 <= i <= text.len() && #[trigger] starts_with(text.skip(i), suffix) && ends_a_line(
            text,
            i + suffix.len(),
        )
}

/// Whether a line of `text` ends at position `i`.
pub open spec fn ends_a_line(text: Seq<char>, i: int) -> bool {
    ||| i == text.len()
    ||| i < text.len() && text[i] == '\n'
    ||| i + 1 < text.len() && text[i] == '\r' && text[i + 1] == '\n'
}

fn matches_at(v: &Vec<char>, i: usize, w: &Vec<char>) -> (r: bool)
    requires
        i <= v.len(),
    ensures
        r == starts_with(v@.skip(i as int), w@),
{
    if v.len() - i < w.len() {
        return false;
    }
    let ghost here = v@.skip(i as int);
    let mut j: usize = 0;
    while j < w.len()
        invariant
            here == v@.skip(i as int),
            i + w.len() <= v.len(),
            j <= w.len(),
            forall|k: int| 0 <= k < j ==> #[trigger] here[k] == w@[k],
        decreases w.len() - j,
    {
        assert(here[j as int] == v@[i + j]);
        if v[i + j] != w[j] {
            assert(here.take(w@.len() as int)[j as int] == here[j as int]);
            return false;
        }
        j = j + 1;
    }
    assert(here.take(w@.len() as int) =~= w@);
    true
}

/// Whether some line of `text` ends with `suffix`.
pub fn some_line_ends_with(text: &str, suffix: &str) -> (r: bool)
    ensures
        r == line_ends_with(text@, suffix@),
{
    let v = chars_of(text);
    let w = chars_of(suffix);
    let mut i: usize = 0;
    loop
        invariant
            v@ == text@,
            w@ == suffix@,
            i <= v.len(),
            forall|k: int|
                0 <= k < i ==> !(#[trigger] starts_with(text@.skip(k), suffix@) && ends_a_line(
                    text@,
                    k + suffix@.len(),
                )),
        decreases v.len() - i,
    {
        if matches_at(&v, i, &w) {
            let e: usize = i + w.len();
            if e == v.len() || v[e] == '\n' || (e + 1 < v.len() && v[e] == '\r' && v[e + 1]
                == '\n') {
                assert(starts_with(text@.skip(i as int), suffix@));
                assert(ends_a_line(text@, i + suffix@.len()));
                return true;
            }
        }
        if i == v.len() {
            return false;
        }
        i = i + 1;
    }
}

/// What a build for BPF works with.
#[derive(Debug, PartialEq, Eq)]
pub struct CompileJob {
    pub knobs: Knobs,
    /// Where the bitcode goes.
    pub out_dir: PathBuf,
    /// The root of the crate.
    pub root: PathBuf,
}

/// The header of the kernel that is built for.
#[derive(Debug, PartialEq, Eq)]
pub enum Header<P, C> {
    /// It is given.
    Given(P),
    /// It is to be made at the path, of what the command prints.
    Made { path: P, command: C },
}

fn get(v: &Option<String>) -> (r: Option<String>)
    ensures
        opt_text(r) == value(opt_text(*v)),
{
    match v {
        Some(s) => envv(Some(s.clone())),
        None => None,
    }
}

fn get_or(v: &Option<String>, default: &str) -> (r: String)
    ensures
        r@ == value_or(*v, default@),
{
    match get(v) {
        Some(s) => s,
        None => default.to_owned(),
    }
}

/// Whether there is anything to do, given what `CARGO_CFG_TARGET_ARCH` says that the crate is built
/// for: only a build for BPF compiles C.
pub fn is_for_bpf(target_arch: &Option<String>) -> (r: bool)
    ensures
        r == (opt_text(*target_arch) == Some("bpf"@)),
{
    match target_arch {
        Some(a) => same(a.as_str(), "bpf"),
        None => false,
    }
}

impl CompileJob {
    /// The root of libarena's sources.
    pub open spec fn libarena_root(self) -> Seq<u8> {
        joined(self.root@, utf8("vendor/libarena/libarena"@))
    }

    /// The root of libarena's sources.
    pub fn libarena(&self) -> (r: PathBuf)
        ensures
            r@ == self.libarena_root(),
    {
        self.root.join_text("vendor/libarena/libarena")
    }

    /// The file that shows that libarena's sources are there.
    pub fn witness(&self) -> (r: PathBuf)
        ensures
            r@ == joined(self.libarena_root(), utf8("src/common.bpf.c"@)),
    {
        self.libarena().join_text("src/common.bpf.c")
    }

    /// The file that shows that libbpf's headers are in `dir`.
    pub fn libbpf_witness(&self, dir: &str) -> (r: PathBuf)
        ensures
            r@ == joined(utf8(dir@), utf8("bpf/bpf_helpers.h"@)),
    {
        PathBuf::from_text(dir).join_text("bpf/bpf_helpers.h")
    }

    /// The program that the LLVM tool `name` is run as.
    pub open spec fn tool(self, name: Seq<char>) -> Seq<u8> {
        match value(opt_text(self.knobs.llvm_prefix)) {
            Some(p) => joined(joined(utf8(p), utf8("bin"@)), utf8(name)),
            None => utf8(name),
        }
    }

    fn tool_program(&self, name: &str) -> (r: Vec<u8>)
        ensures
            r@ == self.tool(name@),
    {
        match get(&self.knobs.llvm_prefix) {
            Some(p) => PathBuf::from_text(p.as_str()).join_text("bin").join_text(name).bytes,
            None => bytes_of(name),
        }
    }

    /// The compiler.
    pub open spec fn clang(self) -> Seq<u8> {
        match value(opt_text(self.knobs.clang)) {
            Some(c) => utf8(c),
            None => self.tool("clang"@),
        }
    }

    fn clang_program(&self) -> (r: Vec<u8>)
        ensures
            r@ == self.clang(),
    {
        match get(&self.knobs.clang) {
            Some(c) => bytes_of(c.as_str()),
            None => self.tool_program("clang"),
        }
    }

    /// The kernel header: the given one, or one made of the kernel's type information.
    pub open spec fn header_spec(self) -> Header<Seq<u8>, CmdSpec> {
        match value(opt_text(self.knobs.vmlinux_h)) {
            Some(p) => Header::Given(utf8(p)),
            None => Header::Made {
                path: joined(self.out_dir@, utf8("vmlinux.h"@)),
                command: command(
                    utf8(value_or(self.knobs.bpftool, "bpftool"@)),
                    seq![
                        utf8("btf"@),
                        utf8("dump"@),
                        utf8("file"@),
                        utf8(value_or(self.knobs.vmlinux_btf, "/sys/kernel/btf/vmlinux"@)),
                        utf8("format"@),
                        utf8("c"@),
                    ],
                ),
            },
        }
    }

    /// The kernel header: the given one, or one made of the kernel's type information.
    pub fn header(&self) -> (r: Header<PathBuf, Cmd>)
        ensures
            match r {
                Header::Given(p) => self.header_spec() == Header::<Seq<u8>, CmdSpec>::Given(p@),
                Header::Made { path, command } => self.header_spec() == (Header::<
                    Seq<u8>,
                    CmdSpec,
                >::Made { path: path@, command: command@ }),
            },
    {
        match get(&self.knobs.vmlinux_h) {
            Some(p) => Header::Given(PathBuf::from_text(p.as_str())),
            None => {
                let mut c = Cmd::new(bytes_of(get_or(&self.knobs.bpftool, "bpftool").as_str()));
                c.text("btf");
                c.text("dump");
                c.text("file");
                c.text(get_or(&self.knobs.vmlinux_btf, "/sys/kernel/btf/vmlinux").as_str());
                c.text("format");
                c.text("c");
                let path = self.out_dir.join_text("vmlinux.h");
                assert(c@.args =~= self.header_spec()->command.args);
                Header::Made { path, command: c }
            },
        }
    }

    /// Whether `pkg-config` is to be asked for libbpf's headers.
    pub fn asks_pkg_config(&self) -> (r: bool)
        ensures
            r == (value(opt_text(self.knobs.libbpf_include)) is None),
    {
        get(&self.knobs.libbpf_include).is_none()
    }

    /// Where libbpf's headers are, given what `pkg-config` printed where it succeeded.
    pub open spec fn libbpf_dir(self, printed: Option<Seq<char>>) -> Seq<char> {
        match (value(opt_text(self.knobs.libbpf_include)), printed) {
            (Some(d), _) => d,
            (None, Some(t)) => trimmed(t),
            (None, None) => "/usr/include"@,
        }
    }

    /// Where libbpf's headers are, given the text that `pkg-config` printed where it succeeded.
    pub fn libbpf_include_in(&self, printed: Option<String>) -> (r: String)
        ensures
            r@ == self.libbpf_dir(opt_text(printed)),
    {
        match get(&self.knobs.libbpf_include) {
            Some(d) => d,
            None => match printed {
                Some(t) => trim(t.as_str()),
                None => "/usr/include".to_owned(),
            },
        }
    }

    /// Where libbpf's headers are, given what `pkg-config` printed where it succeeded.
    pub fn libbpf_include(&self, printed: Option<Vec<u8>>) -> (r: String)
        ensures
            r@ == self.libbpf_dir(crate::linker::tools::lossy(printed)),
    {
        let text = match printed {
            Some(b) => Some(from_utf8_lossy(b.as_slice())),
            None => None,
        };
        self.libbpf_include_in(text)
    }

    /// Whether the running kernel's symbols decide on the stream function.
    pub open spec fn looks_at_symbols(self) -> bool {
        value(opt_text(self.knobs.stream)) is None && value(opt_text(self.knobs.vmlinux_h)) is None
    }

    /// Whether the running kernel's symbols are to be read.
    pub fn asks_symbols(&self) -> (r: bool)
        ensures
            r == self.looks_at_symbols(),
    {
        get(&self.knobs.stream).is_none() && get(&self.knobs.vmlinux_h).is_none()
    }

    /// Which kernel function prints to a stream, given the running kernel's symbols: as the
    /// variable says; else the older one where the build is for the running kernel and that has
    /// it.
    pub open spec fn stream_kfunc(self, symbols: Option<Seq<char>>) -> Seq<char> {
        value_or(
            self.knobs.stream,
            if self.looks_at_symbols() && (symbols matches Some(t) && line_ends_with(
                t,
                " bpf_stream_vprintk_impl"@,
            )) {
                "impl"@
            } else {
                "plain"@
            },
        )
    }

    /// Which kernel function prints to a stream, given the running kernel's symbols.
    pub fn stream(&self, symbols: &Option<String>) -> (r: String)
        ensures
            r@ == self.stream_kfunc(opt_text(*symbols)),
    {
        let default = if self.asks_symbols() {
            match symbols {
                Some(t) => if some_line_ends_with(t.as_str(), " bpf_stream_vprintk_impl") {
                    "impl"
                } else {
                    "plain"
                },
                None => "plain",
            }
        } else {
            "plain"
        };
        get_or(&self.knobs.stream, default)
    }

    /// The define of the target's architecture; that of the host where none is given.
    pub open spec fn arch(self, host_arch: Seq<char>) -> Seq<char> {
        value_or(
            self.knobs.arch_define,
            if host_arch == "aarch64"@ {
                "-D__TARGET_ARCH_arm64"@
            } else {
                "-D__TARGET_ARCH_x86"@
            },
        )
    }

    fn arch_of(&self, host_arch: &str) -> (r: String)
        ensures
            r@ == self.arch(host_arch@),
    {
        if same(host_arch, "aarch64") {
            get_or(&self.knobs.arch_define, "-D__TARGET_ARCH_arm64")
        } else {
            get_or(&self.knobs.arch_define, "-D__TARGET_ARCH_x86")
        }
    }

    /// The directory of a kernel header, where it has one.
    pub fn header_dir(&self, header: &PathBuf) -> (r: Option<String>)
        ensures
            opt_text(r) == parent_of(utf8_lossy(header@)),
    {
        parent(from_utf8_lossy(header.bytes.as_slice()).as_str())
    }

    /// Compiles `src` to `bc`.
    pub open spec fn compile_cmd(self, setting: Setting, src: Seq<u8>, bc: Seq<u8>) -> CmdSpec {
        let older = if setting.stream@ == "impl"@ {
            seq![utf8("-DLIBARENA_RS_STREAM_IMPL"@)]
        } else {
            seq![]
        };
        command(
            self.clang(),
            seq![
                utf8("--target=bpfel"@),
                utf8("-mcpu="@ + value_or(self.knobs.cpu, "v4"@)),
                utf8("-O2"@),
                utf8("-g"@),
                utf8("-DENABLE_ATOMICS_TESTS"@),
                utf8(self.arch(setting.host_arch@)),
                utf8("-Wno-incompatible-pointer-types-discards-qualifiers"@),
                utf8("-Wno-missing-declarations"@),
                utf8("-Wno-macro-redefined"@),
            ] + older + seq![
                utf8("-include"@),
                joined(self.root@, utf8("csrc/kfunc_compat.h"@)),
                utf8("-I"@) + joined(self.libarena_root(), utf8("include"@)),
                utf8("-I"@ + setting.header_dir@),
                utf8("-I"@ + setting.libbpf_include@),
                utf8("-emit-llvm"@),
                utf8("-c"@),
                src,
                utf8("-o"@),
                bc,
            ],
        )
    }

    fn compile(&self, setting: &Setting, src: &PathBuf, bc: &PathBuf) -> (r: Cmd)
        ensures
            r@ == self.compile_cmd(*setting, src@, bc@),
    {
        let mut c = Cmd::new(self.clang_program());
        c.text("--target=bpfel");
        let cpu = cat("-mcpu=", get_or(&self.knobs.cpu, "v4").as_str());
        c.text(cpu.as_str());
        c.text("-O2");
        c.text("-g");
        c.text("-DENABLE_ATOMICS_TESTS");
        c.text(self.arch_of(setting.host_arch.as_str()).as_str());
        c.text("-Wno-incompatible-pointer-types-discards-qualifiers");
        c.text("-Wno-missing-declarations");
        c.text("-Wno-macro-redefined");
        if same(setting.stream.as_str(), "impl") {
            c.text("-DLIBARENA_RS_STREAM_IMPL");
        }
        let ghost front = c@.args;
        c.text("-include");
        c.path(&self.root.join_text("csrc/kfunc_compat.h"));
        c.path(&flag_on("-I", &self.libarena().join_text("include")));
        c.text(cat("-I", setting.header_dir.as_str()).as_str());
        c.text(cat("-I", setting.libbpf_include.as_str()).as_str());
        c.text("-emit-llvm");
        c.text("-c");
        c.path(src);
        c.text("-o");
        c.path(bc);
        assert(c@ =~= self.compile_cmd(*setting, src@, bc@));
        c
    }

    /// The bitcode file of the source `name`.
    pub open spec fn bitcode_path(self, name: Seq<char>) -> Seq<u8> {
        joined(self.out_dir@, utf8(name))
    }

    /// The archive that the linker looks for.
    pub open spec fn archive_path(self) -> Seq<u8> {
        joined(self.out_dir@, utf8("libarena_c.a"@))
    }

    /// The archive that the linker looks for.
    pub fn archive(&self) -> (r: PathBuf)
        ensures
            r@ == self.archive_path(),
    {
        self.out_dir.join_text("libarena_c.a")
    }

    /// Puts libarena's bitcode and the glue's into the archive.
    pub open spec fn archive_cmd(self) -> CmdSpec {
        command(
            self.tool("llvm-ar"@),
            seq![
                utf8("rcs"@),
                self.archive_path(),
                self.bitcode_path("common.bc"@),
                self.bitcode_path("buddy.bc"@),
                self.bitcode_path("arena_glue.bc"@),
            ],
        )
    }

    /// The commands of the build, in order: one for each source.
    pub open spec fn compile_cmds(self, setting: Setting) -> Seq<CmdSpec> {
        seq![
            self.compile_cmd(
                setting,
                joined(self.libarena_root(), utf8("src/common.bpf.c"@)),
                self.bitcode_path("common.bc"@),
            ),
            self.compile_cmd(
                setting,
                joined(self.libarena_root(), utf8("src/buddy.bpf.c"@)),
                self.bitcode_path("buddy.bc"@),
            ),
            self.compile_cmd(
                setting,
                joined(self.root@, utf8("csrc/arena_glue.bpf.c"@)),
                self.bitcode_path("arena_glue.bc"@),
            ),
        ]
    }

    /// The commands that compile the sources, in order.
    pub fn compile_commands(&self, setting: &Setting) -> (r: Vec<Cmd>)
        ensures
            r@.map_values(|c: Cmd| c@) == self.compile_cmds(*setting),
    {
        let la = self.libarena();
        let mut v: Vec<Cmd> = Vec::new();
        v.push(
            self.compile(
                setting,
                &la.join_text("src/common.bpf.c"),
                &self.out_dir.join_text("common.bc"),
            ),
        );
        v.push(
            self.compile(
                setting,
                &la.join_text("src/buddy.bpf.c"),
                &self.out_dir.join_text("buddy.bc"),
            ),
        );
        v.push(
            self.compile(
                setting,
                &self.root.join_text("csrc/arena_glue.bpf.c"),
                &self.out_dir.join_text("arena_glue.bc"),
            ),
        );
        assert(v@.map_values(|c: Cmd| c@) =~= self.compile_cmds(*setting));
        v
    }

    /// The command that puts the bitcode into the archive.
    pub fn archive_command(&self) -> (r: Cmd)
        ensures
            r@ == self.archive_cmd(),
    {
        let mut c = Cmd::new(self.tool_program("llvm-ar"));
        c.text("rcs");
        c.path(&self.archive());
        c.path(&self.out_dir.join_text("common.bc"));
        c.path(&self.out_dir.join_text("buddy.bc"));
        c.path(&self.out_dir.join_text("arena_glue.bc"));
        assert(c@ =~= self.archive_cmd());
        c
    }
}

/// What the compiler is told of the kernel and the host.
#[derive(Debug, PartialEq, Eq)]
pub struct Setting {
    /// The architecture that the build runs on.
    pub host_arch: String,
    /// The directory of the kernel header.
    pub header_dir: String,
    /// The directory of libbpf's headers.
    pub libbpf_include: String,
    /// Which kernel function prints to a stream.
    pub stream: String,
}

/// A flag with a path put to its end.
fn flag_on(flag: &str, p: &PathBuf) -> (r: PathBuf)
    ensures
        r@ == utf8(flag@) + p@,
{
    let mut bytes: Vec<u8> = bytes_of(flag);
    let mut tail: Vec<u8> = copy_bytes(&p.bytes);
    bytes.append(&mut tail);
    PathBuf { bytes }
}

/// The last argument of the compiler is its output.
proof fn lemma_output_comes_last(job: CompileJob, setting: Setting, src: Seq<u8>, bc: Seq<u8>)
    ensures
        job.compile_cmd(setting, src, bc).args.last() == bc,
{
}

/// What the archive is made of is just what the compiler made: every file of it is the output of
/// one of the commands.
pub proof fn law_archive_holds_what_was_compiled(job: CompileJob, setting: Setting, i: int)
    requires
        0 <= i < 3,
    ensures
        job.archive_cmd().args[2 + i] == job.compile_cmds(setting)[i].args.last(),
        job.archive_cmd().args.len() == 2 + job.compile_cmds(setting).len(),
{
    let common = joined(job.libarena_root(), utf8("src/common.bpf.c"@));
    let buddy = joined(job.libarena_root(), utf8("src/buddy.bpf.c"@));
    let glue = joined(job.root@, utf8("csrc/arena_glue.bpf.c"@));
    if i == 0 {
        lemma_output_comes_last(job, setting, common, job.bitcode_path("common.bc"@));
    } else if i == 1 {
        lemma_output_comes_last(job, setting, buddy, job.bitcode_path("buddy.bc"@));
    } else {
        lemma_output_comes_last(job, setting, glue, job.bitcode_path("arena_glue.bc"@));
    }
}

/// The linker finds the archive in the directory that the build put it into, where that is one of
/// its library directories.
pub proof fn law_linker_looks_for_the_archive(job: CompileJob, s: Session, i: int)
    requires
        0 <= i < s.opts@.lib_dirs.len(),
        s.opts@.lib_dirs[i] == job.out_dir@,
    ensures
        s.archive_path(i) == job.archive_path(),
{
}

/// The compiler is the one that is named, else `clang` among the tools; these are below the prefix
/// where one is set, else found by their names.
pub proof fn law_compiler(job: CompileJob, name: Seq<char>)
    ensures
        ({
            let prefix = job.knobs.llvm_prefix;
            let clang = job.knobs.clang;
            let set = prefix is Some && prefix->0@.len() > 0;
            &&& set ==> job.tool(name) == joined(
                joined(utf8(prefix->0@), utf8("bin"@)),
                utf8(name),
            )
            &&& !set ==> job.tool(name) == utf8(name)
            &&& clang is Some && clang->0@.len() > 0 ==> job.clang() == utf8(clang->0@)
            &&& clang is None || clang->0@.len() == 0 ==> job.clang() == job.tool("clang"@)
        }),
        job.libarena_root() == joined(job.root.bytes@, utf8("vendor/libarena/libarena"@)),
{
}

/// A compile command names what it depends on, whatever that is: the processor and the architecture,
/// the directory of libarena's headers, that of the kernel header and that of libbpf's headers, in
/// this order; the source after `-c`; and the bitcode after `-o`, last.
pub proof fn law_compile_command(job: CompileJob, setting: Setting, src: Seq<u8>, bc: Seq<u8>)
    ensures
        ({
            let c = job.compile_cmd(setting, src, bc);
            let n = c.args.len() as int;
            let cpu = job.knobs.cpu;
            &&& c.program == job.clang()
            &&& c.dir is None
            &&& n == if setting.stream@ == "impl"@ {
                20int
            } else {
                19
            }
            &&& c.args[0] == utf8("--target=bpfel"@)
            &&& cpu is Some && cpu->0@.len() > 0 ==> c.args[1] == utf8("-mcpu="@ + cpu->0@)
            &&& cpu is None || cpu->0@.len() == 0 ==> c.args[1] == utf8("-mcpu="@ + "v4"@)
            &&& c.args[2] == utf8("-O2"@)
            &&& c.args[3] == utf8("-g"@)
            &&& c.args[4] == utf8("-DENABLE_ATOMICS_TESTS"@)
            &&& c.args[5] == utf8(job.arch(setting.host_arch@))
            &&& c.args[6] == utf8("-Wno-incompatible-pointer-types-discards-qualifiers"@)
            &&& c.args[7] == utf8("-Wno-missing-declarations"@)
            &&& c.args[8] == utf8("-Wno-macro-redefined"@)
            &&& setting.stream@ == "impl"@ ==> c.args[9] == utf8("-DLIBARENA_RS_STREAM_IMPL"@)
            &&& c.args[n - 10] == utf8("-include"@)
            &&& c.args[n - 9] == joined(job.root.bytes@, utf8("csrc/kfunc_compat.h"@))
            &&& c.args[n - 8] == utf8("-I"@) + joined(job.libarena_root(), utf8("include"@))
            &&& c.args[n - 7] == utf8("-I"@ + setting.header_dir@)
            &&& c.args[n - 6] == utf8("-I"@ + setting.libbpf_include@)
            &&& c.args[n - 5] == utf8("-emit-llvm"@)
            &&& c.args[n - 4] == utf8("-c"@)
            &&& c.args[n - 3] == src
            &&& c.args[n - 2] == utf8("-o"@)
            &&& c.args[n - 1] == bc
        }),
{
}

/// The directories that are searched for headers are those of the setting: every command names both,
/// and where two settings give the same command, they name the same directories.
pub proof fn law_headers_are_searched(
    job: CompileJob,
    setting: Setting,
    other: Setting,
    src: Seq<u8>,
    bc: Seq<u8>,
    i: int,
)
    requires
        0 <= i < 3,
    ensures
        job.compile_cmds(setting).len() == 3,
        job.compile_cmds(setting)[i].args.contains(utf8("-I"@ + setting.header_dir@)),
        job.compile_cmds(setting)[i].args.contains(utf8("-I"@ + setting.libbpf_include@)),
        job.compile_cmd(setting, src, bc) == job.compile_cmd(other, src, bc) ==> {
            &&& setting.header_dir@ == other.header_dir@
            &&& setting.libbpf_include@ == other.libbpf_include@
        },
{
    let common = joined(job.libarena_root(), utf8("src/common.bpf.c"@));
    let buddy = joined(job.libarena_root(), utf8("src/buddy.bpf.c"@));
    let glue = joined(job.root@, utf8("csrc/arena_glue.bpf.c"@));
    law_compile_command(job, setting, common, job.bitcode_path("common.bc"@));
    law_compile_command(job, setting, buddy, job.bitcode_path("buddy.bc"@));
    law_compile_command(job, setting, glue, job.bitcode_path("arena_glue.bc"@));
    let args = job.compile_cmds(setting)[i].args;
    assert(args[args.len() - 7] == utf8("-I"@ + setting.header_dir@));
    assert(args[args.len() - 6] == utf8("-I"@ + setting.libbpf_include@));
    let c = job.compile_cmd(setting, src, bc);
    let d = job.compile_cmd(other, src, bc);
    law_compile_command(job, setting, src, bc);
    law_compile_command(job, other, src, bc);
    if c == d {
        let n = c.args.len() as int;
        assert(utf8("-I"@ + setting.header_dir@) == utf8("-I"@ + other.header_dir@));
        assert(utf8("-I"@ + setting.libbpf_include@) == utf8("-I"@ + other.libbpf_include@));
        lemma_same_flag(setting.header_dir@, other.header_dir@);
        lemma_same_flag(setting.libbpf_include@, other.libbpf_include@);
    }
}

/// Two flags of directories are the same only for the same directory.
proof fn lemma_same_flag(a: Seq<char>, b: Seq<char>)
    requires
        utf8("-I"@ + a) == utf8("-I"@ + b),
    ensures
        a == b,
{
    law_utf8("-I"@ + a, "-I"@ + b);
    assert(a =~= ("-I"@ + a).skip("-I"@.len() as int));
    assert(b =~= ("-I"@ + b).skip("-I"@.len() as int));
}

/// Just libarena's two sources and the glue are compiled, each to the bitcode of its name in the
/// directory of the build; and just these are archived there, in the archive that is named for the
/// linker.
pub proof fn law_sources_and_archive(job: CompileJob, setting: Setting)
    ensures
        ({
            let v = job.compile_cmds(setting);
            let out = job.out_dir.bytes@;
            let la = job.libarena_root();
            &&& v.len() == 3
            &&& v[0] == job.compile_cmd(
                setting,
                joined(la, utf8("src/common.bpf.c"@)),
                joined(out, utf8("common.bc"@)),
            )
            &&& v[1] == job.compile_cmd(
                setting,
                joined(la, utf8("src/buddy.bpf.c"@)),
                joined(out, utf8("buddy.bc"@)),
            )
            &&& v[2] == job.compile_cmd(
                setting,
                joined(job.root.bytes@, utf8("csrc/arena_glue.bpf.c"@)),
                joined(out, utf8("arena_glue.bc"@)),
            )
        }),
        ({
            let c = job.archive_cmd();
            let out = job.out_dir.bytes@;
            &&& c.program == job.tool("llvm-ar"@)
            &&& c.dir is None
            &&& c.args.len() == 5
            &&& c.args[0] == utf8("rcs"@)
            &&& c.args[1] == joined(out, utf8("libarena_c.a"@))
            &&& c.args[1] == job.archive_path()
            &&& c.args[2] == joined(out, utf8("common.bc"@))
            &&& c.args[3] == joined(out, utf8("buddy.bc"@))
            &&& c.args[4] == joined(out, utf8("arena_glue.bc"@))
        }),
{
}

/// The kernel header is the one that is given, whatever its path; else it is made in the directory of
/// the build, by `bpftool` or what is named for it, of the type information that is named or of that
/// of the running kernel.
pub proof fn law_header(job: CompileJob)
    ensures
        ({
            let h = job.knobs.vmlinux_h;
            let tool = job.knobs.bpftool;
            let btf = job.knobs.vmlinux_btf;
            let given = h is Some && h->0@.len() > 0;
            let c = job.header_spec()->command;
            &&& given ==> job.header_spec() == Header::<Seq<u8>, CmdSpec>::Given(utf8(h->0@))
            &&& !given ==> {
                &&& job.header_spec() is Made
                &&& job.header_spec()->path == joined(job.out_dir.bytes@, utf8("vmlinux.h"@))
                &&& tool is Some && tool->0@.len() > 0 ==> c.program == utf8(tool->0@)
                &&& tool is None || tool->0@.len() == 0 ==> c.program == utf8("bpftool"@)
                &&& c.dir is None
                &&& c.args.len() == 6
                &&& c.args[0] == utf8("btf"@)
                &&& c.args[1] == utf8("dump"@)
                &&& c.args[2] == utf8("file"@)
                &&& btf is Some && btf->0@.len() > 0 ==> c.args[3] == utf8(btf->0@)
                &&& btf is None || btf->0@.len() == 0 ==> c.args[3] == utf8(
                    "/sys/kernel/btf/vmlinux"@,
                )
                &&& c.args[4] == utf8("format"@)
                &&& c.args[5] == utf8("c"@)
            }
        }),
{
}

/// libbpf's headers are where the variable says; else where `pkg-config` says, but for white space
/// around it; else in `/usr/include`.
pub proof fn law_libbpf_dir(job: CompileJob, printed: Option<Seq<char>>)
    ensures
        ({
            let d = job.knobs.libbpf_include;
            let set = d is Some && d->0@.len() > 0;
            &&& set ==> job.libbpf_dir(printed) == d->0@
            &&& !set && printed is Some ==> job.libbpf_dir(printed) == trimmed(printed->0)
            &&& !set && printed is None ==> job.libbpf_dir(printed) == "/usr/include"@
        }),
{
}

/// The stream function is the one that the variable names, whatever it is; else the older one just
/// where no kernel header is given and some line of the running kernel's symbols ends with its name
/// after a space; else the plain one. The symbols are read just where they decide.
pub proof fn law_stream(job: CompileJob, symbols: Option<Seq<char>>)
    ensures
        ({
            let v = job.knobs.stream;
            let h = job.knobs.vmlinux_h;
            let set = v is Some && v->0@.len() > 0;
            let given = h is Some && h->0@.len() > 0;
            let there = symbols is Some && line_ends_with(
                symbols->0,
                " bpf_stream_vprintk_impl"@,
            );
            &&& job.looks_at_symbols() <==> !set && !given
            &&& set ==> job.stream_kfunc(symbols) == v->0@
            &&& !set && !given && there ==> job.stream_kfunc(symbols) == "impl"@
            &&& !set && (given || !there) ==> job.stream_kfunc(symbols) == "plain"@
        }),
{
}

/// The define of the architecture is the one that is given, whatever it is; else that of arm64 on an
/// aarch64 host, and that of x86 on any other.
pub proof fn law_arch(job: CompileJob, host: Seq<char>)
    ensures
        ({
            let d = job.knobs.arch_define;
            let set = d is Some && d->0@.len() > 0;
            &&& set ==> job.arch(host) == d->0@
            &&& !set && host == "aarch64"@ ==> job.arch(host) == "-D__TARGET_ARCH_arm64"@
            &&& !set && host != "aarch64"@ ==> job.arch(host) == "-D__TARGET_ARCH_x86"@
        }),
{
}

/// A line ends with a text wherever the text stands before a line feed, before a carriage return and
/// a line feed, or at the end; and nowhere else.
pub proof fn law_line_ends(a: Seq<char>, suffix: Seq<char>, b: Seq<char>, text: Seq<char>)
    ensures
        line_ends_with(a + suffix, suffix),
        line_ends_with(a + suffix + seq!['\n'] + b, suffix),
        line_ends_with(a + suffix + seq!['\r', '\n'] + b, suffix),
        line_ends_with(text, suffix) ==> exists|x: Seq<char>, y: Seq<char>|
            text == #[trigger] (x + suffix + y) && (y.len() == 0 || y[0] == '\n' || (y.len() >= 2
                && y[0] == '\r' && y[1] == '\n')),
{
    let n = a.len() as int;
    let t1 = a + suffix;
    let t2 = a + suffix + seq!['\n'] + b;
    let t3 = a + suffix + seq!['\r', '\n'] + b;
    assert(t1.skip(n) =~= suffix);
    assert(t1.skip(n).take(suffix.len() as int) =~= suffix);
    assert(t2.skip(n).take(suffix.len() as int) =~= suffix);
    assert(t3.skip(n).take(suffix.len() as int) =~= suffix);
    assert(starts_with(t1.skip(n), suffix) && ends_a_line(t1, n + suffix.len()));
    assert(starts_with(t2.skip(n), suffix) && ends_a_line(t2, n + suffix.len()));
    assert(starts_with(t3.skip(n), suffix) && ends_a_line(t3, n + suffix.len()));
    if line_ends_with(text, suffix) {
        let i = choose|i: int|
            0 <= i <= text.len() && #[trigger] starts_with(text.skip(i), suffix) && ends_a_line(
                text,
                i + suffix.len(),
            );
        let here = text.skip(i);
        let x = text.take(i);
        let y = here.skip(suffix.len() as int);
        assert(here =~= here.take(suffix.len() as int) + y);
        assert(text =~= x + suffix + y);
    }
}

} // verus!
