//! The stages of a link: the commands that take the bitcode to the object, and the files between
//! them.
use vstd::prelude::*;

use crate::linker::args::Opts;
use crate::linker::command::{command, utf8_each, Cmd, CmdSpec};
use crate::linker::env::Env;
use crate::linker::tools::Tools;
use crate::path::{joined, paths, utf8, PathBuf};
use crate::text::{cat, same, texts};

verus! {

/// What a link works with.
#[derive(Debug, PartialEq, Eq)]
pub struct Session {
    pub opts: Opts,
    pub tools: Tools,
    pub env: Env,
}

/// The flags that make `opt` keep the symbols of `keep` global.
pub open spec fn keep_flags(keep: Seq<Seq<char>>) -> Seq<Seq<u8>> {
    keep.map_values(|k: Seq<char>| utf8("--internalize-public-api-list="@ + k))
}

impl Session {
    /// The directory of the intermediate files: beside the output, under its name.
    pub open spec fn temp_dir(self) -> Seq<u8> {
        self.opts@.output + utf8(".arena-linker"@)
    }

    /// The intermediate file `name`.
    pub open spec fn file_path(self, name: Seq<char>) -> Seq<u8> {
        joined(self.temp_dir(), utf8(name))
    }

    /// The directory of the passes that come with the linker.
    pub open spec fn script_dir(self) -> Seq<u8> {
        self.file_path("scripts"@)
    }

    /// The pass `name` that comes with the linker.
    pub open spec fn script_path(self, name: Seq<char>) -> Seq<u8> {
        joined(self.script_dir(), utf8(name))
    }

    /// The directory of the intermediate files.
    pub fn temp(&self) -> (r: PathBuf)
        ensures
            r@ == self.temp_dir(),
    {
        self.opts.output.with_suffix(".arena-linker")
    }

    /// The intermediate file `name`.
    pub fn file(&self, name: &str) -> (r: PathBuf)
        ensures
            r@ == self.file_path(name@),
    {
        self.temp().join_text(name)
    }

    /// The pass `name` that comes with the linker.
    pub fn script(&self, name: &str) -> (r: PathBuf)
        ensures
            r@ == self.script_path(name@),
    {
        self.file("scripts").join_text(name)
    }

    /// Runs the tool `name` on `args`.
    pub open spec fn tool_cmd(self, name: Seq<char>, args: Seq<Seq<u8>>) -> CmdSpec {
        command(self.tools.program(name), args)
    }

    /// Runs the pass at `script` on `args`.
    pub open spec fn script_cmd(self, script: Seq<u8>, args: Seq<Seq<u8>>) -> CmdSpec {
        command(utf8(self.tools.python@), seq![script] + args)
    }

    /// Lists the functions of libarena's bitcode.
    pub open spec fn nm_cmd(self, arena: Seq<Seq<u8>>) -> CmdSpec {
        self.tool_cmd("llvm-nm"@, seq![utf8("--defined-only"@)] + arena)
    }

    /// Lists the functions of libarena's bitcode.
    pub fn nm(&self, arena: &Vec<PathBuf>) -> (r: Cmd)
        ensures
            r@ == self.nm_cmd(paths(arena@)),
    {
        let mut c = self.tools.tool("llvm-nm");
        c.text("--defined-only");
        c.paths(arena);
        assert(c@ =~= self.nm_cmd(paths(arena@)));
        c
    }

    /// Links the program's bitcode and libarena's into one module.
    pub open spec fn link_cmd(self, rust: Seq<Seq<u8>>, arena: Seq<Seq<u8>>) -> CmdSpec {
        self.tool_cmd(
            "llvm-link"@,
            rust + arena + seq![utf8("-o"@), self.file_path("linked.bc"@)],
        )
    }

    /// Links the program's bitcode and libarena's into one module.
    pub fn link(&self, rust: &Vec<PathBuf>, arena: &Vec<PathBuf>) -> (r: Cmd)
        ensures
            r@ == self.link_cmd(paths(rust@), paths(arena@)),
    {
        let mut c = self.tools.tool("llvm-link");
        c.paths(rust);
        c.paths(arena);
        c.text("-o");
        c.path(&self.file("linked.bc"));
        assert(c@ =~= self.link_cmd(paths(rust@), paths(arena@)));
        c
    }

    /// Disassembles the module `from` into `to`.
    pub open spec fn dis_cmd(self, from: Seq<char>, to: Seq<char>) -> CmdSpec {
        self.tool_cmd(
            "llvm-dis"@,
            seq![self.file_path(from), utf8("-o"@), self.file_path(to)],
        )
    }

    /// Disassembles the module `from` into `to`.
    pub fn dis(&self, from: &str, to: &str) -> (r: Cmd)
        ensures
            r@ == self.dis_cmd(from@, to@),
    {
        let mut c = self.tools.tool("llvm-dis");
        c.path(&self.file(from));
        c.text("-o");
        c.path(&self.file(to));
        assert(c@ =~= self.dis_cmd(from@, to@));
        c
    }

    /// Lists the symbols to keep global, `extra` among them.
    pub open spec fn keep_cmd(self, extra: Seq<Seq<char>>) -> CmdSpec {
        let given = if extra.len() > 0 {
            seq![utf8("--extra"@)] + utf8_each(extra)
        } else {
            seq![]
        };
        let drop_void = if self.env.internalizes_void() {
            seq![utf8("--drop-void-globals"@)]
        } else {
            seq![]
        };
        self.script_cmd(
            self.script_path("keep_syms.py"@),
            seq![
                self.file_path("stage0.ll"@),
                utf8("--nm-list"@),
                self.file_path("arena_syms.txt"@),
            ] + given + drop_void,
        )
    }

    /// Lists the symbols to keep global, `extra` among them.
    pub fn keep(&self, extra: &Vec<String>) -> (r: Cmd)
        ensures
            r@ == self.keep_cmd(texts(extra@)),
    {
        let mut c = self.tools.pass(&self.script("keep_syms.py"));
        c.path(&self.file("stage0.ll"));
        c.text("--nm-list");
        c.path(&self.file("arena_syms.txt"));
        if extra.len() > 0 {
            c.text("--extra");
            c.texts(extra);
        }
        if self.env.internalize_void() {
            c.text("--drop-void-globals");
        }
        assert(c@ =~= self.keep_cmd(texts(extra@)));
        c
    }

    /// Runs the pass at `script` on the intermediate file `name`, in place.
    pub open spec fn pass_cmd(self, script: Seq<u8>, name: Seq<char>) -> CmdSpec {
        self.script_cmd(script, seq![self.file_path(name), self.file_path(name)])
    }

    /// Runs the pass at `script` on the intermediate file `name`, in place.
    pub fn pass(&self, script: &PathBuf, name: &str) -> (r: Cmd)
        ensures
            r@ == self.pass_cmd(script@, name@),
    {
        let mut c = self.tools.pass(script);
        c.path(&self.file(name));
        c.path(&self.file(name));
        assert(c@ =~= self.pass_cmd(script@, name@));
        c
    }

    /// Makes every symbol local but those of `keep`, and drops what is not used.
    pub open spec fn internalize_cmd(self, keep: Seq<Seq<char>>) -> CmdSpec {
        self.tool_cmd(
            "opt"@,
            keep_flags(keep) + seq![
                utf8("--force-remove-attribute=cold"@),
                utf8("-passes=forceattrs,internalize,globaldce"@),
                self.file_path("stage0.ll"@),
                utf8("-o"@),
                self.file_path("stage1.bc"@),
            ],
        )
    }

    /// Makes every symbol local but those of `keep`, and drops what is not used.
    pub fn internalize(&self, keep: &Vec<String>) -> (r: Cmd)
        ensures
            r@ == self.internalize_cmd(texts(keep@)),
    {
        let ghost all = keep_flags(texts(keep@));
        let mut c = self.tools.tool("opt");
        let ghost start = c@;
        let mut i: usize = 0;
        assert(start.args =~= all.take(0));
        while i < keep.len()
            invariant
                i <= keep.len(),
                all == keep_flags(texts(keep@)),
                c@ == (CmdSpec { args: all.take(i as int), ..start }),
            decreases keep.len() - i,
        {
            let flag = cat("--internalize-public-api-list=", keep[i].as_str());
            c.text(flag.as_str());
            proof {
                assert(all[i as int] == utf8(flag@));
                assert(all.take(i + 1) =~= all.take(i as int).push(all[i as int]));
            }
            i = i + 1;
        }
        assert(all.take(i as int) =~= all);
        c.text("--force-remove-attribute=cold");
        c.text("-passes=forceattrs,internalize,globaldce");
        c.path(&self.file("stage0.ll"));
        c.text("-o");
        c.path(&self.file("stage1.bc"));
        assert(c@ =~= self.internalize_cmd(texts(keep@)));
        c
    }

    /// Marks every function for inlining but those of the list, and prints the flags for `opt`.
    pub open spec fn force_inline_cmd(self) -> CmdSpec {
        self.script_cmd(
            self.script_path("force_inline.py"@),
            seq![
                self.file_path("stage1.ll"@),
                self.file_path("stage2.ll"@),
                self.file_path("noinline.txt"@),
            ],
        )
    }

    /// Marks every function for inlining but those of the list, and prints the flags for `opt`.
    pub fn force_inline(&self) -> (r: Cmd)
        ensures
            r@ == self.force_inline_cmd(),
    {
        let mut c = self.tools.pass(&self.script("force_inline.py"));
        c.path(&self.file("stage1.ll"));
        c.path(&self.file("stage2.ll"));
        c.path(&self.file("noinline.txt"));
        assert(c@ =~= self.force_inline_cmd());
        c
    }

    /// Inlines and optimizes, with the flags that the marking printed.
    pub open spec fn optimize_cmd(self, flags: Seq<Seq<char>>) -> CmdSpec {
        self.tool_cmd(
            "opt"@,
            utf8_each(flags) + seq![
                utf8("-passes=forceattrs,always-inline,globaldce,default<O2>"@),
                self.file_path("stage2.ll"@),
                utf8("-o"@),
                self.file_path("stage3.bc"@),
            ],
        )
    }

    /// Inlines and optimizes, with the flags that the marking printed.
    pub fn optimize(&self, flags: &Vec<String>) -> (r: Cmd)
        ensures
            r@ == self.optimize_cmd(texts(flags@)),
    {
        let mut c = self.tools.tool("opt");
        c.texts(flags);
        c.text("-passes=forceattrs,always-inline,globaldce,default<O2>");
        c.path(&self.file("stage2.ll"));
        c.text("-o");
        c.path(&self.file("stage3.bc"));
        assert(c@ =~= self.optimize_cmd(texts(flags@)));
        c
    }

    /// Turns traps into returns of the cookie.
    pub open spec fn trap_to_ret_cmd(self) -> CmdSpec {
        self.script_cmd(
            self.script_path("trap_to_ret.py"@),
            seq![
                self.file_path("stage3.ll"@),
                self.file_path("stage3.ll"@),
                utf8(self.env.cookie()),
            ],
        )
    }

    /// Turns traps into returns of the cookie.
    pub fn trap_to_ret(&self) -> (r: Cmd)
        ensures
            r@ == self.trap_to_ret_cmd(),
    {
        let mut c = self.tools.pass(&self.script("trap_to_ret.py"));
        c.path(&self.file("stage3.ll"));
        c.path(&self.file("stage3.ll"));
        c.text(self.env.trap_cookie().as_str());
        assert(c@ =~= self.trap_to_ret_cmd());
        c
    }

    /// Tags the kernel functions and mends what the backend would refuse; where traps are thrown,
    /// turns them into throws of the cookie.
    pub open spec fn finalize_cmd(self, mode: Seq<char>) -> CmdSpec {
        let thrown = if mode == "throw"@ {
            seq![utf8("--trap-cookie="@ + self.env.cookie())]
        } else {
            seq![]
        };
        self.script_cmd(
            self.script_path("bpf_finalize.py"@),
            seq![self.file_path("stage3.ll"@), self.file_path("final.ll"@)] + thrown,
        )
    }

    /// Tags the kernel functions and mends what the backend would refuse; where traps are thrown,
    /// turns them into throws of the cookie.
    pub fn finalize(&self, mode: &str) -> (r: Cmd)
        ensures
            r@ == self.finalize_cmd(mode@),
    {
        let mut c = self.tools.pass(&self.script("bpf_finalize.py"));
        c.path(&self.file("stage3.ll"));
        c.path(&self.file("final.ll"));
        if same(mode, "throw") {
            let flag = cat("--trap-cookie=", self.env.trap_cookie().as_str());
            c.text(flag.as_str());
        }
        assert(c@ =~= self.finalize_cmd(mode@));
        c
    }

    /// Generates the object.
    pub open spec fn codegen_cmd(self) -> CmdSpec {
        self.tool_cmd(
            "llc"@,
            seq![
                utf8("-march=bpfel"@),
                utf8("-mcpu="@ + self.opts@.cpu),
                utf8("-filetype=obj"@),
                self.file_path("final.ll"@),
                utf8("-o"@),
                self.file_path("out.o"@),
            ],
        )
    }

    /// Generates the object.
    pub fn codegen(&self) -> (r: Cmd)
        ensures
            r@ == self.codegen_cmd(),
    {
        let mut c = self.tools.tool("llc");
        c.text("-march=bpfel");
        let cpu = cat("-mcpu=", self.opts.cpu.as_str());
        c.text(cpu.as_str());
        c.text("-filetype=obj");
        c.path(&self.file("final.ll"));
        c.text("-o");
        c.path(&self.file("out.o"));
        assert(c@ =~= self.codegen_cmd());
        c
    }

    /// Strips what unwinding would need, and puts the object where it was asked for.
    pub open spec fn strip_cmd(self) -> CmdSpec {
        self.tool_cmd(
            "llvm-objcopy"@,
            seq![
                utf8("--remove-section=.eh_frame"@),
                utf8("--remove-section=.rel.eh_frame"@),
                utf8("--remove-section=.gcc_except_table"@),
                utf8("--strip-symbol=rust_eh_personality"@),
                self.file_path("out.o"@),
                self.opts@.output,
            ],
        )
    }

    /// Strips what unwinding would need, and puts the object where it was asked for.
    pub fn strip(&self) -> (r: Cmd)
        ensures
            r@ == self.strip_cmd(),
    {
        let mut c = self.tools.tool("llvm-objcopy");
        c.text("--remove-section=.eh_frame");
        c.text("--remove-section=.rel.eh_frame");
        c.text("--remove-section=.gcc_except_table");
        c.text("--strip-symbol=rust_eh_personality");
        c.path(&self.file("out.o"));
        c.path(&self.opts.output);
        assert(c@ =~= self.strip_cmd());
        c
    }

    /// Makes the names in the object's type information fit for the kernel.
    pub open spec fn rename_cmd(self) -> CmdSpec {
        self.script_cmd(self.script_path("btf_rename.py"@), seq![self.opts@.output])
    }

    /// Makes the names in the object's type information fit for the kernel.
    pub fn rename(&self) -> (r: Cmd)
        ensures
            r@ == self.rename_cmd(),
    {
        let mut c = self.tools.pass(&self.script("btf_rename.py"));
        c.path(&self.opts.output);
        assert(c@ =~= self.rename_cmd());
        c
    }
}

} // verus!
