//! Where the LLVM tools and the interpreter of the passes are.
use vstd::prelude::*;

use crate::linker::command::{command, Cmd, CmdSpec};
use crate::linker::env::{value, value_or, Env};
use crate::path::{bytes_of, joined, opt_path, utf8, PathBuf};
use crate::text::{from_utf8_lossy, opt_text, trim, trimmed, utf8_lossy};

verus! {

/// The programs that the linker calls.
#[derive(Debug, PartialEq, Eq)]
pub struct Tools {
    /// The directory of the LLVM tools; without one they are looked up by name.
    pub bin: Option<PathBuf>,
    /// The interpreter of the passes.
    pub python: String,
}

/// The directory of the LLVM tools: below the prefix where that is set, else where `llvm-config`
/// says.
pub open spec fn tool_dir(env: Env, bindir: Option<Seq<char>>) -> Option<Seq<u8>> {
    match value(opt_text(env.llvm_prefix)) {
        Some(prefix) => Some(joined(utf8(prefix), utf8("bin"@))),
        None => match bindir {
            Some(text) => Some(utf8(trimmed(text))),
            None => None,
        },
    }
}

/// The text of an optional output.
pub open spec fn lossy(out: Option<Vec<u8>>) -> Option<Seq<char>> {
    match out {
        Some(b) => Some(utf8_lossy(b@)),
        None => None,
    }
}

impl Tools {
    /// The program that the tool `name` is run as.
    pub open spec fn program(self, name: Seq<char>) -> Seq<u8> {
        match opt_path(self.bin) {
            Some(dir) => joined(dir, utf8(name)),
            None => utf8(name),
        }
    }

    /// Whether `llvm-config` is to be asked for the directory of the tools.
    pub fn asks_llvm_config(env: &Env) -> (r: bool)
        ensures
            r == (value(opt_text(env.llvm_prefix)) is None),
    {
        env.llvm_prefix().is_none()
    }

    /// The tools, given what `llvm-config --bindir` printed where it was asked and succeeded.
    pub fn find(env: &Env, bindir: Option<Vec<u8>>) -> (r: Tools)
        ensures
            opt_path(r.bin) == tool_dir(*env, lossy(bindir)),
            r.python@ == value_or(env.python, "python3"@),
    {
        let text = match bindir {
            Some(b) => Some(from_utf8_lossy(b.as_slice())),
            None => None,
        };
        Tools::with_bindir(env, text)
    }

    /// The tools, given the text that `llvm-config --bindir` printed.
    pub fn with_bindir(env: &Env, bindir: Option<String>) -> (r: Tools)
        ensures
            opt_path(r.bin) == tool_dir(*env, opt_text(bindir)),
            r.python@ == value_or(env.python, "python3"@),
    {
        let bin = match env.llvm_prefix() {
            Some(prefix) => Some(PathBuf::from_text(prefix.as_str()).join_text("bin")),
            None => match bindir {
                Some(text) => Some(PathBuf::from_text(trim(text.as_str()).as_str())),
                None => None,
            },
        };
        Tools { bin, python: env.python() }
    }

    /// The command that runs the tool `name`, without arguments yet.
    pub fn tool(&self, name: &str) -> (r: Cmd)
        ensures
            r@ == command(self.program(name@), seq![]),
    {
        let program = match &self.bin {
            Some(dir) => dir.join_text(name).bytes,
            None => bytes_of(name),
        };
        Cmd::new(program)
    }

    /// The command that runs a pass, without further arguments yet.
    pub fn pass(&self, script: &PathBuf) -> (r: Cmd)
        ensures
            r@ == command(utf8(self.python@), seq![script@]),
    {
        let mut c = Cmd::new(bytes_of(self.python.as_str()));
        c.path(script);
        assert(c@ =~= command(utf8(self.python@), seq![script@]));
        c
    }

    /// The command that unpacks an archive, given by its full path, into `dir`.
    pub fn unpack(&self, archive: &PathBuf, dir: &PathBuf) -> (r: Cmd)
        ensures
            r@ == (CmdSpec {
                program: self.program("llvm-ar"@),
                args: seq![utf8("x"@), archive@],
                dir: Some(dir@),
            }),
    {
        let mut c = self.tool("llvm-ar");
        c.text("x");
        c.path(archive);
        c.dir = Some(dir.copy());
        assert(c@.args =~= seq![utf8("x"@), archive@]);
        c
    }
}

/// The tools lie below the prefix where one is set, whatever `llvm-config` says; else where that
/// says, but for white space around it; else they are found by their names.
pub proof fn law_tool_dir(env: Env, bindir: Option<Seq<char>>)
    ensures
        env.llvm_prefix is Some && env.llvm_prefix->0@.len() > 0 ==> tool_dir(env, bindir) == Some(
            joined(utf8(env.llvm_prefix->0@), utf8("bin"@)),
        ),
        (env.llvm_prefix is None || env.llvm_prefix->0@.len() == 0) && bindir is Some ==> tool_dir(
            env,
            bindir,
        ) == Some(utf8(trimmed(bindir->0))),
        (env.llvm_prefix is None || env.llvm_prefix->0@.len() == 0) && bindir is None ==> tool_dir(
            env,
            bindir,
        ) is None,
{
}

/// A tool is run from the directory of the tools, or by its bare name without one.
pub proof fn law_tool_program(t: Tools, name: Seq<char>)
    ensures
        t.bin is Some ==> t.program(name) == joined(t.bin->0.bytes@, utf8(name)),
        t.bin is None ==> t.program(name) == utf8(name),
{
}

/// An output that there is has the text of its bytes; one that there is not has none.
pub proof fn law_lossy(out: Option<Vec<u8>>)
    ensures
        out is Some ==> lossy(out) == Some(utf8_lossy(out->0@)),
        out is None ==> lossy(out) is None,
{
}

} // verus!
