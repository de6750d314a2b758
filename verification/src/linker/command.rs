//! The commands that the linker runs.
use vstd::prelude::*;

use crate::path::{bytes_of, copy_bytes, opt_path, paths, utf8, PathBuf};
use crate::text::texts;

verus! {

/// A command: a program, its arguments, and the directory to run it in where that matters.
#[derive(Debug, PartialEq, Eq)]
pub struct Cmd {
    pub program: Vec<u8>,
    pub args: Vec<Vec<u8>>,
    pub dir: Option<PathBuf>,
}

/// The model of [`Cmd`].
#[verifier::ext_equal]
pub struct CmdSpec {
    pub program: Seq<u8>,
    pub args: Seq<Seq<u8>>,
    pub dir: Option<Seq<u8>>,
}

/// The bytes of a list of arguments.
pub open spec fn blobs(v: Seq<Vec<u8>>) -> Seq<Seq<u8>> {
    v.map_values(|b: Vec<u8>| b@)
}

/// The UTF-8 bytes of each of a list of texts.
pub open spec fn utf8_each(s: Seq<Seq<char>>) -> Seq<Seq<u8>> {
    s.map_values(|t: Seq<char>| utf8(t))
}

impl View for Cmd {
    type V = CmdSpec;

    open spec fn view(&self) -> CmdSpec {
        CmdSpec { program: self.program@, args: blobs(self.args@), dir: opt_path(self.dir) }
    }
}

/// The command that runs `program` on `args`, anywhere.
pub open spec fn command(program: Seq<u8>, args: Seq<Seq<u8>>) -> CmdSpec {
    CmdSpec { program, args, dir: None }
}

impl Cmd {
    /// The command that runs `program` without arguments.
    pub fn new(program: Vec<u8>) -> (r: Cmd)
        ensures
            r@ == command(program@, seq![]),
    {
        let r = Cmd { program, args: Vec::new(), dir: None };
        assert(r@ =~= command(program@, seq![]));
        r
    }

    /// Adds the argument `b`.
    fn push(&mut self, b: Vec<u8>)
        ensures
            final(self)@ == (CmdSpec { args: old(self)@.args.push(b@), ..old(self)@ }),
    {
        self.args.push(b);
        assert(self@ =~= CmdSpec { args: old(self)@.args.push(b@), ..old(self)@ });
    }

    /// Adds a text as an argument.
    pub fn text(&mut self, s: &str)
        ensures
            final(self)@ == (CmdSpec { args: old(self)@.args.push(utf8(s@)), ..old(self)@ }),
    {
        self.push(bytes_of(s));
    }

    /// Adds a path as an argument.
    pub fn path(&mut self, p: &PathBuf)
        ensures
            final(self)@ == (CmdSpec { args: old(self)@.args.push(p@), ..old(self)@ }),
    {
        self.push(copy_bytes(&p.bytes));
    }

    /// Adds each of a list of texts as an argument.
    pub fn texts(&mut self, v: &Vec<String>)
        ensures
            final(self)@ == (CmdSpec {
                args: old(self)@.args + utf8_each(texts(v@)),
                ..old(self)@
            }),
    {
        let ghost before = self@;
        let ghost all = utf8_each(texts(v@));
        let mut i: usize = 0;
        assert(before.args + all.take(0) =~= before.args);
        while i < v.len()
            invariant
                i <= v.len(),
                all == utf8_each(texts(v@)),
                self@ == (CmdSpec { args: before.args + all.take(i as int), ..before }),
            decreases v.len() - i,
        {
            self.text(v[i].as_str());
            proof {
                assert(all[i as int] == utf8(v@[i as int]@));
                assert(before.args + all.take(i + 1) =~= (before.args + all.take(i as int)).push(
                    all[i as int],
                ));
            }
            i = i + 1;
        }
        assert(all.take(i as int) =~= all);
    }

    /// Adds each of a list of paths as an argument.
    pub fn paths(&mut self, v: &Vec<PathBuf>)
        ensures
            final(self)@ == (CmdSpec { args: old(self)@.args + paths(v@), ..old(self)@ }),
    {
        let ghost before = self@;
        let ghost all = paths(v@);
        let mut i: usize = 0;
        assert(before.args + all.take(0) =~= before.args);
        while i < v.len()
            invariant
                i <= v.len(),
                all == paths(v@),
                self@ == (CmdSpec { args: before.args + all.take(i as int), ..before }),
            decreases v.len() - i,
        {
            self.path(&v[i]);
            proof {
                assert(all[i as int] == v@[i as int]@);
                assert(before.args + all.take(i + 1) =~= (before.args + all.take(i as int)).push(
                    all[i as int],
                ));
            }
            i = i + 1;
        }
        assert(all.take(i as int) =~= all);
    }
}

/// What is to be done about a command that has ended.
#[derive(Clone, Copy, Debug, PartialEq, Eq, Structural)]
pub struct Verdict {
    /// Show what it wrote to its standard error.
    pub show_stderr: bool,
    /// Give up.
    pub fail: bool,
}

/// What is to be done about a command that has ended: a failed one ends the link, with its
/// complaints shown; those of a successful one are shown where commands are logged.
pub fn verdict(verbose: bool, success: bool, stderr: &Vec<u8>) -> (r: Verdict)
    ensures
        r.fail == !success,
        r.show_stderr == (!success || (verbose && stderr@.len() > 0)),
{
    Verdict { show_stderr: !success || (verbose && stderr.len() > 0), fail: !success }
}

/// What a command is: its program, its arguments one for one, and its directory.
pub proof fn law_command(c: Cmd, v: Seq<Seq<char>>, program: Seq<u8>, args: Seq<Seq<u8>>)
    ensures
        c@.program == c.program@,
        c@.args.len() == c.args@.len(),
        forall|i: int| 0 <= i < c.args@.len() ==> #[trigger] c@.args[i] == c.args@[i]@,
        c@.dir is None <==> c.dir is None,
        c.dir is Some ==> c@.dir == Some(c.dir->0.bytes@),
        utf8_each(v).len() == v.len(),
        forall|i: int| 0 <= i < v.len() ==> #[trigger] utf8_each(v)[i] == utf8(v[i]),
        command(program, args).program == program,
        command(program, args).args == args,
        command(program, args).dir is None,
{
}

} // verus!
