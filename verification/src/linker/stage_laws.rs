//! What holds of the commands of the stages, one by one and of one with the next.
use vstd::prelude::*;

use crate::linker::command::{utf8_each, CmdSpec};
use crate::linker::stages::Session;
use crate::path::{law_utf8, utf8};

verus! {

/// What two texts begin with can be taken off.
proof fn lemma_same_front(p: Seq<char>, a: Seq<char>, b: Seq<char>)
    requires
        utf8(p + a) == utf8(p + b),
    ensures
        a == b,
{
    law_utf8(p + a, p + b);
    assert(a =~= (p + a).skip(p.len() as int));
    assert(b =~= (p + b).skip(p.len() as int));
}

/// Where the intermediate files are: in a directory beside the output, whose name is that of the
/// output and `.arena-linker`; each under its own name; and the passes in `scripts` below it.
pub proof fn law_intermediate_paths(s: Session, name: Seq<char>, other: Seq<char>)
    requires
        utf8(name).len() > 0 && utf8(name)[0] != 0x2F,
        utf8(other).len() > 0 && utf8(other)[0] != 0x2F,
    ensures
        s.temp_dir() == s.opts.output.bytes@ + utf8(".arena-linker"@),
        s.file_path(name) == s.temp_dir() + seq![0x2Fu8] + utf8(name),
        s.script_path(name) == s.file_path("scripts"@) + seq![0x2Fu8] + utf8(name),
        s.file_path(name) == s.file_path(other) <==> name == other,
        s.script_path(name) == s.script_path(other) <==> name == other,
{
    reveal_strlit(".arena-linker");
    reveal_strlit("scripts");
    vstd::utf8::is_ascii_chars_encode_utf8(".arena-linker"@);
    vstd::utf8::is_ascii_chars_encode_utf8("scripts"@);
    let t = s.temp_dir();
    assert(t.last() == utf8(".arena-linker"@).last());
    assert(".arena-linker"@.last() == 'r');
    assert("scripts"@[0] == 's' && "scripts"@.last() == 's');
    let d = s.file_path("scripts"@);
    assert(d =~= t + seq![0x2Fu8] + utf8("scripts"@));
    assert(d.last() == utf8("scripts"@).last());
    law_utf8(name, other);
    let f = s.file_path(name);
    let g = s.file_path(other);
    assert(f =~= t + seq![0x2Fu8] + utf8(name));
    assert(g =~= t + seq![0x2Fu8] + utf8(other));
    assert(utf8(name) =~= f.skip(t.len() as int + 1));
    assert(utf8(other) =~= g.skip(t.len() as int + 1));
    let p = s.script_path(name);
    let q = s.script_path(other);
    assert(p =~= d + seq![0x2Fu8] + utf8(name));
    assert(q =~= d + seq![0x2Fu8] + utf8(other));
    assert(utf8(name) =~= p.skip(d.len() as int + 1));
    assert(utf8(other) =~= q.skip(d.len() as int + 1));
}

/// A link of another output has other intermediate files.
pub proof fn law_outputs_have_their_own_files(s: Session, t: Session)
    ensures
        s.temp_dir() == t.temp_dir() <==> s.opts.output.bytes@ == t.opts.output.bytes@,
{
    let n = utf8(".arena-linker"@).len();
    let a = s.temp_dir();
    let b = t.temp_dir();
    assert(s.opts.output.bytes@ =~= a.take(a.len() - n));
    assert(t.opts.output.bytes@ =~= b.take(b.len() - n));
}

/// Whether the last two arguments of a command are `-o` and `file`.
pub open spec fn puts_out(c: CmdSpec, file: Seq<u8>) -> bool {
    c.args.len() >= 2 && c.args[c.args.len() - 2] == utf8("-o"@) && c.args.last() == file
}

/// All of the program's bitcode is linked, then all of libarena's, in the order given, and nothing
/// else.
pub proof fn law_everything_is_linked(s: Session, rust: Seq<Seq<u8>>, arena: Seq<Seq<u8>>)
    ensures
        s.link_cmd(rust, arena).program == s.tools.program("llvm-link"@),
        s.link_cmd(rust, arena).args.len() == rust.len() + arena.len() + 2,
        forall|i: int|
            0 <= i < rust.len() ==> s.link_cmd(rust, arena).args[i] == #[trigger] rust[i],
        forall|i: int|
            0 <= i < arena.len() ==> s.link_cmd(rust, arena).args[rust.len() + i]
                == #[trigger] arena[i],
        puts_out(s.link_cmd(rust, arena), s.file_path("linked.bc"@)),
        s.nm_cmd(arena).program == s.tools.program("llvm-nm"@),
        s.nm_cmd(arena).args.len() == arena.len() + 1,
        s.nm_cmd(arena).args[0] == utf8("--defined-only"@),
        forall|i: int|
            0 <= i < arena.len() ==> s.nm_cmd(arena).args[1 + i] == #[trigger] arena[i],
{
}

/// A pass is run by the interpreter, with its path and the file twice: it reads the file and puts
/// its own there.
pub proof fn law_passes_work_in_place(s: Session, script: Seq<u8>, name: Seq<char>)
    ensures
        ({
            let c = s.pass_cmd(script, name);
            &&& c.program == utf8(s.tools.python@)
            &&& c.args.len() == 3
            &&& c.args[0] == script
            &&& c.args[1] == s.file_path(name)
            &&& c.args[2] == s.file_path(name)
        }),
{
}

/// A module is disassembled from the one file into the other.
pub proof fn law_disassembly(s: Session, from: Seq<char>, to: Seq<char>)
    ensures
        s.dis_cmd(from, to).program == s.tools.program("llvm-dis"@),
        s.dis_cmd(from, to).args.len() == 3,
        s.dis_cmd(from, to).args[0] == s.file_path(from),
        puts_out(s.dis_cmd(from, to), s.file_path(to)),
{
}

/// The pass that decides on what is kept is given the linked module and the list of libarena's
/// functions; after `--extra` every symbol of the extra ones, in order, where there are any; and
/// that void functions are to go just where they are.
pub proof fn law_keep_command(s: Session, extra: Seq<Seq<char>>)
    ensures
        ({
            let c = s.keep_cmd(extra);
            let n = if extra.len() > 0 {
                1 + extra.len() as int
            } else {
                0
            };
            let drop_void = s.env.void_globals is None || s.env.void_globals->0@.len() == 0
                || s.env.void_globals->0@ == "internalize"@;
            &&& c.program == utf8(s.tools.python@)
            &&& c.args[0] == s.script_path("keep_syms.py"@)
            &&& c.args[1] == s.file_path("stage0.ll"@)
            &&& c.args[2] == utf8("--nm-list"@)
            &&& c.args[3] == s.file_path("arena_syms.txt"@)
            &&& extra.len() > 0 ==> c.args[4] == utf8("--extra"@)
            &&& forall|i: int| 0 <= i < extra.len() ==> c.args[5 + i] == utf8(#[trigger] extra[i])
            &&& drop_void ==> c.args.len() == 5 + n && c.args.last() == utf8(
                "--drop-void-globals"@,
            )
            &&& !drop_void ==> c.args.len() == 4 + n
        }),
{
    let c = s.keep_cmd(extra);
    assert forall|i: int| 0 <= i < extra.len() implies c.args[5 + i] == utf8(
        #[trigger] extra[i],
    ) by {
        assert(c.args[5 + i] == utf8_each(extra)[i]);
    }
}

/// Internalizing names every symbol to keep, in order, and no other; takes the module of the passes
/// and puts out the next. Two lists of symbols never give the same command.
pub proof fn law_internalize_command(s: Session, keep: Seq<Seq<char>>, other: Seq<Seq<char>>)
    ensures
        ({
            let c = s.internalize_cmd(keep);
            let n = keep.len() as int;
            &&& c.program == s.tools.program("opt"@)
            &&& c.args.len() == n + 5
            &&& forall|i: int|
                0 <= i < n ==> c.args[i] == utf8(
                    "--internalize-public-api-list="@ + #[trigger] keep[i],
                )
            &&& c.args[n] == utf8("--force-remove-attribute=cold"@)
            &&& c.args[n + 1] == utf8("-passes=forceattrs,internalize,globaldce"@)
            &&& c.args[n + 2] == s.file_path("stage0.ll"@)
            &&& puts_out(c, s.file_path("stage1.bc"@))
        }),
        s.internalize_cmd(keep) == s.internalize_cmd(other) <==> keep == other,
{
    let c = s.internalize_cmd(keep);
    let d = s.internalize_cmd(other);
    assert forall|i: int| 0 <= i < keep.len() implies c.args[i] == utf8(
        "--internalize-public-api-list="@ + #[trigger] keep[i],
    ) by {}
    if c == d {
        assert(c.args.len() == keep.len() + 5 && d.args.len() == other.len() + 5);
        assert forall|i: int| 0 <= i < keep.len() implies keep[i] == other[i] by {
            assert(c.args[i] == utf8("--internalize-public-api-list="@ + keep[i]));
            assert(d.args[i] == utf8("--internalize-public-api-list="@ + other[i]));
            lemma_same_front("--internalize-public-api-list="@, keep[i], other[i]);
        }
        assert(keep =~= other);
    }
}

/// Marking for inlining takes the internalized module and the list of what is not inlined; the
/// optimizer takes what it put out, with every flag that it printed, in order and before the passes.
/// Two lists of flags never give the same command.
pub proof fn law_inline_and_optimize_commands(
    s: Session,
    flags: Seq<Seq<char>>,
    other: Seq<Seq<char>>,
)
    ensures
        ({
            let c = s.force_inline_cmd();
            &&& c.program == utf8(s.tools.python@)
            &&& c.args.len() == 4
            &&& c.args[0] == s.script_path("force_inline.py"@)
            &&& c.args[1] == s.file_path("stage1.ll"@)
            &&& c.args[2] == s.file_path("stage2.ll"@)
            &&& c.args[3] == s.file_path("noinline.txt"@)
        }),
        ({
            let c = s.optimize_cmd(flags);
            let n = flags.len() as int;
            &&& c.program == s.tools.program("opt"@)
            &&& c.args.len() == n + 4
            &&& forall|i: int| 0 <= i < n ==> c.args[i] == utf8(#[trigger] flags[i])
            &&& c.args[n] == utf8("-passes=forceattrs,always-inline,globaldce,default<O2>"@)
            &&& c.args[n + 1] == s.file_path("stage2.ll"@)
            &&& puts_out(c, s.file_path("stage3.bc"@))
        }),
        s.optimize_cmd(flags) == s.optimize_cmd(other) <==> flags == other,
{
    let c = s.optimize_cmd(flags);
    let d = s.optimize_cmd(other);
    assert forall|i: int| 0 <= i < flags.len() implies c.args[i] == utf8(#[trigger] flags[i]) by {
        assert(c.args[i] == utf8_each(flags)[i]);
    }
    if c == d {
        assert(c.args.len() == flags.len() + 4 && d.args.len() == other.len() + 4);
        assert forall|i: int| 0 <= i < flags.len() implies flags[i] == other[i] by {
            assert(c.args[i] == utf8(flags[i]));
            assert(d.args[i] == utf8_each(other)[i]);
            law_utf8(flags[i], other[i]);
        }
        assert(flags =~= other);
    }
}

/// The passes on traps work on the optimized module. The one that returns the cookie is handed it as
/// its last argument; the last pass puts out the final module, and is handed the cookie just where
/// traps are thrown.
pub proof fn law_trap_commands(s: Session, mode: Seq<char>)
    ensures
        ({
            let c = s.trap_to_ret_cmd();
            &&& c.program == utf8(s.tools.python@)
            &&& c.args.len() == 4
            &&& c.args[0] == s.script_path("trap_to_ret.py"@)
            &&& c.args[1] == s.file_path("stage3.ll"@)
            &&& c.args[2] == s.file_path("stage3.ll"@)
            &&& c.args[3] == utf8(s.env.cookie())
        }),
        ({
            let c = s.finalize_cmd(mode);
            &&& c.program == utf8(s.tools.python@)
            &&& c.args[0] == s.script_path("bpf_finalize.py"@)
            &&& c.args[1] == s.file_path("stage3.ll"@)
            &&& c.args[2] == s.file_path("final.ll"@)
            &&& mode == "throw"@ ==> c.args.len() == 4 && c.args[3] == utf8(
                "--trap-cookie="@ + s.env.cookie(),
            )
            &&& mode != "throw"@ ==> c.args.len() == 3
        }),
{
}

/// Code is generated for the processor that the command line asked for, whatever it is, from the
/// final module; and the commands of two links are the same only where both ask for the same one.
pub proof fn law_code_is_generated_for_the_processor(s: Session, t: Session)
    ensures
        ({
            let c = s.codegen_cmd();
            &&& c.program == s.tools.program("llc"@)
            &&& c.args.len() == 6
            &&& c.args.contains(utf8("-march=bpfel"@))
            &&& c.args.contains(utf8("-mcpu="@ + s.opts.cpu@))
            &&& c.args.contains(utf8("-filetype=obj"@))
            &&& c.args[3] == s.file_path("final.ll"@)
            &&& puts_out(c, s.file_path("out.o"@))
        }),
        s.codegen_cmd() == t.codegen_cmd() ==> s.opts.cpu@ == t.opts.cpu@,
{
    let c = s.codegen_cmd();
    assert(c.args[0] == utf8("-march=bpfel"@));
    assert(c.args[1] == utf8("-mcpu="@ + s.opts.cpu@));
    assert(c.args[2] == utf8("-filetype=obj"@));
    if c == t.codegen_cmd() {
        assert(c.args[1] == t.codegen_cmd().args[1]);
        lemma_same_front("-mcpu="@, s.opts.cpu@, t.opts.cpu@);
    }
}

/// The object is stripped of what unwinding needs and put where it was asked for, and mended there.
pub proof fn law_object_commands(s: Session)
    ensures
        ({
            let c = s.strip_cmd();
            &&& c.program == s.tools.program("llvm-objcopy"@)
            &&& c.args.len() == 6
            &&& c.args.contains(utf8("--remove-section=.eh_frame"@))
            &&& c.args.contains(utf8("--remove-section=.rel.eh_frame"@))
            &&& c.args.contains(utf8("--remove-section=.gcc_except_table"@))
            &&& c.args.contains(utf8("--strip-symbol=rust_eh_personality"@))
            &&& c.args[4] == s.file_path("out.o"@)
            &&& c.args[5] == s.opts.output.bytes@
        }),
        ({
            let c = s.rename_cmd();
            &&& c.program == utf8(s.tools.python@)
            &&& c.args.len() == 2
            &&& c.args[0] == s.script_path("btf_rename.py"@)
            &&& c.args[1] == s.opts.output.bytes@
        }),
{
    let a = s.strip_cmd().args;
    assert(a[0] == utf8("--remove-section=.eh_frame"@));
    assert(a[1] == utf8("--remove-section=.rel.eh_frame"@));
    assert(a[2] == utf8("--remove-section=.gcc_except_table"@));
    assert(a[3] == utf8("--strip-symbol=rust_eh_personality"@));
}

/// The first stages take what the ones before them put out: the linked module is disassembled, and
/// what comes of it is what the passes work on, what is looked at for symbols to keep, and what is
/// internalized.
pub proof fn law_first_stages_are_chained(
    s: Session,
    rust: Seq<Seq<u8>>,
    arena: Seq<Seq<u8>>,
    extra: Seq<Seq<char>>,
    script: Seq<u8>,
    keep: Seq<Seq<char>>,
)
    ensures
        ({
            let dis = s.dis_cmd("linked.bc"@, "stage0.ll"@);
            let pass = s.pass_cmd(script, "stage0.ll"@);
            let internalize = s.internalize_cmd(keep);
            &&& dis.args[0] == s.link_cmd(rust, arena).args.last()
            &&& s.keep_cmd(extra).args[1] == dis.args.last()
            &&& pass.args[1] == dis.args.last() && pass.args[2] == dis.args.last()
            &&& internalize.args[internalize.args.len() - 3] == dis.args.last()
        }),
{
    law_everything_is_linked(s, rust, arena);
    law_internalize_command(s, keep, keep);
    law_keep_command(s, extra);
}

/// The middle stages take what the ones before them put out: the internalized module is
/// disassembled and marked for inlining, what comes of that is optimized, and that is disassembled
/// for the passes that follow.
pub proof fn law_middle_stages_are_chained(
    s: Session,
    keep: Seq<Seq<char>>,
    flags: Seq<Seq<char>>,
    script: Seq<u8>,
)
    ensures
        ({
            let dis1 = s.dis_cmd("stage1.bc"@, "stage1.ll"@);
            let optimize = s.optimize_cmd(flags);
            let dis3 = s.dis_cmd("stage3.bc"@, "stage3.ll"@);
            let pass = s.pass_cmd(script, "stage3.ll"@);
            &&& dis1.args[0] == s.internalize_cmd(keep).args.last()
            &&& s.force_inline_cmd().args[1] == dis1.args.last()
            &&& optimize.args[optimize.args.len() - 3] == s.force_inline_cmd().args[2]
            &&& dis3.args[0] == optimize.args.last()
            &&& pass.args[1] == dis3.args.last() && pass.args[2] == dis3.args.last()
        }),
{
    law_internalize_command(s, keep, keep);
    law_inline_and_optimize_commands(s, flags, flags);
}

/// The last stages take what the ones before them put out: the passes on traps the optimized module,
/// code generation the final one, stripping the object, and renaming the object in its place.
pub proof fn law_last_stages_are_chained(s: Session, mode: Seq<char>)
    ensures
        ({
            let dis = s.dis_cmd("stage3.bc"@, "stage3.ll"@);
            &&& s.trap_to_ret_cmd().args[1] == dis.args.last()
            &&& s.trap_to_ret_cmd().args[2] == dis.args.last()
            &&& s.finalize_cmd(mode).args[1] == dis.args.last()
            &&& s.codegen_cmd().args[3] == s.finalize_cmd(mode).args[2]
            &&& s.strip_cmd().args[4] == s.codegen_cmd().args.last()
            &&& s.rename_cmd().args.last() == s.strip_cmd().args.last()
        }),
{
}

/// No stage depends on the directory that the linker runs in: none is run in one of its own.
pub proof fn law_stages_run_anywhere(
    s: Session,
    a: Seq<Seq<u8>>,
    b: Seq<Seq<u8>>,
    v: Seq<Seq<char>>,
    from: Seq<char>,
    to: Seq<char>,
    script: Seq<u8>,
)
    ensures
        s.nm_cmd(a).dir is None,
        s.link_cmd(a, b).dir is None,
        s.dis_cmd(from, to).dir is None,
        s.keep_cmd(v).dir is None,
        s.pass_cmd(script, from).dir is None,
        s.internalize_cmd(v).dir is None,
        s.force_inline_cmd().dir is None,
        s.optimize_cmd(v).dir is None,
        s.trap_to_ret_cmd().dir is None,
        s.finalize_cmd(from).dir is None,
        s.codegen_cmd().dir is None,
        s.strip_cmd().dir is None,
        s.rename_cmd().dir is None,
{
}

} // verus!
