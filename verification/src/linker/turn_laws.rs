//! What holds of the turns of a link, one by one.
use vstd::prelude::*;

use crate::linker::command::Cmd;
use crate::linker::env::pass_list;
use crate::linker::pipeline::{
    steps, Action, ActionSpec, Event, Phase, PhaseSpec, Step, StepSpec, Turn, TurnSpec,
};
use crate::linker::stage_laws::law_intermediate_paths;
use crate::linker::stages::Session;
use crate::linker::symbols::{
    arena_symbols, is_archive_file, is_bitcode_file, law_kept_and_arena_functions_stay_out_of_line,
    law_symbol_lists_are_read_back, names_in, sorted_bitcode_of, Member,
};
use crate::path::{joined, law_utf8, opt_path, paths, utf8, PathBuf};
use crate::text::{as_lines, decimal, law_decimal, opt_text, texts, utf8_lossy, words};

verus! {

/// A link begins by clearing the directory of the intermediate files, making it and the directory of
/// the passes in it, and putting every pass there that a later stage runs.
pub proof fn law_start(s: Session, name: Seq<char>)
    requires
        name == "lower_mem.py"@ || name == "force_inline.py"@ || name == "keep_syms.py"@ || name
            == "trap_to_ret.py"@ || name == "bpf_finalize.py"@ || name == "btf_rename.py"@,
    ensures
        ({
            let t = s.start_spec();
            let v = t.action->Perform_0;
            &&& t.phase is Setup && t.action is Perform && t.skipped is None
            &&& v.len() == 9
            &&& v[0] == StepSpec::Clear(s.temp_dir())
            &&& v[1] == StepSpec::MakeTemp(s.temp_dir())
            &&& v[2] == StepSpec::MakeDir(s.file_path("scripts"@))
            &&& v.skip(3).contains(StepSpec::Install { name, path: s.script_path(name) })
        }),
{
    let v = s.start_spec().action->Perform_0.skip(3);
    assert(v[0] == StepSpec::Install {
        name: "lower_mem.py"@,
        path: s.script_path("lower_mem.py"@),
    });
    assert(v[1] == StepSpec::Install {
        name: "force_inline.py"@,
        path: s.script_path("force_inline.py"@),
    });
    assert(v[2] == StepSpec::Install {
        name: "keep_syms.py"@,
        path: s.script_path("keep_syms.py"@),
    });
    assert(v[3] == StepSpec::Install {
        name: "trap_to_ret.py"@,
        path: s.script_path("trap_to_ret.py"@),
    });
    assert(v[4] == StepSpec::Install {
        name: "bpf_finalize.py"@,
        path: s.script_path("bpf_finalize.py"@),
    });
    assert(v[5] == StepSpec::Install {
        name: "btf_rename.py"@,
        path: s.script_path("btf_rename.py"@),
    });
}

/// Whether a link that has found the bitcode `found` in the first `n` inputs goes on: with the
/// contents of the next input where there is one; else with a look for libarena's archive in the
/// first library directory; and where there is none, it fails.
pub open spec fn goes_on(s: Session, t: TurnSpec, n: int, found: Seq<Seq<u8>>) -> bool {
    if n < s.opts.inputs@.len() {
        t.phase == (PhaseSpec::Gather { next: n as usize, found }) && t.action == ActionSpec::Read(
            s.opts.inputs@[n].bytes@,
        )
    } else if s.opts.lib_dirs@.len() > 0 {
        t.phase == (PhaseSpec::Locate { next: 0, found }) && t.action == ActionSpec::Exists(
            joined(s.opts.lib_dirs@[0].bytes@, utf8("libarena_c.a"@)),
        )
    } else {
        t.phase is Over && t.action == ActionSpec::Die(
            "libarena_c.a not found in any -L directory: is libarena-rs a dependency (its build.rs produces it)?"@,
        )
    }
}

/// Once the directories and the passes are there, a link begins with its first input and has found
/// nothing.
pub proof fn law_gathering_begins(s: Session, event: Event)
    ensures
        goes_on(s, s.next_spec(Phase::Setup, event), 0, seq![]),
        s.next_spec(Phase::Setup, event).skipped is None,
{
}

/// An input that is bitcode is added as it is; an archive is unpacked into a directory of its own;
/// any other is passed over, which is told where commands are logged and only there.
pub proof fn law_input_is_read(
    s: Session,
    next: usize,
    found: Seq<Seq<u8>>,
    contents: Option<Vec<u8>>,
)
    requires
        next < s.opts.inputs@.len(),
    ensures
        ({
            let t = s.next_spec(Phase::Gather { next, found }, Event::Contents(contents));
            let input = s.opts.inputs@[next as int].bytes@;
            &&& is_bitcode_file(contents) ==> goes_on(s, t, next + 1, found.push(input))
                && t.skipped is None
            &&& !is_bitcode_file(contents) && is_archive_file(contents) ==> {
                &&& t.phase == (PhaseSpec::Unpack { next, found })
                &&& t.action == (ActionSpec::Unpack {
                    archive: input,
                    dir: s.file_path("rlib"@ + decimal(next as nat)),
                })
                &&& t.skipped is None
            }
            &&& !is_bitcode_file(contents) && !is_archive_file(contents) ==> {
                &&& goes_on(s, t, next + 1, found)
                &&& t.skipped == if s.env.verbose is Some && s.env.verbose->0@.len() > 0 {
                    Some(input)
                } else {
                    None
                }
            }
        }),
{
}

/// The members of an archive that are bitcode are added in order, after what was found, and the link
/// goes on with the next input.
pub proof fn law_archive_is_read(
    s: Session,
    next: usize,
    found: Seq<Seq<u8>>,
    members: Vec<Member>,
)
    requires
        next < s.opts.inputs@.len(),
    ensures
        goes_on(
            s,
            s.next_spec(Phase::Unpack { next, found }, Event::Members(members)),
            next + 1,
            found + sorted_bitcode_of(members@),
        ),
        s.next_spec(Phase::Unpack { next, found }, Event::Members(members)).skipped is None,
{
}

/// No two inputs are unpacked into the same directory, and none into that of libarena's archive.
pub proof fn law_archives_are_kept_apart(s: Session, i: nat, j: nat)
    ensures
        s.rlib_dir(i as int) == s.rlib_dir(j as int) <==> i == j,
        s.rlib_dir(i as int) != s.file_path("arena_c"@),
        s.rlib_dir(i as int) != s.file_path("scripts"@),
{
    reveal_strlit("rlib");
    reveal_strlit("arena_c");
    reveal_strlit("scripts");
    law_decimal(i);
    law_decimal(j);
    let a = "rlib"@ + decimal(i);
    let b = "rlib"@ + decimal(j);
    assert(a.skip(4) =~= decimal(i));
    assert(b.skip(4) =~= decimal(j));
    assert(a[0] == 'r' && "arena_c"@[0] == 'a' && "scripts"@[0] == 's');
    assert(a.take(4) =~= "rlib"@ && b.take(4) =~= "rlib"@);
    lemma_first_byte(a);
    lemma_first_byte(b);
    vstd::utf8::is_ascii_chars_encode_utf8("arena_c"@);
    vstd::utf8::is_ascii_chars_encode_utf8("scripts"@);
    law_utf8(a, b);
    law_utf8(a, "arena_c"@);
    law_utf8(a, "scripts"@);
    law_intermediate_paths(s, a, b);
    law_intermediate_paths(s, a, "arena_c"@);
    law_intermediate_paths(s, a, "scripts"@);
}

/// The bytes of a text begin with no separator where its characters are letters and digits.
proof fn lemma_first_byte(a: Seq<char>)
    requires
        a.len() > 4,
        a.take(4) == "rlib"@,
        forall|i: int| 4 <= i < a.len() ==> '0' as int <= (#[trigger] a[i]) as int <= '9' as int,
    ensures
        utf8(a).len() > 0,
        utf8(a)[0] != 0x2F,
{
    reveal_strlit("rlib");
    assert(a.take(4)[0] == a[0] && a.take(4)[1] == a[1]);
    assert(a.take(4)[2] == a[2] && a.take(4)[3] == a[3]);
    assert(vstd::utf8::is_ascii_chars(a));
    vstd::utf8::is_ascii_chars_encode_utf8(a);
}

/// libarena's archive is the first that there is in the library directories, in their order; without
/// one the link fails.
pub proof fn law_first_archive_is_taken(
    s: Session,
    next: usize,
    found: Seq<Seq<u8>>,
    there: bool,
)
    requires
        next < s.opts.lib_dirs@.len(),
    ensures
        ({
            let t = s.next_spec(Phase::Locate { next, found }, Event::Exists(there));
            let here = joined(s.opts.lib_dirs@[next as int].bytes@, utf8("libarena_c.a"@));
            &&& there ==> t.phase == (PhaseSpec::UnpackArena { found }) && t.action == (
            ActionSpec::Unpack { archive: here, dir: s.file_path("arena_c"@) })
            &&& !there && next + 1 < s.opts.lib_dirs@.len() ==> t.phase == (PhaseSpec::Locate {
                next: (next + 1) as usize,
                found,
            }) && t.action == ActionSpec::Exists(
                joined(s.opts.lib_dirs@[next + 1].bytes@, utf8("libarena_c.a"@)),
            )
            &&& !there && next + 1 == s.opts.lib_dirs@.len() ==> t.phase is Over && t.action
                == ActionSpec::Die(
                "libarena_c.a not found in any -L directory: is libarena-rs a dependency (its build.rs produces it)?"@,
            )
            &&& t.skipped is None
        }),
{
}

/// With libarena's members the link fails just where there is no bitcode of the program or none of
/// libarena; else libarena's functions are listed, from all of its bitcode.
pub proof fn law_arena_is_read(
    s: Session,
    found: Seq<Seq<u8>>,
    members: Vec<Member>,
)
    ensures
        ({
            let t = s.next_spec(Phase::UnpackArena { found }, Event::Members(members));
            let arena = sorted_bitcode_of(members@);
            &&& t.action is Die <==> found.len() == 0 || arena.len() == 0
            &&& t.action is Die ==> t.phase is Over && t.action->Die_0 == "no bitcode inputs"@
            &&& !(t.action is Die) ==> t.phase == (PhaseSpec::Symbols { found, arena })
                && t.action == ActionSpec::Perform(seq![StepSpec::Run(s.nm_cmd(arena))])
        }),
{
}

/// From the list that was printed, libarena's functions are written down so that they can be read
/// back; then everything that was found is linked, and disassembled.
pub proof fn law_symbols_are_written(
    s: Session,
    found: Seq<Seq<u8>>,
    arena: Seq<Seq<u8>>,
    printed: Vec<u8>,
)
    ensures
        ({
            let t = s.next_spec(Phase::Symbols { found, arena }, Event::Output(printed));
            let v = t.action->Perform_0;
            let syms = arena_symbols(utf8_lossy(printed@));
            &&& t.phase == (PhaseSpec::Linked { syms }) && t.action is Perform
            &&& v.len() == 3
            &&& v[0] is Write && v[0]->Write_path == s.file_path("arena_syms.txt"@)
            &&& words(v[0]->text) == syms && v[0]->text == as_lines(syms)
            &&& v[1] == StepSpec::Run(s.link_cmd(found, arena))
            &&& v[2] == StepSpec::Run(s.dis_cmd("linked.bc"@, "stage0.ll"@))
        }),
{
    law_symbol_lists_are_read_back(utf8_lossy(printed@), seq![]);
}

/// After linking, the list of exports is read where rustc names one; and the pass that decides on
/// what is kept is handed the exports, then the extra symbols.
pub proof fn law_exports_are_read(
    s: Session,
    syms: Seq<Seq<char>>,
    event: Event,
    text: Option<String>,
)
    ensures
        ({
            let t = s.next_spec(Phase::Linked { syms }, event);
            &&& s.opts.export_symbols is Some ==> t.phase == (PhaseSpec::Exports { syms })
                && t.action == ActionSpec::ReadText(s.opts.export_symbols->0.bytes@)
            &&& s.opts.export_symbols is None ==> t.phase == (PhaseSpec::Keep { syms }) && t.action
                == ActionSpec::Perform(seq![StepSpec::Run(s.keep_cmd(s.env.extra_symbols()))])
        }),
        ({
            let t = s.next_spec(Phase::Exports { syms }, Event::Text(text));
            &&& t.phase == (PhaseSpec::Keep { syms })
            &&& t.action == ActionSpec::Perform(
                seq![
                    StepSpec::Run(
                        s.keep_cmd(names_in(opt_text(text)) + s.env.extra_symbols()),
                    ),
                ],
            )
        }),
{
    assert(Seq::<Seq<char>>::empty() + s.env.extra_symbols() =~= s.env.extra_symbols());
}

/// From the symbols that were printed, the list of what is kept is written down just as they are,
/// and the list of what stays out of line with them and libarena's functions, and no others; then
/// come the passes, internalizing, and inlining.
pub proof fn law_kept_symbols_are_written(
    s: Session,
    syms: Seq<Seq<char>>,
    printed: Vec<u8>,
    name: Seq<char>,
)
    requires
        exists|nm: Seq<char>| syms == #[trigger] arena_symbols(nm),
    ensures
        ({
            let t = s.next_spec(Phase::Keep { syms }, Event::Output(printed));
            let v = t.action->Perform_0;
            let keep = words(utf8_lossy(printed@));
            let n = pass_list(s.env.pre_passes).len() as int;
            &&& t.phase is Force && t.action is Perform
            &&& v.len() == n + 6
            &&& v[0] is Write && v[0]->Write_path == s.file_path("keep.txt"@)
            &&& words(v[0]->text) == keep
            &&& v[1] is Write && v[1]->Write_path == s.file_path("noinline.txt"@)
            &&& words(v[1]->text).contains(name) <==> keep.contains(name) || syms.contains(name)
            &&& v[2] == StepSpec::Run(
                s.pass_cmd(s.script_path("lower_mem.py"@), "stage0.ll"@),
            )
            &&& v[3 + n] == StepSpec::Run(s.internalize_cmd(keep))
            &&& v[4 + n] == StepSpec::Run(s.dis_cmd("stage1.bc"@, "stage1.ll"@))
            &&& v[5 + n] == StepSpec::Run(s.force_inline_cmd())
        }),
{
    let nm = choose|nm: Seq<char>| syms == #[trigger] arena_symbols(nm);
    let kept = utf8_lossy(printed@);
    law_symbol_lists_are_read_back(nm, kept);
    law_kept_and_arena_functions_stay_out_of_line(words(kept), syms, name);
}

/// From the flags that were printed, the module is optimized with all of them and disassembled, and
/// the later passes follow.
pub proof fn law_flags_are_handed_on(s: Session, printed: Vec<u8>)
    ensures
        ({
            let t = s.next_spec(Phase::Force, Event::Output(printed));
            let v = t.action->Perform_0;
            &&& t.phase is Optimized && t.action is Perform
            &&& v.len() == 2 + pass_list(s.env.post_passes).len()
            &&& v[0] == StepSpec::Run(s.optimize_cmd(words(utf8_lossy(printed@))))
            &&& v[1] == StepSpec::Run(s.dis_cmd("stage3.bc"@, "stage3.ll"@))
        }),
{
}

/// The last steps of a link where traps leave by `mode`.
pub open spec fn ends_by(s: Session, t: TurnSpec, mode: Seq<char>) -> bool {
    let v = t.action->Perform_0;
    &&& t.phase is Finish && t.action is Perform
    &&& v.len() == if mode == "ret"@ {
        5int
    } else {
        4
    }
    &&& mode == "ret"@ ==> v[0] == StepSpec::Run(s.trap_to_ret_cmd())
    &&& v[v.len() - 4] == StepSpec::Run(s.finalize_cmd(mode))
    &&& v[v.len() - 3] == StepSpec::Run(s.codegen_cmd())
    &&& v[v.len() - 2] == StepSpec::Run(s.strip_cmd())
    &&& v[v.len() - 1] == StepSpec::Run(s.rename_cmd())
}

/// Where the way of traps is given, the link ends by it, whatever it is; where it is `auto`, or none
/// is given and no kernel header either, the running kernel is asked, and traps are returned just
/// where it shows that it has no unwinder for them, and thrown otherwise.
pub proof fn law_traps_leave_as_wanted(s: Session, event: Event, has_config: bool, orc: bool)
    ensures
        ({
            let t = s.next_spec(Phase::Optimized, event);
            let mode = s.env.trap_mode;
            let header = s.env.vmlinux_h;
            let given = mode is Some && mode->0@.len() > 0;
            let other_kernel = header is Some && header->0@.len() > 0;
            &&& given && mode->0@ != "auto"@ ==> ends_by(s, t, mode->0@)
            &&& !given && other_kernel ==> ends_by(s, t, "throw"@)
            &&& given && mode->0@ == "auto"@ || !given && !other_kernel ==> t.phase is Probing
                && t.action is Probe
            &&& given && mode->0@ == "auto"@ || !given && !other_kernel ==> ends_by(
                s,
                s.next_spec(Phase::Probing, Event::Kernel { has_config, orc }),
                if has_config && !orc {
                    "ret"@
                } else {
                    "throw"@
                },
            )
        }),
{
    reveal_strlit("auto");
    reveal_strlit("throw");
    assert("auto"@.len() != "throw"@.len());
}

/// Once the object is there the link is over, and its intermediate files go unless they are kept.
pub proof fn law_link_is_over(s: Session, event: Event)
    ensures
        s.next_spec(Phase::Finish, event).phase is Over,
        s.next_spec(Phase::Finish, event).action == ActionSpec::Done(
            if s.env.keep_temps is Some && s.env.keep_temps->0@.len() > 0 {
                None
            } else {
                Some(s.temp_dir())
            },
        ),
{
}

/// A step is what it says, with every path and text that it holds, and every command whole.
pub proof fn law_steps(
    p: PathBuf,
    text: String,
    c: Cmd,
    v: Seq<Step<PathBuf, String, Cmd>>,
)
    ensures
        Step::<PathBuf, String, Cmd>::Clear(p)@ == StepSpec::Clear(p.bytes@),
        Step::<PathBuf, String, Cmd>::MakeTemp(p)@ == StepSpec::MakeTemp(p.bytes@),
        Step::<PathBuf, String, Cmd>::MakeDir(p)@ == StepSpec::MakeDir(p.bytes@),
        (Step::<PathBuf, String, Cmd>::Install { name: text, path: p })@ == (StepSpec::Install {
            name: text@,
            path: p.bytes@,
        }),
        (Step::<PathBuf, String, Cmd>::Write { path: p, text })@ == (StepSpec::Write {
            path: p.bytes@,
            text: text@,
        }),
        Step::<PathBuf, String, Cmd>::Run(c)@ == StepSpec::Run(c@),
        steps(v).len() == v.len(),
        forall|i: int| 0 <= i < v.len() ==> #[trigger] steps(v)[i] == v[i]@,
{
}

/// An action is what it says, with every path and text that it holds, and every step.
pub proof fn law_actions(
    p: PathBuf,
    q: PathBuf,
    text: String,
    v: Vec<Step<PathBuf, String, Cmd>>,
    dir: Option<PathBuf>,
)
    ensures
        Action::<PathBuf, Vec<Step<PathBuf, String, Cmd>>, String>::Perform(v)@
            == ActionSpec::Perform(steps(v@)),
        Action::<PathBuf, Vec<Step<PathBuf, String, Cmd>>, String>::Read(p)@ == ActionSpec::Read(
            p.bytes@,
        ),
        (Action::<PathBuf, Vec<Step<PathBuf, String, Cmd>>, String>::Unpack {
            archive: p,
            dir: q,
        })@ == (ActionSpec::Unpack { archive: p.bytes@, dir: q.bytes@ }),
        Action::<PathBuf, Vec<Step<PathBuf, String, Cmd>>, String>::Exists(p)@
            == ActionSpec::Exists(p.bytes@),
        Action::<PathBuf, Vec<Step<PathBuf, String, Cmd>>, String>::ReadText(p)@
            == ActionSpec::ReadText(p.bytes@),
        Action::<PathBuf, Vec<Step<PathBuf, String, Cmd>>, String>::Probe@ == ActionSpec::Probe,
        Action::<PathBuf, Vec<Step<PathBuf, String, Cmd>>, String>::Done(dir)@
            == ActionSpec::Done(opt_path(dir)),
        Action::<PathBuf, Vec<Step<PathBuf, String, Cmd>>, String>::Die(text)@ == ActionSpec::Die(
            text@,
        ),
{
}

/// A phase is what it says, with everything that was found.
pub proof fn law_phases(next: usize, found: Vec<PathBuf>, arena: Vec<PathBuf>, syms: Vec<String>)
    ensures
        Phase::<Vec<PathBuf>, Vec<String>>::Setup@ == PhaseSpec::Setup,
        (Phase::<Vec<PathBuf>, Vec<String>>::Gather { next, found })@ == (PhaseSpec::Gather {
            next,
            found: paths(found@),
        }),
        (Phase::<Vec<PathBuf>, Vec<String>>::Unpack { next, found })@ == (PhaseSpec::Unpack {
            next,
            found: paths(found@),
        }),
        (Phase::<Vec<PathBuf>, Vec<String>>::Locate { next, found })@ == (PhaseSpec::Locate {
            next,
            found: paths(found@),
        }),
        (Phase::<Vec<PathBuf>, Vec<String>>::UnpackArena { found })@ == (PhaseSpec::UnpackArena {
            found: paths(found@),
        }),
        (Phase::<Vec<PathBuf>, Vec<String>>::Symbols { found, arena })@ == (PhaseSpec::Symbols {
            found: paths(found@),
            arena: paths(arena@),
        }),
        (Phase::<Vec<PathBuf>, Vec<String>>::Linked { syms })@ == (PhaseSpec::Linked {
            syms: texts(syms@),
        }),
        (Phase::<Vec<PathBuf>, Vec<String>>::Exports { syms })@ == (PhaseSpec::Exports {
            syms: texts(syms@),
        }),
        (Phase::<Vec<PathBuf>, Vec<String>>::Keep { syms })@ == (PhaseSpec::Keep {
            syms: texts(syms@),
        }),
        Phase::<Vec<PathBuf>, Vec<String>>::Force@ == PhaseSpec::Force,
        Phase::<Vec<PathBuf>, Vec<String>>::Optimized@ == PhaseSpec::Optimized,
        Phase::<Vec<PathBuf>, Vec<String>>::Probing@ == PhaseSpec::Probing,
        Phase::<Vec<PathBuf>, Vec<String>>::Finish@ == PhaseSpec::Finish,
        Phase::<Vec<PathBuf>, Vec<String>>::Over@ == PhaseSpec::Over,
{
}

/// A turn is its action, its phase, and the input that it passes over.
pub proof fn law_turns(t: Turn)
    ensures
        t@.action == t.action@,
        t@.phase == t.phase@,
        t.skipped is None <==> t@.skipped is None,
        t.skipped is Some ==> t@.skipped == Some(t.skipped->0.bytes@),
{
}

} // verus!
