//! What holds of every link.
use vstd::prelude::*;

use crate::linker::command::utf8_each;
use crate::linker::env::pass_list;
use crate::linker::pipeline::{
    pass_steps, Action, ActionSpec, Event, Phase, PhaseSpec, StepSpec, TurnSpec,
};
use crate::linker::stages::{keep_flags, Session};
use crate::linker::symbols::{is_bitcode_file, sorted_bitcode_of};
use crate::path::utf8;
use crate::text::words;

verus! {

/// Whether `event` is an answer to `action`.
pub open spec fn answers(action: ActionSpec, event: Event) -> bool {
    match action {
        Action::Perform(_) => event is Output,
        Action::Read(_) => event is Contents,
        Action::Unpack { .. } => event is Members,
        Action::Exists(_) => event is Exists,
        Action::ReadText(_) => event is Text,
        Action::Probe => event is Kernel,
        Action::Done(_) => false,
        Action::Die(_) => false,
    }
}

/// Whether the link that takes the turn `t` waits for just the answers to its action.
pub open spec fn waits_for_its_answer(s: Session, t: TurnSpec) -> bool {
    forall|e: Event| #[trigger] answers(t.action, e) <==> s.awaits(t.phase, e)
}

/// A link always waits for an answer to what it asked, and for nothing else: from the first turn
/// on, and after every turn.
pub proof fn law_answers_are_awaited(s: Session, phase: PhaseSpec, event: Event)
    requires
        s.awaits(phase, event),
    ensures
        waits_for_its_answer(s, s.start_spec()),
        waits_for_its_answer(s, s.next_spec(phase, event)),
{
    lemma_lengths_fit(s);
}

/// The lists of the command line fit in memory.
proof fn lemma_lengths_fit(s: Session)
    ensures
        s.opts@.inputs.len() <= usize::MAX,
        s.opts@.lib_dirs.len() <= usize::MAX,
{
    assert(s.opts.inputs@.len() == s.opts.inputs.len());
    assert(s.opts.lib_dirs@.len() == s.opts.lib_dirs.len());
}

/// How many turns a link in `phase` can still take, at most.
pub open spec fn turns_left(s: Session, phase: PhaseSpec) -> int {
    let inputs = s.opts@.inputs.len() as int;
    let dirs = s.opts@.lib_dirs.len() as int;
    match phase {
        Phase::Setup => 2 * inputs + dirs + 12,
        Phase::Gather { next, .. } => 2 * (inputs - next) + dirs + 11,
        Phase::Unpack { next, .. } => 2 * (inputs - next) + dirs + 10,
        Phase::Locate { next, .. } => (dirs - next) + 10,
        Phase::UnpackArena { .. } => 9,
        Phase::Symbols { .. } => 8,
        Phase::Linked { .. } => 7,
        Phase::Exports { .. } => 6,
        Phase::Keep { .. } => 5,
        Phase::Force => 4,
        Phase::Optimized => 3,
        Phase::Probing => 2,
        Phase::Finish => 1,
        Phase::Over => 0,
    }
}

/// Every turn brings a link closer to its end, which it reaches after finitely many of them,
/// whatever the answers are.
pub proof fn law_every_link_ends(s: Session, phase: PhaseSpec, event: Event)
    requires
        s.awaits(phase, event),
    ensures
        0 <= turns_left(s, s.next_spec(phase, event).phase) < turns_left(s, phase),
        turns_left(s, phase) <= 2 * s.opts@.inputs.len() + s.opts@.lib_dirs.len() + 12,
        s.next_spec(phase, event).phase is Over <==> s.next_spec(phase, event).action is Done
            || s.next_spec(phase, event).action is Die,
{
    lemma_lengths_fit(s);
}

/// The bitcode of a program that a link in `phase` has found.
pub open spec fn found_in(phase: PhaseSpec) -> Seq<Seq<u8>> {
    match phase {
        Phase::Gather { found, .. } => found,
        Phase::Unpack { found, .. } => found,
        Phase::Locate { found, .. } => found,
        Phase::UnpackArena { found } => found,
        Phase::Symbols { found, .. } => found,
        _ => seq![],
    }
}

/// The bitcode of the inputs is linked in the order of the command line: an input that is bitcode
/// is added as it is, an archive adds its members in order, and nothing is added otherwise or
/// taken away, up to the turn that links.
pub proof fn law_bitcode_keeps_the_order_of_inputs(s: Session, phase: PhaseSpec, event: Event)
    requires
        s.awaits(phase, event),
        !(phase is Symbols),
        !(s.next_spec(phase, event).action is Die),
    ensures
        found_in(s.next_spec(phase, event).phase) == found_in(phase) + match (phase, event) {
            (Phase::Gather { next, .. }, Event::Contents(c)) => if is_bitcode_file(c) {
                seq![s.opts@.inputs[next as int]]
            } else {
                seq![]
            },
            (Phase::Unpack { .. }, Event::Members(m)) => sorted_bitcode_of(m@),
            _ => seq![],
        },
{
    lemma_lengths_fit(s);
    let added = match (phase, event) {
        (Phase::Gather { next, .. }, Event::Contents(c)) => if is_bitcode_file(c) {
            seq![s.opts@.inputs[next as int]]
        } else {
            seq![]
        },
        (Phase::Unpack { .. }, Event::Members(m)) => sorted_bitcode_of(m@),
        _ => seq![],
    };
    assert(found_in(s.next_spec(phase, event).phase) =~= found_in(phase) + added);
}

/// Nothing is linked without bitcode of the program and of libarena.
pub proof fn law_no_link_without_bitcode(s: Session, phase: PhaseSpec, event: Event)
    requires
        s.awaits(phase, event),
    ensures
        s.next_spec(phase, event).phase matches Phase::Symbols { found, arena } ==> found.len()
            > 0 && arena.len() > 0,
{
}

/// The memory functions are lowered before any other pass, the further passes run in the order
/// given, and only then is the module internalized and marked for inlining.
pub proof fn law_memory_functions_are_lowered_first(
    s: Session,
    syms: Seq<Seq<char>>,
    kept: Seq<char>,
)
    ensures
        ({
            let v = s.on_keep_spec(syms, kept).action->Perform_0;
            let passes = pass_list(s.env.pre_passes);
            let n = passes.len() as int;
            &&& v.len() == n + 6
            &&& !(v[0] is Run) && !(v[1] is Run)
            &&& v[2] == StepSpec::Run(
                s.pass_cmd(s.script_path("lower_mem.py"@), "stage0.ll"@),
            )
            &&& forall|i: int|
                0 <= i < n ==> #[trigger] v[3 + i] == StepSpec::Run(
                    s.pass_cmd(passes[i], "stage0.ll"@),
                )
            &&& v[3 + n] == StepSpec::Run(s.internalize_cmd(words(kept)))
            &&& v[5 + n] == StepSpec::Run(s.force_inline_cmd())
        }),
{
    let v = s.on_keep_spec(syms, kept).action->Perform_0;
    let passes = pass_list(s.env.pre_passes);
    assert forall|i: int| 0 <= i < passes.len() implies #[trigger] v[3 + i] == StepSpec::Run(
        s.pass_cmd(passes[i], "stage0.ll"@),
    ) by {
        assert(v[3 + i] == pass_steps(s, passes, "stage0.ll"@)[i]);
    }
}

/// The later passes run in the order given, after the optimized module is there.
pub proof fn law_later_passes_follow_the_optimizer(s: Session, printed: Seq<char>)
    ensures
        ({
            let v = s.on_force_spec(printed).action->Perform_0;
            let passes = pass_list(s.env.post_passes);
            &&& v.len() == passes.len() + 2
            &&& v[0] == StepSpec::Run(s.optimize_cmd(words(printed)))
            &&& forall|i: int|
                0 <= i < passes.len() ==> #[trigger] v[2 + i] == StepSpec::Run(
                    s.pass_cmd(passes[i], "stage3.ll"@),
                )
        }),
{
    let v = s.on_force_spec(printed).action->Perform_0;
    let passes = pass_list(s.env.post_passes);
    assert forall|i: int| 0 <= i < passes.len() implies #[trigger] v[2 + i] == StepSpec::Run(
        s.pass_cmd(passes[i], "stage3.ll"@),
    ) by {
        assert(v[2 + i] == pass_steps(s, passes, "stage3.ll"@)[i]);
    }
}

/// Every symbol that is to be kept is named to the pass that internalizes.
pub proof fn law_kept_symbols_are_named(s: Session, keep: Seq<Seq<char>>, i: int)
    requires
        0 <= i < keep.len(),
    ensures
        s.internalize_cmd(keep).args[i] == utf8("--internalize-public-api-list="@ + keep[i]),
{
    assert(s.internalize_cmd(keep).args[i] == keep_flags(keep)[i]);
}

/// Every symbol that rustc exports, and every extra one, is handed to the pass that decides what
/// is kept.
pub proof fn law_exports_are_handed_on(
    s: Session,
    syms: Seq<Seq<char>>,
    exports: Seq<Seq<char>>,
    name: Seq<char>,
)
    requires
        exports.contains(name) || s.env.extra_symbols().contains(name),
    ensures
        ({
            let v = s.ask_keep_spec(syms, exports).action->Perform_0;
            &&& v == seq![StepSpec::Run(s.keep_cmd(exports + s.env.extra_symbols()))]
            &&& s.keep_cmd(exports + s.env.extra_symbols()).args.contains(utf8(name))
        }),
{
    let all = exports + s.env.extra_symbols();
    let k = if exports.contains(name) {
        choose|k: int| 0 <= k < exports.len() && exports[k] == name
    } else {
        exports.len() + choose|k: int|
            0 <= k < s.env.extra_symbols().len() && s.env.extra_symbols()[k] == name
    };
    assert(all[k] == name);
    let args = s.keep_cmd(all).args;
    assert(args[5 + k] == utf8_each(all)[k]);
    assert(args[5 + k] == utf8(name));
}

/// A trap leaves a program by at most one way: it is returned, by a pass of its own, just where the
/// mode is `ret`, and thrown, with the cookie handed to the last pass, just where it is `throw`.
pub proof fn law_traps_leave_one_way(s: Session, mode: Seq<char>)
    ensures
        ({
            let v = s.finish_spec(mode).action->Perform_0;
            let args = s.finalize_cmd(mode).args;
            let returned = v.len() == 5 && v[0] == StepSpec::Run(s.trap_to_ret_cmd());
            let thrown = args.len() == 4 && args[3] == utf8("--trap-cookie="@ + s.env.cookie());
            &&& returned <==> mode == "ret"@
            &&& thrown <==> mode == "throw"@
            &&& !(returned && thrown)
            &&& v[v.len() - 4] == StepSpec::Run(s.finalize_cmd(mode))
        }),
{
    reveal_strlit("ret");
    reveal_strlit("throw");
    assert("ret"@.len() != "throw"@.len());
}

/// The last steps generate the object, put it where it was asked for and mend its names there,
/// whatever the mode of traps.
pub proof fn law_object_is_put_last(s: Session, mode: Seq<char>)
    ensures
        ({
            let v = s.finish_spec(mode).action->Perform_0;
            &&& v[v.len() - 3] == StepSpec::Run(s.codegen_cmd())
            &&& v[v.len() - 2] == StepSpec::Run(s.strip_cmd())
            &&& v[v.len() - 1] == StepSpec::Run(s.rename_cmd())
            &&& s.strip_cmd().args.last() == s.opts@.output
            &&& s.rename_cmd().args.last() == s.opts@.output
        }),
{
}

/// The intermediate files are removed at the end just where they are not to be kept, and a link
/// that fails removes nothing.
pub proof fn law_intermediate_files(s: Session, phase: PhaseSpec, event: Event)
    requires
        s.awaits(phase, event),
    ensures
        s.next_spec(phase, event).action matches Action::Done(dir) ==> phase is Finish && (dir
            == if s.env.keeps_temps() {
            None
        } else {
            Some(s.temp_dir())
        }),
        phase is Finish ==> s.next_spec(phase, event).action is Done,
{
}

} // verus!
