//! A whole link, from its first turn to the object.
use vstd::prelude::*;

use crate::linker::env::{law_trap_mode_is_settled, settled_trap_mode, wanted_trap_mode};
use crate::linker::pipeline::{Action, Event, Phase, PhaseSpec, StepSpec, TurnSpec};
use crate::linker::stages::Session;
use crate::linker::symbols::{
    arena_symbols, is_archive_file, is_bitcode_file, names_in, sorted_bitcode_of, Member,
};
use crate::text::{opt_text, utf8_lossy};

verus! {

/// Whether a link that takes the turn `t`, and is answered by `events` in order, ends with the
/// object in place.
pub open spec fn completes(s: Session, t: TurnSpec, events: Seq<Event>) -> bool
    decreases events.len(),
{
    match t.action {
        Action::Done(_) => events.len() == 0,
        Action::Die(_) => false,
        _ => events.len() > 0 && s.awaits(t.phase, events[0]) && completes(
            s,
            s.next_spec(t.phase, events[0]),
            events.skip(1),
        ),
    }
}

/// The steps that a turn performs.
pub open spec fn own_steps(t: TurnSpec) -> Seq<StepSpec> {
    match t.action {
        Action::Perform(v) => v,
        _ => seq![],
    }
}

/// The steps that a link performs from the turn `t` on, where it is answered by `events`.
pub open spec fn performed(s: Session, t: TurnSpec, events: Seq<Event>) -> Seq<StepSpec>
    decreases events.len(),
{
    if events.len() == 0 {
        own_steps(t)
    } else {
        own_steps(t) + performed(s, s.next_spec(t.phase, events[0]), events.skip(1))
    }
}

/// What a link was told, by the kind of answer, each in the order of the answers.
#[verifier::ext_equal]
pub struct Told {
    /// What the last command of each list of steps printed, as text.
    pub outputs: Seq<Seq<char>>,
    /// The contents of files.
    pub contents: Seq<Option<Vec<u8>>>,
    /// The members of archives.
    pub members: Seq<Seq<Member>>,
    /// The texts of files.
    pub texts: Seq<Option<Seq<char>>>,
    /// Whether the running kernel shows its configuration, and whether that has the unwinder.
    pub kernels: Seq<(bool, bool)>,
}

/// What `events` tell.
#[verifier::opaque]
pub open spec fn told(events: Seq<Event>) -> Told
    decreases events.len(),
{
    if events.len() == 0 {
        Told { outputs: seq![], contents: seq![], members: seq![], texts: seq![], kernels: seq![] }
    } else {
        let rest = told(events.skip(1));
        match events[0] {
            Event::Output(b) => Told { outputs: seq![utf8_lossy(b@)] + rest.outputs, ..rest },
            Event::Contents(c) => Told { contents: seq![c] + rest.contents, ..rest },
            Event::Members(m) => Told { members: seq![m@] + rest.members, ..rest },
            Event::Exists(_) => rest,
            Event::Text(t) => Told { texts: seq![opt_text(t)] + rest.texts, ..rest },
            Event::Kernel { has_config, orc } => Told {
                kernels: seq![(has_config, orc)] + rest.kernels,
                ..rest
            },
        }
    }
}

/// The bitcode of `inputs` in their order, given the contents of each, and the members of those
/// that are archives: an input that is bitcode stands for itself, an archive for its bitcode in
/// order, and any other for nothing.
pub open spec fn program_bitcode(
    inputs: Seq<Seq<u8>>,
    contents: Seq<Option<Vec<u8>>>,
    members: Seq<Seq<Member>>,
) -> Seq<Seq<u8>>
    decreases inputs.len(),
{
    if inputs.len() == 0 {
        seq![]
    } else if is_bitcode_file(contents[0]) {
        seq![inputs[0]] + program_bitcode(inputs.skip(1), contents.skip(1), members)
    } else if is_archive_file(contents[0]) {
        sorted_bitcode_of(members[0]) + program_bitcode(
            inputs.skip(1),
            contents.skip(1),
            members.skip(1),
        )
    } else {
        program_bitcode(inputs.skip(1), contents.skip(1), members)
    }
}

/// The symbols that the program exports: those of the list that rustc names, where it names one.
pub open spec fn exports_told(s: Session, told: Told) -> Seq<Seq<char>> {
    match s.opts@.export_symbols {
        Some(_) => names_in(told.texts[0]),
        None => seq![],
    }
}

/// How traps leave the program: as wanted, or as the running kernel decides where it is to.
pub open spec fn mode_told(s: Session, told: Told) -> Seq<char> {
    if wanted_trap_mode(s.env) == "auto"@ {
        settled_trap_mode("auto"@, told.kernels[0].0, told.kernels[0].1)
    } else {
        wanted_trap_mode(s.env)
    }
}

/// What decides on the steps of a link.
#[verifier::ext_equal]
pub struct Course {
    /// The bitcode of the program.
    pub found: Seq<Seq<u8>>,
    /// libarena's bitcode.
    pub arena: Seq<Seq<u8>>,
    /// The list of libarena's functions.
    pub nm: Seq<char>,
    /// The symbols to export.
    pub exports: Seq<Seq<char>>,
    /// The symbols to keep.
    pub kept: Seq<char>,
    /// The flags that force inlining.
    pub flags: Seq<char>,
    /// How traps leave the program.
    pub mode: Seq<char>,
}

/// The course that the answers `events` give a whole link. The program's bitcode is that of the
/// inputs; libarena's is that of the archive unpacked last. Of the texts printed, the one after
/// the preparations lists libarena's functions; the one after linking, the symbols to keep; and
/// the next, the flags.
pub open spec fn course_of(s: Session, events: Seq<Event>) -> Course {
    let t = told(events);
    Course {
        found: program_bitcode(s.opts@.inputs, t.contents, t.members),
        arena: sorted_bitcode_of(t.members.last()),
        nm: t.outputs[1],
        exports: exports_told(s, t),
        kept: t.outputs[3],
        flags: t.outputs[4],
        mode: mode_told(s, t),
    }
}

/// The steps of the stages, from the linked module to the object: link, keep, lower, internalize
/// and inline, optimize, finish.
pub open spec fn stages(s: Session, c: Course) -> Seq<StepSpec> {
    let syms = arena_symbols(c.nm);
    own_steps(s.on_symbols_spec(c.found, c.arena, c.nm)) + (own_steps(
        s.ask_keep_spec(syms, c.exports),
    ) + (own_steps(s.on_keep_spec(syms, c.kept)) + (own_steps(s.on_force_spec(c.flags))
        + own_steps(s.finish_spec(c.mode)))))
}

/// All steps of a link: a fresh directory with the passes in it, the list of libarena's functions,
/// then the stages.
pub open spec fn all_steps(s: Session, c: Course) -> Seq<StepSpec> {
    own_steps(s.start_spec()) + (seq![StepSpec::Run(s.nm_cmd(c.arena))] + stages(s, c))
}

/// One turn of a link that completes.
proof fn lemma_turn(s: Session, t: TurnSpec, events: Seq<Event>)
    requires
        completes(s, t, events),
        !(t.action is Done),
    ensures
        events.len() > 0,
        s.awaits(t.phase, events[0]),
        completes(s, s.next_spec(t.phase, events[0]), events.skip(1)),
        performed(s, t, events) == own_steps(t) + performed(
            s,
            s.next_spec(t.phase, events[0]),
            events.skip(1),
        ),
{
}

/// The first answer comes first of its kind, and leaves the others alone.
proof fn lemma_told(events: Seq<Event>)
    requires
        events.len() > 0,
    ensures
        ({
            let now = told(events);
            let rest = told(events.skip(1));
            match events[0] {
                Event::Output(b) => now == (Told {
                    outputs: seq![utf8_lossy(b@)] + rest.outputs,
                    ..rest
                }),
                Event::Contents(c) => now == (Told { contents: seq![c] + rest.contents, ..rest }),
                Event::Members(m) => now == (Told { members: seq![m@] + rest.members, ..rest }),
                Event::Exists(_) => now == rest,
                Event::Text(t) => now == (Told { texts: seq![opt_text(t)] + rest.texts, ..rest }),
                Event::Kernel { has_config, orc } => now == (Told {
                    kernels: seq![(has_config, orc)] + rest.kernels,
                    ..rest
                }),
            }
        }),
{
    reveal_with_fuel(told, 1);
}

/// The end of a link.
proof fn lemma_finish(s: Session, mode: Seq<char>, events: Seq<Event>)
    requires
        completes(s, s.finish_spec(mode), events),
    ensures
        performed(s, s.finish_spec(mode), events) == own_steps(s.finish_spec(mode)),
        told(events).outputs.len() == 1,
        told(events).contents.len() == 0,
        told(events).members.len() == 0,
        told(events).texts.len() == 0,
        told(events).kernels.len() == 0,
{
    let t = s.finish_spec(mode);
    lemma_turn(s, t, events);
    lemma_told(events);
    reveal_with_fuel(told, 1);
    assert(performed(s, s.on_finish_spec(), events.skip(1)) =~= seq![]);
    assert(own_steps(t) + seq![] =~= own_steps(t));
}

/// A link from the optimizer on.
proof fn lemma_optimize(s: Session, flags: Seq<char>, events: Seq<Event>)
    requires
        completes(s, s.on_force_spec(flags), events),
    ensures
        performed(s, s.on_force_spec(flags), events) == own_steps(s.on_force_spec(flags))
            + own_steps(s.finish_spec(mode_told(s, told(events)))),
        mode_told(s, told(events)) != "auto"@,
        told(events).outputs.len() == 2,
        told(events).contents.len() == 0,
        told(events).members.len() == 0,
        told(events).texts.len() == 0,
{
    let t = s.on_force_spec(flags);
    let mode = mode_told(s, told(events));
    lemma_turn(s, t, events);
    lemma_told(events);
    let rest = events.skip(1);
    let wanted = wanted_trap_mode(s.env);
    if wanted == "auto"@ {
        lemma_turn(s, s.on_optimized_spec(), rest);
        lemma_told(rest);
        let has_config = rest[0]->has_config;
        let orc = rest[0]->orc;
        law_trap_mode_is_settled(wanted, has_config, orc);
        assert(told(rest).kernels[0] == (has_config, orc));
        lemma_finish(s, mode, rest.skip(1));
        assert(seq![] + own_steps(s.finish_spec(mode)) =~= own_steps(s.finish_spec(mode)));
    } else {
        lemma_finish(s, wanted, rest);
    }
}

/// A link from the question for the symbols to keep on.
proof fn lemma_keep(
    s: Session,
    syms: Seq<Seq<char>>,
    exports: Seq<Seq<char>>,
    events: Seq<Event>,
)
    requires
        completes(s, s.ask_keep_spec(syms, exports), events),
    ensures
        ({
            let t = told(events);
            &&& performed(s, s.ask_keep_spec(syms, exports), events) == own_steps(
                s.ask_keep_spec(syms, exports),
            ) + (own_steps(s.on_keep_spec(syms, t.outputs[0])) + (own_steps(
                s.on_force_spec(t.outputs[1]),
            ) + own_steps(s.finish_spec(mode_told(s, t)))))
            &&& mode_told(s, t) != "auto"@
            &&& t.outputs.len() == 4
            &&& t.contents.len() == 0
            &&& t.members.len() == 0
            &&& t.texts.len() == 0
        }),
{
    lemma_turn(s, s.ask_keep_spec(syms, exports), events);
    lemma_told(events);
    let kept = utf8_lossy(events[0]->Output_0@);
    let rest = events.skip(1);
    lemma_turn(s, s.on_keep_spec(syms, kept), rest);
    lemma_told(rest);
    let flags = utf8_lossy(rest[0]->Output_0@);
    lemma_optimize(s, flags, rest.skip(1));
    assert(told(rest).outputs[0] == flags);
    assert(told(events).outputs[0] == kept);
    assert(told(events).outputs[1] == flags);
}

/// A link from the linked module on.
proof fn lemma_linked(s: Session, syms: Seq<Seq<char>>, events: Seq<Event>)
    requires
        completes(s, s.on_linked_spec(syms), events),
    ensures
        ({
            let t = told(events);
            &&& performed(s, s.on_linked_spec(syms), events) == own_steps(
                s.ask_keep_spec(syms, exports_told(s, t)),
            ) + (own_steps(s.on_keep_spec(syms, t.outputs[0])) + (own_steps(
                s.on_force_spec(t.outputs[1]),
            ) + own_steps(s.finish_spec(mode_told(s, t)))))
            &&& mode_told(s, t) != "auto"@
            &&& t.outputs.len() == 4
            &&& t.contents.len() == 0
            &&& t.members.len() == 0
        }),
{
    let exports = exports_told(s, told(events));
    if s.opts@.export_symbols is Some {
        lemma_turn(s, s.on_linked_spec(syms), events);
        lemma_told(events);
        assert(told(events).texts[0] == opt_text(events[0]->Text_0));
        lemma_keep(s, syms, exports, events.skip(1));
        let tail = performed(s, s.ask_keep_spec(syms, exports), events.skip(1));
        assert(seq![] + tail =~= tail);
    } else {
        lemma_keep(s, syms, exports, events);
    }
}

/// The course of a link from the bitcode on.
spec fn course_from(
    s: Session,
    found: Seq<Seq<u8>>,
    members: Seq<Member>,
    events: Seq<Event>,
) -> Course {
    let t = told(events);
    Course {
        found,
        arena: sorted_bitcode_of(members),
        nm: t.outputs[0],
        exports: exports_told(s, t),
        kept: t.outputs[2],
        flags: t.outputs[3],
        mode: mode_told(s, t),
    }
}

/// Whether a link that takes the turn `t` goes on to list libarena's functions, then through the
/// stages on the course `c`.
spec fn goes_through(s: Session, t: TurnSpec, events: Seq<Event>, c: Course) -> bool {
    &&& performed(s, t, events) == seq![StepSpec::Run(s.nm_cmd(c.arena))] + stages(s, c)
    &&& c.found.len() > 0
    &&& c.arena.len() > 0
    &&& c.mode != "auto"@
}

/// A link from the bitcode on.
proof fn lemma_stages(
    s: Session,
    found: Seq<Seq<u8>>,
    members: Seq<Member>,
    events: Seq<Event>,
)
    requires
        completes(s, s.on_arena_spec(found, members), events),
    ensures
        goes_through(
            s,
            s.on_arena_spec(found, members),
            events,
            course_from(s, found, members, events),
        ),
        told(events).outputs.len() == 6,
        told(events).contents.len() == 0,
        told(events).members.len() == 0,
{
    let arena = sorted_bitcode_of(members);
    lemma_turn(s, s.on_arena_spec(found, members), events);
    lemma_told(events);
    let nm = utf8_lossy(events[0]->Output_0@);
    let syms = arena_symbols(nm);
    let rest = events.skip(1);
    lemma_turn(s, s.on_symbols_spec(found, arena, nm), rest);
    lemma_told(rest);
    let after = rest.skip(1);
    lemma_linked(s, syms, after);
    let o = told(after).outputs;
    assert(told(events).outputs[0] == nm);
    assert(told(events).outputs[2] == o[0]);
    assert(told(events).outputs[3] == o[1]);
}

/// The bitcode of the program in a link that gathers it, once it has been told the rest.
spec fn found_at_last(s: Session, phase: PhaseSpec, t: Told) -> Seq<Seq<u8>> {
    let inputs = s.opts@.inputs;
    match phase {
        Phase::Gather { next, found } => found + program_bitcode(
            inputs.skip(next as int),
            t.contents,
            t.members,
        ),
        Phase::Unpack { next, found } => found + (sorted_bitcode_of(t.members[0])
            + program_bitcode(inputs.skip(next + 1), t.contents, t.members.skip(1))),
        Phase::Locate { found, .. } => found,
        Phase::UnpackArena { found } => found,
        _ => seq![],
    }
}

/// How many inputs a link that gathers has still to read.
spec fn unread(s: Session, phase: PhaseSpec) -> int {
    match phase {
        Phase::Gather { next, .. } => s.opts@.inputs.len() - next,
        Phase::Unpack { next, .. } => s.opts@.inputs.len() - next - 1,
        _ => 0,
    }
}

/// The course of a link that gathers bitcode in `phase`.
spec fn course_while_gathering(s: Session, phase: PhaseSpec, events: Seq<Event>) -> Course {
    let t = told(events);
    course_from(s, found_at_last(s, phase, t), t.members.last(), events)
}

/// A turn that gathers passes on what the turns after it perform.
proof fn lemma_passed_on(s: Session, t: TurnSpec, next: TurnSpec, events: Seq<Event>)
    requires
        events.len() > 0,
        events[0] is Contents || events[0] is Members || events[0] is Exists,
        own_steps(t).len() == 0,
        performed(s, t, events) == own_steps(t) + performed(s, next, events.skip(1)),
        goes_through(
            s,
            next,
            events.skip(1),
            course_while_gathering(s, next.phase, events.skip(1)),
        ),
        told(events.skip(1)).members.len() > 0,
        found_at_last(s, t.phase, told(events)) == found_at_last(
            s,
            next.phase,
            told(events.skip(1)),
        ),
    ensures
        goes_through(s, t, events, course_while_gathering(s, t.phase, events)),
{
    let rest = events.skip(1);
    lemma_told(events);
    assert(own_steps(t) + performed(s, next, rest) =~= performed(s, next, rest));
    assert(told(events).members.last() == told(rest).members.last());
    assert(course_while_gathering(s, t.phase, events) == course_while_gathering(
        s,
        next.phase,
        rest,
    ));
}

/// A link that waits for libarena's members.
proof fn lemma_arena(s: Session, t: TurnSpec, events: Seq<Event>)
    requires
        completes(s, t, events),
        t.phase is UnpackArena,
        own_steps(t).len() == 0,
        !(t.action is Done),
    ensures
        goes_through(s, t, events, course_while_gathering(s, t.phase, events)),
        told(events).outputs.len() == 6,
        told(events).contents.len() == 0,
        told(events).members.len() > 0,
{
    lemma_turn(s, t, events);
    lemma_told(events);
    let found = t.phase->UnpackArena_found;
    let m = events[0]->Members_0@;
    let rest = events.skip(1);
    lemma_stages(s, found, m, rest);
    let next = s.on_arena_spec(found, m);
    assert(own_steps(t) + performed(s, next, rest) =~= performed(s, next, rest));
    assert(told(events).members.last() == m);
    assert(course_while_gathering(s, t.phase, events) == course_from(s, found, m, rest));
}

/// What follows a turn that gathers.
proof fn lemma_gathers_on(s: Session, phase: PhaseSpec, event: Event)
    requires
        s.awaits(phase, event),
        phase is Gather || phase is Unpack || phase is Locate,
        !(s.next_spec(phase, event).action is Die),
    ensures
        ({
            let next = s.next_spec(phase, event);
            &&& event is Contents || event is Members || event is Exists
            &&& next.phase is Gather || next.phase is Unpack || next.phase is Locate
                || next.phase is UnpackArena
            &&& own_steps(next).len() == 0
            &&& !(next.action is Done)
            &&& unread(s, phase) == unread(s, next.phase) + if event is Contents {
                1int
            } else {
                0
            }
        }),
{
    assert(s.opts.inputs@.len() == s.opts.inputs.len());
    assert(s.opts.lib_dirs@.len() == s.opts.lib_dirs.len());
}

/// A link while it gathers bitcode.
proof fn lemma_gathering(s: Session, t: TurnSpec, events: Seq<Event>)
    requires
        completes(s, t, events),
        t.phase is Gather || t.phase is Unpack || t.phase is Locate || t.phase is UnpackArena,
        own_steps(t).len() == 0,
        !(t.action is Done),
    ensures
        goes_through(s, t, events, course_while_gathering(s, t.phase, events)),
        told(events).outputs.len() == 6,
        told(events).contents.len() == unread(s, t.phase),
        told(events).members.len() > 0,
    decreases events.len(),
{
    if t.phase is UnpackArena {
        lemma_arena(s, t, events);
    } else {
        lemma_turn(s, t, events);
        let next = s.next_spec(t.phase, events[0]);
        lemma_gathers_on(s, t.phase, events[0]);
        lemma_gathering(s, next, events.skip(1));
        lemma_told(events);
        lemma_found(s, t.phase, events);
        lemma_passed_on(s, t, next, events);
    }
}

/// An answer moves what will have been found from what is told to what was found.
proof fn lemma_found(s: Session, phase: PhaseSpec, events: Seq<Event>)
    requires
        events.len() > 0,
        s.awaits(phase, events[0]),
        phase is Gather || phase is Unpack || phase is Locate,
        !(s.next_spec(phase, events[0]).action is Die),
        told(events.skip(1)).contents.len() == unread(s, s.next_spec(phase, events[0]).phase),
        told(events.skip(1)).members.len() > 0,
    ensures
        found_at_last(s, phase, told(events)) == found_at_last(
            s,
            s.next_spec(phase, events[0]).phase,
            told(events.skip(1)),
        ),
{
    let inputs = s.opts@.inputs;
    assert(s.opts.inputs@.len() == s.opts.inputs.len());
    let now = told(events);
    let later = told(events.skip(1));
    lemma_told(events);
    match phase {
        Phase::Gather { next, found } => {
            let here = inputs.skip(next as int);
            let c = events[0]->Contents_0;
            assert(here[0] == inputs[next as int]);
            assert(here.skip(1) =~= inputs.skip(next + 1));
            assert(now.contents[0] == c);
            assert(now.contents.skip(1) =~= later.contents);
            let tail = program_bitcode(inputs.skip(next + 1), later.contents, later.members);
            if next + 1 == inputs.len() {
                assert(inputs.skip(next + 1).len() == 0);
            }
            if is_bitcode_file(c) {
                assert(found.push(inputs[next as int]) + tail =~= found + (seq![
                    inputs[next as int],
                ] + tail));
                assert(found.push(inputs[next as int]) + Seq::<Seq<u8>>::empty() =~= found.push(
                    inputs[next as int],
                ));
            } else if is_archive_file(c) {
            } else {
                assert(found + Seq::<Seq<u8>>::empty() =~= found);
            }
        },
        Phase::Unpack { next, found } => {
            let m = events[0]->Members_0@;
            assert(now.members[0] == m);
            assert(now.members.skip(1) =~= later.members);
            let more = sorted_bitcode_of(m);
            let tail = program_bitcode(inputs.skip(next + 1), later.contents, later.members);
            if next + 1 == inputs.len() {
                assert(inputs.skip(next + 1).len() == 0);
            }
            assert((found + more) + tail =~= found + (more + tail));
            assert((found + more) + Seq::<Seq<u8>>::empty() =~= found + more);
        },
        _ => {},
    }
}

/// A link that ends with the object in place has performed the stages in their order, each once,
/// and nothing else, on the course that its answers gave it: every input was read, and its bitcode
/// linked in the order of the command line; there is bitcode of the program and of libarena; what
/// the tools printed is what was written down and handed on; and the way for traps to leave is
/// settled.
pub proof fn law_completed_link_went_through_the_stages(s: Session, events: Seq<Event>)
    requires
        completes(s, s.start_spec(), events),
    ensures
        performed(s, s.start_spec(), events) == all_steps(s, course_of(s, events)),
        told(events).contents.len() == s.opts@.inputs.len(),
        told(events).outputs.len() == 7,
        course_of(s, events).found.len() > 0,
        course_of(s, events).arena.len() > 0,
        course_of(s, events).mode != "auto"@,
{
    lemma_turn(s, s.start_spec(), events);
    lemma_told(events);
    let rest = events.skip(1);
    let next = s.next_spec(Phase::Setup, events[0]);
    let now = told(events);
    let later = told(rest);
    assert(s.opts.inputs@.len() == s.opts.inputs.len());
    lemma_gathering(s, next, rest);
    assert(now.outputs[1] == later.outputs[0]);
    assert(now.outputs[3] == later.outputs[2]);
    assert(now.outputs[4] == later.outputs[3]);
    assert(s.opts@.inputs.skip(0) =~= s.opts@.inputs);
    let found = program_bitcode(s.opts@.inputs, now.contents, now.members);
    assert(Seq::<Seq<u8>>::empty() + found =~= found);
    assert(course_of(s, events) =~= course_while_gathering(s, next.phase, rest));
}

} // verus!
