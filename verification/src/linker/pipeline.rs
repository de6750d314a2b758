//! The course of a link: what to do next, given what came of the last thing done.
use vstd::prelude::*;

use crate::linker::command::{Cmd, CmdSpec};
use crate::linker::env::{pass_list, settle_trap_mode, settled_trap_mode, wanted_trap_mode};
use crate::linker::stages::Session;
use crate::linker::symbols::{
    arena_symbols, arena_syms_in, extract, is_archive, is_archive_file, is_bitcode,
    is_bitcode_file, names_in, not_inlined, read_lines, sorted_bitcode_of, Member,
};
use crate::order::sort_once;
use crate::path::{joined, opt_path, paths, utf8, PathBuf};
use crate::text::{
    as_lines, cat, copy_texts, decimal, decimal_of, from_utf8_lossy, lines_of, opt_text, same,
    split, texts, utf8_lossy, words, Separator,
};

verus! {

/// One step: on paths `P`, texts `S` and commands `C`.
#[derive(Debug, PartialEq, Eq)]
pub enum Step<P, S, C> {
    /// Remove a directory and all below it, if it is there.
    Clear(P),
    /// Make the directory of the intermediate files.
    MakeTemp(P),
    /// Make a directory below it.
    MakeDir(P),
    /// Put the pass of this name, which comes with the linker, at a path.
    Install { name: S, path: P },
    /// Write a text to a file.
    Write { path: P, text: S },
    /// Run a command.
    Run(C),
}

/// The model of a step.
pub type StepSpec = Step<Seq<u8>, Seq<char>, CmdSpec>;

impl View for Step<PathBuf, String, Cmd> {
    type V = StepSpec;

    open spec fn view(&self) -> StepSpec {
        match *self {
            Step::Clear(p) => Step::Clear(p@),
            Step::MakeTemp(p) => Step::MakeTemp(p@),
            Step::MakeDir(p) => Step::MakeDir(p@),
            Step::Install { name, path } => Step::Install { name: name@, path: path@ },
            Step::Write { path, text } => Step::Write { path: path@, text: text@ },
            Step::Run(c) => Step::Run(c@),
        }
    }
}

/// The models of a list of steps.
pub open spec fn steps(v: Seq<Step<PathBuf, String, Cmd>>) -> Seq<StepSpec> {
    v.map_values(|s: Step<PathBuf, String, Cmd>| s@)
}

/// What is to be done: on paths `P`, lists of steps `L` and texts `S`.
#[derive(Debug, PartialEq, Eq)]
pub enum Action<P, L, S> {
    /// Perform the steps in order; tell what the last command among them printed.
    Perform(L),
    /// Tell the contents of a file.
    Read(P),
    /// Unpack an archive into a directory; tell its members.
    Unpack { archive: P, dir: P },
    /// Tell whether a file exists.
    Exists(P),
    /// Tell the text of a file.
    ReadText(P),
    /// Tell what the running kernel is configured for.
    Probe,
    /// Nothing more: the object is in place. Remove the directory, where one is given.
    Done(Option<P>),
    /// Nothing more: the link fails, for this reason.
    Die(S),
}

/// The model of an action.
pub type ActionSpec = Action<Seq<u8>, Seq<StepSpec>, Seq<char>>;

impl View for Action<PathBuf, Vec<Step<PathBuf, String, Cmd>>, String> {
    type V = ActionSpec;

    open spec fn view(&self) -> ActionSpec {
        match *self {
            Action::Perform(v) => Action::Perform(steps(v@)),
            Action::Read(p) => Action::Read(p@),
            Action::Unpack { archive, dir } => Action::Unpack { archive: archive@, dir: dir@ },
            Action::Exists(p) => Action::Exists(p@),
            Action::ReadText(p) => Action::ReadText(p@),
            Action::Probe => Action::Probe,
            Action::Done(p) => Action::Done(opt_path(p)),
            Action::Die(s) => Action::Die(s@),
        }
    }
}

/// Where a link stands, by what it waits for: with lists of paths `Ps` and of texts `Ss`.
#[derive(Debug, PartialEq, Eq)]
pub enum Phase<Ps, Ss> {
    /// The directories and the passes.
    Setup,
    /// The contents of an input; bitcode found so far.
    Gather { next: usize, found: Ps },
    /// The members of an input.
    Unpack { next: usize, found: Ps },
    /// Whether libarena's archive is in a library directory.
    Locate { next: usize, found: Ps },
    /// The members of libarena's archive.
    UnpackArena { found: Ps },
    /// The list of libarena's functions.
    Symbols { found: Ps, arena: Ps },
    /// The linked module.
    Linked { syms: Ss },
    /// The symbols to export.
    Exports { syms: Ss },
    /// The symbols to keep.
    Keep { syms: Ss },
    /// The flags that force inlining.
    Force,
    /// The optimized module.
    Optimized,
    /// The running kernel's configuration.
    Probing,
    /// The object.
    Finish,
    /// Nothing.
    Over,
}

/// The model of a phase.
pub type PhaseSpec = Phase<Seq<Seq<u8>>, Seq<Seq<char>>>;

impl View for Phase<Vec<PathBuf>, Vec<String>> {
    type V = PhaseSpec;

    open spec fn view(&self) -> PhaseSpec {
        match *self {
            Phase::Setup => Phase::Setup,
            Phase::Gather { next, found } => Phase::Gather { next, found: paths(found@) },
            Phase::Unpack { next, found } => Phase::Unpack { next, found: paths(found@) },
            Phase::Locate { next, found } => Phase::Locate { next, found: paths(found@) },
            Phase::UnpackArena { found } => Phase::UnpackArena { found: paths(found@) },
            Phase::Symbols { found, arena } => Phase::Symbols {
                found: paths(found@),
                arena: paths(arena@),
            },
            Phase::Linked { syms } => Phase::Linked { syms: texts(syms@) },
            Phase::Exports { syms } => Phase::Exports { syms: texts(syms@) },
            Phase::Keep { syms } => Phase::Keep { syms: texts(syms@) },
            Phase::Force => Phase::Force,
            Phase::Optimized => Phase::Optimized,
            Phase::Probing => Phase::Probing,
            Phase::Finish => Phase::Finish,
            Phase::Over => Phase::Over,
        }
    }
}

/// What came of an action.
#[derive(Debug, PartialEq, Eq)]
pub enum Event {
    /// The steps were performed; the last command among them printed this.
    Output(Vec<u8>),
    /// The contents of the file, where it can be read.
    Contents(Option<Vec<u8>>),
    /// The members of the archive.
    Members(Vec<Member>),
    /// Whether the file exists.
    Exists(bool),
    /// The text of the file, where it can be read as text.
    Text(Option<String>),
    /// Whether the running kernel shows its configuration, and whether that has the unwinder that
    /// exceptions need.
    Kernel { has_config: bool, orc: bool },
}

/// The next action, and where the link stands while it is done.
#[derive(Debug, PartialEq, Eq)]
pub struct Turn {
    /// An input that was passed over, to be logged.
    pub skipped: Option<PathBuf>,
    pub action: Action<PathBuf, Vec<Step<PathBuf, String, Cmd>>, String>,
    pub phase: Phase<Vec<PathBuf>, Vec<String>>,
}

/// The model of [`Turn`].
pub struct TurnSpec {
    pub skipped: Option<Seq<u8>>,
    pub action: ActionSpec,
    pub phase: PhaseSpec,
}

impl View for Turn {
    type V = TurnSpec;

    open spec fn view(&self) -> TurnSpec {
        TurnSpec {
            skipped: opt_path(self.skipped),
            action: self.action@,
            phase: self.phase@,
        }
    }
}

/// A turn that passes over no input.
pub open spec fn turn(phase: PhaseSpec, action: ActionSpec) -> TurnSpec {
    TurnSpec { skipped: None, action, phase }
}

fn take_turn(
    phase: Phase<Vec<PathBuf>, Vec<String>>,
    action: Action<PathBuf, Vec<Step<PathBuf, String, Cmd>>, String>,
) -> (r: Turn)
    ensures
        r@ == turn(phase@, action@),
{
    Turn { skipped: None, action, phase }
}

/// The turn that ends a link in failure.
pub open spec fn death(why: Seq<char>) -> TurnSpec {
    turn(Phase::Over, Action::Die(why))
}

fn die(why: &str) -> (r: Turn)
    ensures
        r@ == death(why@),
{
    take_turn(Phase::Over, Action::Die(why.to_owned()))
}

/// The step that installs the pass `name`.
pub open spec fn install(s: Session, name: Seq<char>) -> StepSpec {
    Step::Install { name, path: s.script_path(name) }
}

fn install_step(s: &Session, name: &str) -> (r: Step<PathBuf, String, Cmd>)
    ensures
        r@ == install(*s, name@),
{
    Step::Install { name: name.to_owned(), path: s.script(name) }
}

/// The steps that run the passes at `scripts` in order on the intermediate file `name`.
pub open spec fn pass_steps(s: Session, scripts: Seq<Seq<u8>>, name: Seq<char>) -> Seq<StepSpec> {
    scripts.map_values(|p: Seq<u8>| Step::Run(s.pass_cmd(p, name)))
}

fn push_passes(
    s: &Session,
    v: &mut Vec<Step<PathBuf, String, Cmd>>,
    scripts: &Vec<PathBuf>,
    name: &str,
)
    ensures
        steps(final(v)@) == steps(old(v)@) + pass_steps(*s, paths(scripts@), name@),
{
    let ghost before = steps(v@);
    let ghost all = pass_steps(*s, paths(scripts@), name@);
    let mut i: usize = 0;
    assert(before + all.take(0) =~= before);
    while i < scripts.len()
        invariant
            i <= scripts.len(),
            all == pass_steps(*s, paths(scripts@), name@),
            steps(v@) == before + all.take(i as int),
        decreases scripts.len() - i,
    {
        let ghost v0 = v@;
        let step = Step::Run(s.pass(&scripts[i], name));
        v.push(step);
        proof {
            assert(steps(v@) =~= steps(v0).push(step@));
            assert(all[i as int] == step@);
            assert(before + all.take(i + 1) =~= (before + all.take(i as int)).push(all[i as int]));
        }
        i = i + 1;
    }
    assert(all.take(i as int) =~= all);
}

impl Session {
    /// Whether `event` is what a link in `phase` waits for.
    pub open spec fn awaits(self, phase: PhaseSpec, event: Event) -> bool {
        match phase {
            Phase::Setup => event is Output,
            Phase::Gather { next, .. } => event is Contents && next < self.opts@.inputs.len(),
            Phase::Unpack { next, .. } => event is Members && next < self.opts@.inputs.len(),
            Phase::Locate { next, .. } => event is Exists && next < self.opts@.lib_dirs.len(),
            Phase::UnpackArena { .. } => event is Members,
            Phase::Symbols { .. } => event is Output,
            Phase::Linked { .. } => event is Output,
            Phase::Exports { .. } => event is Text,
            Phase::Keep { .. } => event is Output,
            Phase::Force => event is Output,
            Phase::Optimized => event is Output,
            Phase::Probing => event is Kernel,
            Phase::Finish => event is Output,
            Phase::Over => false,
        }
    }

    /// The first turn: a fresh directory of intermediate files, with the passes in it.
    pub open spec fn start_spec(self) -> TurnSpec {
        turn(
            Phase::Setup,
            Action::Perform(
                seq![
                    Step::Clear(self.temp_dir()),
                    Step::MakeTemp(self.temp_dir()),
                    Step::MakeDir(self.script_dir()),
                    install(self, "lower_mem.py"@),
                    install(self, "force_inline.py"@),
                    install(self, "keep_syms.py"@),
                    install(self, "trap_to_ret.py"@),
                    install(self, "bpf_finalize.py"@),
                    install(self, "btf_rename.py"@),
                ],
            ),
        )
    }

    /// The first turn of a link.
    pub fn start(&self) -> (r: Turn)
        ensures
            r@ == self.start_spec(),
    {
        let mut v: Vec<Step<PathBuf, String, Cmd>> = Vec::new();
        v.push(Step::Clear(self.temp()));
        v.push(Step::MakeTemp(self.temp()));
        v.push(Step::MakeDir(self.file("scripts")));
        v.push(install_step(self, "lower_mem.py"));
        v.push(install_step(self, "force_inline.py"));
        v.push(install_step(self, "keep_syms.py"));
        v.push(install_step(self, "trap_to_ret.py"));
        v.push(install_step(self, "bpf_finalize.py"));
        v.push(install_step(self, "btf_rename.py"));
        let r = take_turn(Phase::Setup, Action::Perform(v));
        assert(r@.action->Perform_0 =~= self.start_spec().action->Perform_0);
        r
    }

    /// Goes on with the input at `next`, or with libarena's archive where there is none.
    pub open spec fn gather_spec(self, next: int, found: Seq<Seq<u8>>) -> TurnSpec {
        if next < self.opts@.inputs.len() {
            turn(
                Phase::Gather { next: next as usize, found },
                Action::Read(self.opts@.inputs[next]),
            )
        } else {
            self.locate_spec(0, found)
        }
    }

    fn gather(&self, next: usize, found: Vec<PathBuf>) -> (r: Turn)
        ensures
            r@ == self.gather_spec(next as int, paths(found@)),
    {
        if next < self.opts.inputs.len() {
            let p = self.opts.inputs[next].copy();
            take_turn(Phase::Gather { next, found }, Action::Read(p))
        } else {
            self.locate(0, found)
        }
    }

    /// The directory that the input at `next` is unpacked into.
    pub open spec fn rlib_dir(self, next: int) -> Seq<u8> {
        self.file_path("rlib"@ + decimal(next as nat))
    }

    /// After the contents of the input at `next`: bitcode is taken, an archive unpacked, anything
    /// else passed over.
    pub open spec fn on_contents_spec(
        self,
        next: int,
        found: Seq<Seq<u8>>,
        contents: Option<Vec<u8>>,
    ) -> TurnSpec {
        let input = self.opts@.inputs[next];
        if is_bitcode_file(contents) {
            self.gather_spec(next + 1, found.push(input))
        } else if is_archive_file(contents) {
            turn(
                Phase::Unpack { next: next as usize, found },
                Action::Unpack { archive: input, dir: self.rlib_dir(next) },
            )
        } else {
            TurnSpec {
                skipped: if self.env.is_verbose() {
                    Some(input)
                } else {
                    None
                },
                ..self.gather_spec(next + 1, found)
            }
        }
    }

    fn on_contents(
        &self,
        next: usize,
        found: Vec<PathBuf>,
        contents: &Option<Vec<u8>>,
    ) -> (r: Turn)
        requires
            next < self.opts@.inputs.len(),
        ensures
            r@ == self.on_contents_spec(next as int, paths(found@), *contents),
    {
        assert(next < self.opts.inputs.len());
        let input = self.opts.inputs[next].copy();
        if is_bitcode(contents) {
            let ghost before = found@;
            let mut found = found;
            found.push(input);
            assert(paths(found@) =~= paths(before).push(input@));
            self.gather(next + 1, found)
        } else if is_archive(contents) {
            let name = cat("rlib", decimal_of(next).as_str());
            let dir = self.file(name.as_str());
            take_turn(Phase::Unpack { next, found }, Action::Unpack { archive: input, dir })
        } else {
            let t = self.gather(next + 1, found);
            let skipped = if self.env.verbose() {
                Some(input)
            } else {
                None
            };
            Turn { skipped, action: t.action, phase: t.phase }
        }
    }

    /// After the members of the input at `next`: their bitcode is taken.
    pub open spec fn on_members_spec(
        self,
        next: int,
        found: Seq<Seq<u8>>,
        members: Seq<Member>,
    ) -> TurnSpec {
        self.gather_spec(next + 1, found + sorted_bitcode_of(members))
    }

    fn on_members(&self, next: usize, found: Vec<PathBuf>, members: &Vec<Member>) -> (r: Turn)
        requires
            next < self.opts@.inputs.len(),
        ensures
            r@ == self.on_members_spec(next as int, paths(found@), members@),
    {
        assert(next < self.opts.inputs.len());
        let mut more = extract(members);
        let mut found = found;
        assert(paths(found@ + more@) =~= paths(found@) + paths(more@));
        found.append(&mut more);
        self.gather(next + 1, found)
    }

    /// Where libarena's archive would be in the library directory at `next`.
    pub open spec fn archive_path(self, next: int) -> Seq<u8> {
        joined(self.opts@.lib_dirs[next], utf8("libarena_c.a"@))
    }

    /// Goes on looking for libarena's archive in the library directory at `next`.
    pub open spec fn locate_spec(self, next: int, found: Seq<Seq<u8>>) -> TurnSpec {
        if next < self.opts@.lib_dirs.len() {
            turn(
                Phase::Locate { next: next as usize, found },
                Action::Exists(self.archive_path(next)),
            )
        } else {
            death(
                "libarena_c.a not found in any -L directory: is libarena-rs a dependency (its build.rs produces it)?"@,
            )
        }
    }

    fn locate(&self, next: usize, found: Vec<PathBuf>) -> (r: Turn)
        ensures
            r@ == self.locate_spec(next as int, paths(found@)),
    {
        if next < self.opts.lib_dirs.len() {
            let p = self.opts.lib_dirs[next].join_text("libarena_c.a");
            take_turn(Phase::Locate { next, found }, Action::Exists(p))
        } else {
            die(
                "libarena_c.a not found in any -L directory: is libarena-rs a dependency (its build.rs produces it)?",
            )
        }
    }

    /// After a look into the library directory at `next`: the first archive is unpacked.
    pub open spec fn on_exists_spec(
        self,
        next: int,
        found: Seq<Seq<u8>>,
        exists_there: bool,
    ) -> TurnSpec {
        if exists_there {
            turn(
                Phase::UnpackArena { found },
                Action::Unpack {
                    archive: self.archive_path(next),
                    dir: self.file_path("arena_c"@),
                },
            )
        } else {
            self.locate_spec(next + 1, found)
        }
    }

    fn on_exists(&self, next: usize, found: Vec<PathBuf>, exists_there: bool) -> (r: Turn)
        requires
            next < self.opts@.lib_dirs.len(),
        ensures
            r@ == self.on_exists_spec(next as int, paths(found@), exists_there),
    {
        assert(next < self.opts.lib_dirs.len());
        if exists_there {
            let archive = self.opts.lib_dirs[next].join_text("libarena_c.a");
            let dir = self.file("arena_c");
            take_turn(Phase::UnpackArena { found }, Action::Unpack { archive, dir })
        } else {
            self.locate(next + 1, found)
        }
    }

    /// After the members of libarena's archive: with bitcode on both sides, libarena's functions
    /// are listed.
    pub open spec fn on_arena_spec(self, found: Seq<Seq<u8>>, members: Seq<Member>) -> TurnSpec {
        let arena = sorted_bitcode_of(members);
        if found.len() == 0 || arena.len() == 0 {
            death("no bitcode inputs"@)
        } else {
            turn(
                Phase::Symbols { found, arena },
                Action::Perform(seq![Step::Run(self.nm_cmd(arena))]),
            )
        }
    }

    fn on_arena(&self, found: Vec<PathBuf>, members: &Vec<Member>) -> (r: Turn)
        ensures
            r@ == self.on_arena_spec(paths(found@), members@),
    {
        let arena = extract(members);
        if found.len() == 0 || arena.len() == 0 {
            return die("no bitcode inputs");
        }
        let mut v: Vec<Step<PathBuf, String, Cmd>> = Vec::new();
        v.push(Step::Run(self.nm(&arena)));
        assert(steps(v@) =~= seq![Step::Run(self.nm_cmd(paths(arena@)))]);
        take_turn(Phase::Symbols { found, arena }, Action::Perform(v))
    }

    /// After the list of libarena's functions: it is written down, and the bitcode linked.
    pub open spec fn on_symbols_spec(
        self,
        found: Seq<Seq<u8>>,
        arena: Seq<Seq<u8>>,
        nm: Seq<char>,
    ) -> TurnSpec {
        let syms = arena_symbols(nm);
        turn(
            Phase::Linked { syms },
            Action::Perform(
                seq![
                    Step::Write { path: self.file_path("arena_syms.txt"@), text: as_lines(syms) },
                    Step::Run(self.link_cmd(found, arena)),
                    Step::Run(self.dis_cmd("linked.bc"@, "stage0.ll"@)),
                ],
            ),
        )
    }

    /// The turn after the list of libarena's functions.
    pub fn on_symbols(&self, found: &Vec<PathBuf>, arena: &Vec<PathBuf>, nm: &str) -> (r: Turn)
        ensures
            r@ == self.on_symbols_spec(paths(found@), paths(arena@), nm@),
    {
        let syms = arena_syms_in(nm);
        let mut v: Vec<Step<PathBuf, String, Cmd>> = Vec::new();
        v.push(Step::Write { path: self.file("arena_syms.txt"), text: lines_of(&syms) });
        v.push(Step::Run(self.link(found, arena)));
        v.push(Step::Run(self.dis("linked.bc", "stage0.ll")));
        let r = take_turn(Phase::Linked { syms }, Action::Perform(v));
        assert(r@.action->Perform_0 =~= self.on_symbols_spec(
            paths(found@),
            paths(arena@),
            nm@,
        ).action->Perform_0);
        r
    }

    /// Asks for the symbols to keep, those to export and the extra ones among them.
    pub open spec fn ask_keep_spec(
        self,
        syms: Seq<Seq<char>>,
        exports: Seq<Seq<char>>,
    ) -> TurnSpec {
        turn(
            Phase::Keep { syms },
            Action::Perform(seq![Step::Run(self.keep_cmd(exports + self.env.extra_symbols()))]),
        )
    }

    fn ask_keep(&self, syms: Vec<String>, exports: Vec<String>) -> (r: Turn)
        ensures
            r@ == self.ask_keep_spec(texts(syms@), texts(exports@)),
    {
        let mut extra = exports;
        let mut more = self.env.keep_extra();
        assert(texts(extra@ + more@) =~= texts(extra@) + texts(more@));
        extra.append(&mut more);
        let mut v: Vec<Step<PathBuf, String, Cmd>> = Vec::new();
        v.push(Step::Run(self.keep(&extra)));
        assert(steps(v@) =~= seq![Step::Run(self.keep_cmd(texts(extra@)))]);
        take_turn(Phase::Keep { syms }, Action::Perform(v))
    }

    /// After the linked module: the list of exports is read, where there is one.
    pub open spec fn on_linked_spec(self, syms: Seq<Seq<char>>) -> TurnSpec {
        match self.opts@.export_symbols {
            Some(p) => turn(Phase::Exports { syms }, Action::ReadText(p)),
            None => self.ask_keep_spec(syms, seq![]),
        }
    }

    fn on_linked(&self, syms: Vec<String>) -> (r: Turn)
        ensures
            r@ == self.on_linked_spec(texts(syms@)),
    {
        match &self.opts.export_symbols {
            Some(p) => take_turn(Phase::Exports { syms }, Action::ReadText(p.copy())),
            None => {
                let none: Vec<String> = Vec::new();
                assert(texts(none@) =~= seq![]);
                self.ask_keep(syms, none)
            },
        }
    }

    /// After the symbols to keep: both lists are written down, the memory functions lowered, the
    /// further passes run, what is not kept made local, and the rest marked for inlining.
    pub open spec fn on_keep_spec(self, syms: Seq<Seq<char>>, kept: Seq<char>) -> TurnSpec {
        let keep = words(kept);
        turn(
            Phase::Force,
            Action::Perform(
                seq![
                    Step::Write { path: self.file_path("keep.txt"@), text: as_lines(keep) },
                    Step::Write {
                        path: self.file_path("noinline.txt"@),
                        text: as_lines(not_inlined(keep, syms)),
                    },
                    Step::Run(self.pass_cmd(self.script_path("lower_mem.py"@), "stage0.ll"@)),
                ] + pass_steps(self, pass_list(self.env.pre_passes), "stage0.ll"@) + seq![
                    Step::Run(self.internalize_cmd(keep)),
                    Step::Run(self.dis_cmd("stage1.bc"@, "stage1.ll"@)),
                    Step::Run(self.force_inline_cmd()),
                ],
            ),
        )
    }

    /// The turn after the symbols to keep.
    pub fn on_keep(&self, syms: &Vec<String>, kept: &str) -> (r: Turn)
        ensures
            r@ == self.on_keep_spec(texts(syms@), kept@),
    {
        let keep = split(kept, Separator::White);
        let mut all = copy_texts(&keep);
        let mut more = copy_texts(syms);
        assert(texts(all@ + more@) =~= texts(all@) + texts(more@));
        all.append(&mut more);
        let noinline = sort_once(all);
        let mut v: Vec<Step<PathBuf, String, Cmd>> = Vec::new();
        v.push(Step::Write { path: self.file("keep.txt"), text: lines_of(&keep) });
        v.push(Step::Write { path: self.file("noinline.txt"), text: lines_of(&noinline) });
        let lower = self.script("lower_mem.py");
        v.push(Step::Run(self.pass(&lower, "stage0.ll")));
        let ghost v0 = v@;
        push_passes(self, &mut v, &self.env.pre_passes(), "stage0.ll");
        let ghost v1 = v@;
        v.push(Step::Run(self.internalize(&keep)));
        v.push(Step::Run(self.dis("stage1.bc", "stage1.ll")));
        v.push(Step::Run(self.force_inline()));
        proof {
            let head = seq![
                Step::Write { path: self.file_path("keep.txt"@), text: as_lines(words(kept@)) },
                Step::Write {
                    path: self.file_path("noinline.txt"@),
                    text: as_lines(not_inlined(words(kept@), texts(syms@))),
                },
                Step::Run(self.pass_cmd(self.script_path("lower_mem.py"@), "stage0.ll"@)),
            ];
            let tail = seq![
                Step::Run(self.internalize_cmd(words(kept@))),
                Step::Run(self.dis_cmd("stage1.bc"@, "stage1.ll"@)),
                Step::Run(self.force_inline_cmd()),
            ];
            assert(steps(v0) =~= head);
            assert(steps(v@) =~= steps(v1) + tail);
        }
        let r = take_turn(Phase::Force, Action::Perform(v));
        assert(r@.action->Perform_0 =~= self.on_keep_spec(
            texts(syms@),
            kept@,
        ).action->Perform_0);
        r
    }

    /// After the flags that force inlining: the module is optimized, and the later passes run.
    pub open spec fn on_force_spec(self, printed: Seq<char>) -> TurnSpec {
        turn(
            Phase::Optimized,
            Action::Perform(
                seq![
                    Step::Run(self.optimize_cmd(words(printed))),
                    Step::Run(self.dis_cmd("stage3.bc"@, "stage3.ll"@)),
                ] + pass_steps(self, pass_list(self.env.post_passes), "stage3.ll"@),
            ),
        )
    }

    /// The turn after the flags that force inlining.
    pub fn on_force(&self, printed: &str) -> (r: Turn)
        ensures
            r@ == self.on_force_spec(printed@),
    {
        let flags = split(printed, Separator::White);
        let mut v: Vec<Step<PathBuf, String, Cmd>> = Vec::new();
        v.push(Step::Run(self.optimize(&flags)));
        v.push(Step::Run(self.dis("stage3.bc", "stage3.ll")));
        push_passes(self, &mut v, &self.env.post_passes(), "stage3.ll");
        let r = take_turn(Phase::Optimized, Action::Perform(v));
        assert(r@.action->Perform_0 =~= self.on_force_spec(printed@).action->Perform_0);
        r
    }

    /// The last steps, with traps that leave a program by `mode`: to the object.
    pub open spec fn finish_spec(self, mode: Seq<char>) -> TurnSpec {
        let returned = if mode == "ret"@ {
            seq![Step::Run(self.trap_to_ret_cmd())]
        } else {
            seq![]
        };
        turn(
            Phase::Finish,
            Action::Perform(
                returned + seq![
                    Step::Run(self.finalize_cmd(mode)),
                    Step::Run(self.codegen_cmd()),
                    Step::Run(self.strip_cmd()),
                    Step::Run(self.rename_cmd()),
                ],
            ),
        )
    }

    fn finish(&self, mode: &str) -> (r: Turn)
        ensures
            r@ == self.finish_spec(mode@),
    {
        let mut v: Vec<Step<PathBuf, String, Cmd>> = Vec::new();
        if same(mode, "ret") {
            v.push(Step::Run(self.trap_to_ret()));
        }
        v.push(Step::Run(self.finalize(mode)));
        v.push(Step::Run(self.codegen()));
        v.push(Step::Run(self.strip()));
        v.push(Step::Run(self.rename()));
        let r = take_turn(Phase::Finish, Action::Perform(v));
        assert(r@.action->Perform_0 =~= self.finish_spec(mode@).action->Perform_0);
        r
    }

    /// After the optimized module: the running kernel is asked where that decides, else the link
    /// is finished.
    pub open spec fn on_optimized_spec(self) -> TurnSpec {
        if wanted_trap_mode(self.env) == "auto"@ {
            turn(Phase::Probing, Action::Probe)
        } else {
            self.finish_spec(wanted_trap_mode(self.env))
        }
    }

    fn on_optimized(&self) -> (r: Turn)
        ensures
            r@ == self.on_optimized_spec(),
    {
        let mode = self.env.trap_mode();
        if same(mode.as_str(), "auto") {
            take_turn(Phase::Probing, Action::Probe)
        } else {
            self.finish(mode.as_str())
        }
    }

    /// After the object: the intermediate files go, unless they are to be kept.
    pub open spec fn on_finish_spec(self) -> TurnSpec {
        turn(
            Phase::Over,
            Action::Done(
                if self.env.keeps_temps() {
                    None
                } else {
                    Some(self.temp_dir())
                },
            ),
        )
    }

    fn on_finish(&self) -> (r: Turn)
        ensures
            r@ == self.on_finish_spec(),
    {
        if self.env.keep_temps() {
            take_turn(Phase::Over, Action::Done(None))
        } else {
            take_turn(Phase::Over, Action::Done(Some(self.temp())))
        }
    }

    /// The next turn of a link that stands in `phase`, after `event`.
    pub open spec fn next_spec(self, phase: PhaseSpec, event: Event) -> TurnSpec {
        match (phase, event) {
            (Phase::Setup, _) => self.gather_spec(0, seq![]),
            (Phase::Gather { next, found }, Event::Contents(c)) => self.on_contents_spec(
                next as int,
                found,
                c,
            ),
            (Phase::Unpack { next, found }, Event::Members(m)) => self.on_members_spec(
                next as int,
                found,
                m@,
            ),
            (Phase::Locate { next, found }, Event::Exists(b)) => self.on_exists_spec(
                next as int,
                found,
                b,
            ),
            (Phase::UnpackArena { found }, Event::Members(m)) => self.on_arena_spec(found, m@),
            (Phase::Symbols { found, arena }, Event::Output(b)) => self.on_symbols_spec(
                found,
                arena,
                utf8_lossy(b@),
            ),
            (Phase::Linked { syms }, _) => self.on_linked_spec(syms),
            (Phase::Exports { syms }, Event::Text(t)) => self.ask_keep_spec(
                syms,
                names_in(opt_text(t)),
            ),
            (Phase::Keep { syms }, Event::Output(b)) => self.on_keep_spec(syms, utf8_lossy(b@)),
            (Phase::Force, Event::Output(b)) => self.on_force_spec(utf8_lossy(b@)),
            (Phase::Optimized, _) => self.on_optimized_spec(),
            (Phase::Probing, Event::Kernel { has_config, orc }) => self.finish_spec(
                settled_trap_mode(wanted_trap_mode(self.env), has_config, orc),
            ),
            (Phase::Finish, _) => self.on_finish_spec(),
            _ => death(""@),
        }
    }

    /// The next turn of a link that stands in `phase`, after `event`.
    pub fn next(&self, phase: Phase<Vec<PathBuf>, Vec<String>>, event: Event) -> (r: Turn)
        requires
            self.awaits(phase@, event),
        ensures
            r@ == self.next_spec(phase@, event),
    {
        match (phase, event) {
            (Phase::Setup, _) => {
                let found: Vec<PathBuf> = Vec::new();
                assert(paths(found@) =~= seq![]);
                self.gather(0, found)
            },
            (Phase::Gather { next, found }, Event::Contents(c)) => self.on_contents(
                next,
                found,
                &c,
            ),
            (Phase::Unpack { next, found }, Event::Members(m)) => self.on_members(
                next,
                found,
                &m,
            ),
            (Phase::Locate { next, found }, Event::Exists(b)) => self.on_exists(next, found, b),
            (Phase::UnpackArena { found }, Event::Members(m)) => self.on_arena(found, &m),
            (Phase::Symbols { found, arena }, Event::Output(b)) => {
                let nm = from_utf8_lossy(b.as_slice());
                self.on_symbols(&found, &arena, nm.as_str())
            },
            (Phase::Linked { syms }, _) => self.on_linked(syms),
            (Phase::Exports { syms }, Event::Text(t)) => {
                let exports = read_lines(&t);
                self.ask_keep(syms, exports)
            },
            (Phase::Keep { syms }, Event::Output(b)) => {
                let kept = from_utf8_lossy(b.as_slice());
                self.on_keep(&syms, kept.as_str())
            },
            (Phase::Force, Event::Output(b)) => {
                let printed = from_utf8_lossy(b.as_slice());
                self.on_force(printed.as_str())
            },
            (Phase::Optimized, _) => self.on_optimized(),
            (Phase::Probing, Event::Kernel { has_config, orc }) => {
                let mode = settle_trap_mode(self.env.trap_mode(), has_config, orc);
                self.finish(mode.as_str())
            },
            (Phase::Finish, _) => self.on_finish(),
            _ => die(""),
        }
    }
}

} // verus!
