//! The command line that rustc hands the linker.
use vstd::prelude::*;

use crate::path::{opt_path, paths, utf8, PathBuf};
use crate::text::{same, split, starts_with, strip_prefix, texts, words, Separator};

verus! {

/// What the command line asks for.
#[derive(Debug, PartialEq, Eq)]
pub struct Opts {
    /// Bitcode objects and rlibs.
    pub inputs: Vec<PathBuf>,
    /// The directories to look for libarena's archive in.
    pub lib_dirs: Vec<PathBuf>,
    /// The file that lists the symbols to export.
    pub export_symbols: Option<PathBuf>,
    /// Where the object goes.
    pub output: PathBuf,
    /// The processor to generate code for.
    pub cpu: String,
}

/// The model of [`Opts`].
#[verifier::ext_equal]
pub struct OptsSpec {
    pub inputs: Seq<Seq<u8>>,
    pub lib_dirs: Seq<Seq<u8>>,
    pub export_symbols: Option<Seq<u8>>,
    pub output: Seq<u8>,
    pub cpu: Seq<char>,
}

impl View for Opts {
    type V = OptsSpec;

    open spec fn view(&self) -> OptsSpec {
        OptsSpec {
            inputs: paths(self.inputs@),
            lib_dirs: paths(self.lib_dirs@),
            export_symbols: opt_path(self.export_symbols),
            output: self.output@,
            cpu: self.cpu@,
        }
    }
}

/// What is wrong with a command line.
#[derive(Clone, Copy, Debug, PartialEq, Eq, Structural)]
pub enum ArgError {
    /// It ends after a flag that takes a value.
    MissingValue,
    /// It names no output.
    NoOutput,
}

impl ArgError {
    /// The error in words.
    pub fn message(&self) -> (r: &'static str)
        ensures
            r@ == (match *self {
                ArgError::MissingValue => "missing argument value"@,
                ArgError::NoOutput => "no -o output"@,
            }),
    {
        match self {
            ArgError::MissingValue => "missing argument value",
            ArgError::NoOutput => "no -o output",
        }
    }
}

/// What an argument means where no value is due.
pub enum Meaning<S> {
    /// The output follows.
    Output,
    /// A library directory follows.
    LibDir,
    /// A value follows that the linker has no use for.
    Dropped,
    /// The processor follows.
    Cpu,
    /// The list of exported symbols follows.
    Exports,
    /// A flag that the linker has no use for.
    Ignored,
    /// This library directory.
    LibDirIs(S),
    /// This processor.
    CpuIs(S),
    /// A flag that the linker does not know.
    Unknown,
    /// An input.
    Input,
}

/// Whether `a` is a flag of rustc's that changes nothing here.
pub open spec fn has_no_effect(a: Seq<char>) -> bool {
    a == "--debug"@ || a == "-O0"@ || a == "-O1"@ || a == "-O2"@ || a == "-O3"@ || a == "-Os"@ || a
        == "-Oz"@
}

/// What `a` means where no value is due.
pub open spec fn meaning(a: Seq<char>) -> Meaning<Seq<char>> {
    if a == "-o"@ {
        Meaning::Output
    } else if a == "-L"@ {
        Meaning::LibDir
    } else if a == "-l"@ || a == "--cpu-features"@ {
        Meaning::Dropped
    } else if a == "--cpu"@ {
        Meaning::Cpu
    } else if a == "--export-symbols"@ {
        Meaning::Exports
    } else if has_no_effect(a) {
        Meaning::Ignored
    } else if starts_with(a, "-L"@) {
        Meaning::LibDirIs(a.skip(2))
    } else if starts_with(a, "-l"@) {
        Meaning::Ignored
    } else if starts_with(a, "--cpu="@) {
        Meaning::CpuIs(a.skip(6))
    } else if starts_with(a, "-"@) {
        Meaning::Unknown
    } else {
        Meaning::Input
    }
}

impl Meaning<String> {
    /// The meaning, with its text.
    pub open spec fn text(self) -> Meaning<Seq<char>> {
        match self {
            Meaning::Output => Meaning::Output,
            Meaning::LibDir => Meaning::LibDir,
            Meaning::Dropped => Meaning::Dropped,
            Meaning::Cpu => Meaning::Cpu,
            Meaning::Exports => Meaning::Exports,
            Meaning::Ignored => Meaning::Ignored,
            Meaning::LibDirIs(s) => Meaning::LibDirIs(s@),
            Meaning::CpuIs(s) => Meaning::CpuIs(s@),
            Meaning::Unknown => Meaning::Unknown,
            Meaning::Input => Meaning::Input,
        }
    }
}

/// Whether an argument of this meaning takes the one after it.
pub open spec fn takes_value(m: Meaning<Seq<char>>) -> bool {
    m is Output || m is LibDir || m is Dropped || m is Cpu || m is Exports
}

fn has_no_effect_test(a: &str) -> (r: bool)
    ensures
        r == has_no_effect(a@),
{
    same(a, "--debug") || same(a, "-O0") || same(a, "-O1") || same(a, "-O2") || same(a, "-O3")
        || same(a, "-Os") || same(a, "-Oz")
}

fn meaning_of(a: &str) -> (r: Meaning<String>)
    ensures
        r.text() == meaning(a@),
{
    proof {
        reveal_strlit("-L");
        reveal_strlit("--cpu=");
    }
    if same(a, "-o") {
        return Meaning::Output;
    }
    if same(a, "-L") {
        return Meaning::LibDir;
    }
    if same(a, "-l") || same(a, "--cpu-features") {
        return Meaning::Dropped;
    }
    if same(a, "--cpu") {
        return Meaning::Cpu;
    }
    if same(a, "--export-symbols") {
        return Meaning::Exports;
    }
    if has_no_effect_test(a) {
        return Meaning::Ignored;
    }
    if let Some(dir) = strip_prefix(a, "-L") {
        return Meaning::LibDirIs(dir);
    }
    if strip_prefix(a, "-l").is_some() {
        return Meaning::Ignored;
    }
    if let Some(cpu) = strip_prefix(a, "--cpu=") {
        return Meaning::CpuIs(cpu);
    }
    if strip_prefix(a, "-").is_some() {
        return Meaning::Unknown;
    }
    Meaning::Input
}

/// A command line, read up to some point.
#[verifier::ext_equal]
pub struct Reading {
    /// What was asked for so far.
    pub opts: OptsSpec,
    /// The unknown flags so far.
    pub ignored: Seq<Seq<char>>,
    /// Whether it ended after a flag that takes a value.
    pub missing: bool,
}

/// The reading after a flag of meaning `m` and its value `v`.
pub open spec fn with_value(r: Reading, m: Meaning<Seq<char>>, v: Seq<char>) -> Reading {
    let o = r.opts;
    let opts = match m {
        Meaning::Output => OptsSpec { output: utf8(v), ..o },
        Meaning::LibDir => OptsSpec { lib_dirs: o.lib_dirs.push(utf8(v)), ..o },
        Meaning::Cpu => OptsSpec { cpu: v, ..o },
        Meaning::Exports => OptsSpec { export_symbols: Some(utf8(v)), ..o },
        _ => o,
    };
    Reading { opts, ..r }
}

/// The reading after the argument `a` of meaning `m`, which stands alone.
pub open spec fn with_alone(r: Reading, m: Meaning<Seq<char>>, a: Seq<char>) -> Reading {
    let o = r.opts;
    match m {
        Meaning::LibDirIs(d) => Reading {
            opts: OptsSpec { lib_dirs: o.lib_dirs.push(utf8(d)), ..o },
            ..r
        },
        Meaning::CpuIs(c) => Reading { opts: OptsSpec { cpu: c, ..o }, ..r },
        Meaning::Unknown => Reading { ignored: r.ignored.push(a), ..r },
        Meaning::Input => Reading {
            opts: OptsSpec { inputs: o.inputs.push(utf8(a)), ..o },
            ..r
        },
        _ => r,
    }
}

/// The reading after all of `args`, in order.
pub open spec fn read_on(args: Seq<Seq<char>>, r: Reading) -> Reading
    decreases args.len(),
{
    if args.len() == 0 || r.missing {
        r
    } else if !takes_value(meaning(args[0])) {
        read_on(args.skip(1), with_alone(r, meaning(args[0]), args[0]))
    } else if args.len() < 2 {
        Reading { missing: true, ..r }
    } else {
        read_on(args.skip(2), with_value(r, meaning(args[0]), args[1]))
    }
}

/// The reading of an empty command line.
pub open spec fn nothing_read() -> Reading {
    Reading {
        opts: OptsSpec {
            inputs: seq![],
            lib_dirs: seq![],
            export_symbols: None,
            output: seq![],
            cpu: "v4"@,
        },
        ignored: seq![],
        missing: false,
    }
}

/// What a complete reading comes to.
pub open spec fn result(r: Reading) -> Result<OptsSpec, ArgError> {
    if r.missing {
        Err(ArgError::MissingValue)
    } else if r.opts.output.len() == 0 {
        Err(ArgError::NoOutput)
    } else {
        Ok(r.opts)
    }
}

/// An argument as it was given.
#[derive(Debug, PartialEq, Eq)]
pub enum Source {
    /// One argument.
    Plain(String),
    /// The contents of a response file: arguments separated by white space.
    Response(String),
}

/// The arguments that `s` stands for.
pub open spec fn arguments_of(s: Source) -> Seq<Seq<char>> {
    match s {
        Source::Plain(a) => seq![a@],
        Source::Response(t) => words(t@),
    }
}

/// The arguments that `v` stands for, in order.
pub open spec fn expanded(v: Seq<Source>) -> Seq<Seq<char>>
    decreases v.len(),
{
    if v.len() == 0 {
        seq![]
    } else {
        expanded(v.drop_last()) + arguments_of(v.last())
    }
}

/// The response file that `a` names, where it names one.
pub fn response_file(a: &str) -> (r: Option<PathBuf>)
    ensures
        r is Some <==> starts_with(a@, "@"@),
        r matches Some(p) ==> p@ == utf8(a@.skip(1)),
{
    proof {
        reveal_strlit("@");
    }
    match strip_prefix(a, "@") {
        Some(name) => Some(PathBuf::from_text(name.as_str())),
        None => None,
    }
}

/// The arguments that `v` stands for. What a response file holds is not expanded again.
pub fn expand(v: &Vec<Source>) -> (r: Vec<String>)
    ensures
        texts(r@) == expanded(v@),
{
    let mut r: Vec<String> = Vec::new();
    let mut i: usize = 0;
    assert(texts(r@) =~= expanded(v@.take(0)));
    while i < v.len()
        invariant
            i <= v.len(),
            texts(r@) == expanded(v@.take(i as int)),
        decreases v.len() - i,
    {
        let mut more: Vec<String> = match &v[i] {
            Source::Plain(a) => {
                let mut one: Vec<String> = Vec::new();
                one.push(a.clone());
                assert(texts(one@) =~= seq![a@]);
                one
            },
            Source::Response(t) => split(t.as_str(), Separator::White),
        };
        proof {
            assert(v@.take(i + 1).drop_last() =~= v@.take(i as int));
            assert(texts(r@ + more@) =~= texts(r@) + texts(more@));
        }
        r.append(&mut more);
        i = i + 1;
    }
    assert(v@.take(i as int) =~= v@);
    r
}

/// A command line, read.
#[derive(Debug, PartialEq, Eq)]
pub struct Parsed {
    /// The unknown flags, which are passed over.
    pub ignored: Vec<String>,
    /// What the command line asks for.
    pub outcome: Result<Opts, ArgError>,
}

/// What [`parse`] makes of `args`.
pub open spec fn reads_as(p: Parsed, args: Seq<Seq<char>>) -> bool {
    let r = read_on(args, nothing_read());
    &&& texts(p.ignored@) == r.ignored
    &&& match p.outcome {
        Ok(o) => result(r) == Ok::<OptsSpec, ArgError>(o@),
        Err(e) => result(r) == Err::<OptsSpec, ArgError>(e),
    }
}

/// Reads a command line whose response files are expanded.
pub fn parse(args: &Vec<String>) -> (p: Parsed)
    ensures
        reads_as(p, texts(args@)),
{
    let mut o = Opts {
        inputs: Vec::new(),
        lib_dirs: Vec::new(),
        export_symbols: None,
        output: PathBuf { bytes: Vec::new() },
        cpu: "v4".to_owned(),
    };
    let mut ignored: Vec<String> = Vec::new();
    let mut i: usize = 0;
    let ghost all = texts(args@);
    let ghost mut now = nothing_read();
    proof {
        assert(all.skip(0) =~= all);
        assert(paths(o.inputs@) =~= seq![]);
        assert(paths(o.lib_dirs@) =~= seq![]);
        assert(texts(ignored@) =~= seq![]);
        assert(o@ =~= now.opts);
    }
    while i < args.len()
        invariant
            all == texts(args@),
            i <= args.len(),
            !now.missing,
            now.opts == o@,
            now.ignored == texts(ignored@),
            read_on(all, nothing_read()) == read_on(all.skip(i as int), now),
        decreases args.len() - i,
    {
        let ghost here = all.skip(i as int);
        let ghost before = now;
        assert(here[0] == args@[i as int]@);
        let a = args[i].as_str();
        let m = meaning_of(a);
        let ghost mm = meaning(a@);
        let takes = match &m {
            Meaning::Output | Meaning::LibDir | Meaning::Dropped | Meaning::Cpu
            | Meaning::Exports => true,
            _ => false,
        };
        assert(takes == takes_value(mm));
        if takes && i + 1 == args.len() {
            assert(here.len() == 1);
            return Parsed { ignored, outcome: Err(ArgError::MissingValue) };
        }
        let value: Option<&String> = if takes {
            Some(&args[i + 1])
        } else {
            None
        };
        match (m, value) {
            (Meaning::Output, Some(v)) => {
                o.output = PathBuf::from_text(v.as_str());
            },
            (Meaning::LibDir, Some(v)) => {
                o.lib_dirs.push(PathBuf::from_text(v.as_str()));
            },
            (Meaning::Cpu, Some(v)) => {
                o.cpu = v.clone();
            },
            (Meaning::Exports, Some(v)) => {
                o.export_symbols = Some(PathBuf::from_text(v.as_str()));
            },
            (Meaning::LibDirIs(d), _) => {
                o.lib_dirs.push(PathBuf::from_text(d.as_str()));
            },
            (Meaning::CpuIs(c), _) => {
                o.cpu = c;
            },
            (Meaning::Unknown, _) => {
                ignored.push(args[i].clone());
            },
            (Meaning::Input, _) => {
                o.inputs.push(PathBuf::from_text(a));
            },
            _ => {},
        }
        proof {
            if takes {
                assert(here[1] == args@[i + 1]@);
                now = with_value(before, mm, here[1]);
                assert(here.skip(2) =~= all.skip(i + 2));
            } else {
                now = with_alone(before, mm, here[0]);
                assert(here.skip(1) =~= all.skip(i + 1));
            }
            assert(o@ =~= now.opts);
            assert(texts(ignored@) =~= now.ignored);
        }
        i = if takes {
            i + 2
        } else {
            i + 1
        };
    }
    assert(all.skip(i as int) =~= seq![]);
    let outcome = if o.output.is_empty() {
        Err(ArgError::NoOutput)
    } else {
        Ok(o)
    };
    Parsed { ignored, outcome }
}

/// Reads the command line: expands the response files, then reads the arguments in order.
pub fn parse_args(v: &Vec<Source>) -> (p: Parsed)
    ensures
        reads_as(p, expanded(v@)),
{
    let args = expand(v);
    parse(&args)
}

/// A command line is read from left to right: what follows a complete part is read on from where
/// that part ended.
pub proof fn law_reading_goes_left_to_right(a: Seq<Seq<char>>, b: Seq<Seq<char>>, r: Reading)
    requires
        !read_on(a, r).missing,
    ensures
        read_on(a + b, r) == read_on(b, read_on(a, r)),
    decreases a.len(),
{
    if a.len() == 0 {
        assert(a + b =~= b);
    } else if !r.missing {
        assert((a + b)[0] == a[0]);
        if !takes_value(meaning(a[0])) {
            assert((a + b).skip(1) =~= a.skip(1) + b);
            law_reading_goes_left_to_right(
                a.skip(1),
                b,
                with_alone(r, meaning(a[0]), a[0]),
            );
        } else {
            assert((a + b)[1] == a[1]);
            assert((a + b).skip(2) =~= a.skip(2) + b);
            law_reading_goes_left_to_right(
                a.skip(2),
                b,
                with_value(r, meaning(a[0]), a[1]),
            );
        }
    }
}

/// `-L dir` and `-Ldir` are the same.
pub proof fn law_joined_lib_dir(dir: Seq<char>, r: Reading)
    requires
        dir.len() > 0,
        !r.missing,
    ensures
        read_on(seq!["-L"@, dir], r) == read_on(seq!["-L"@ + dir], r),
{
    let a = "-L"@ + dir;
    lemma_flags();
    assert(a.take(2) =~= "-L"@);
    assert(a.skip(2) =~= dir);
    assert(a[0] == '-' && a[1] == 'L');
    assert(meaning(a) == Meaning::LibDirIs(dir));
    assert(meaning("-L"@) == Meaning::<Seq<char>>::LibDir);
    let two = seq!["-L"@, dir];
    let one = seq![a];
    assert(two.skip(2) =~= seq![]);
    assert(one.skip(1) =~= seq![]);
    assert(read_on(two, r) == read_on(two.skip(2), with_value(r, meaning(two[0]), two[1])));
    assert(read_on(one, r) == read_on(one.skip(1), with_alone(r, meaning(one[0]), one[0])));
}

/// `--cpu name` and `--cpu=name` are the same.
pub proof fn law_joined_cpu(name: Seq<char>, r: Reading)
    requires
        !r.missing,
    ensures
        read_on(seq!["--cpu"@, name], r) == read_on(seq!["--cpu="@ + name], r),
{
    let a = "--cpu="@ + name;
    lemma_flags();
    assert(a.take(6) =~= "--cpu="@);
    assert(a.skip(6) =~= name);
    assert(a[0] == '-' && a[1] == '-' && a[2] == 'c' && a[5] == '=');
    assert(a != "--cpu-features"@) by {
        assert("--cpu-features"@[5] == '-');
    }
    assert(!starts_with(a, "-L"@)) by {
        assert(a.take(2)[1] == '-');
    }
    assert(!starts_with(a, "-l"@)) by {
        assert(a.take(2)[1] == '-');
    }
    assert(meaning(a) == Meaning::CpuIs(name));
    assert(meaning("--cpu"@) == Meaning::<Seq<char>>::Cpu);
    let two = seq!["--cpu"@, name];
    let one = seq![a];
    assert(two.skip(2) =~= seq![]);
    assert(one.skip(1) =~= seq![]);
    assert(read_on(two, r) == read_on(two.skip(2), with_value(r, meaning(two[0]), two[1])));
    assert(read_on(one, r) == read_on(one.skip(1), with_alone(r, meaning(one[0]), one[0])));
}

/// Of several outputs the last one counts.
pub proof fn law_last_output_counts(args: Seq<Seq<char>>, out: Seq<char>)
    requires
        !read_on(args, nothing_read()).missing,
        utf8(out).len() > 0,
    ensures
        result(read_on(args + seq!["-o"@, out], nothing_read())) == Ok::<OptsSpec, ArgError>(
            OptsSpec { output: utf8(out), ..read_on(args, nothing_read()).opts },
        ),
{
    let r = read_on(args, nothing_read());
    let two = seq!["-o"@, out];
    law_reading_goes_left_to_right(args, two, nothing_read());
    assert(two.skip(2) =~= seq![]);
    assert(read_on(two, r) == read_on(two.skip(2), with_value(r, meaning(two[0]), two[1])));
}

/// What was passed over so far has no bearing on what is asked for.
proof fn lemma_ignored_has_no_bearing(args: Seq<Seq<char>>, r: Reading, ignored: Seq<Seq<char>>)
    ensures
        read_on(args, Reading { ignored, ..r }).opts == read_on(args, r).opts,
        read_on(args, Reading { ignored, ..r }).missing == read_on(args, r).missing,
    decreases args.len(),
{
    let q = Reading { ignored, ..r };
    if args.len() == 0 || r.missing {
    } else if !takes_value(meaning(args[0])) {
        let m = meaning(args[0]);
        let a = with_alone(r, m, args[0]);
        let b = with_alone(q, m, args[0]);
        assert(b == Reading { ignored: b.ignored, ..a });
        lemma_ignored_has_no_bearing(args.skip(1), a, b.ignored);
    } else if args.len() >= 2 {
        let m = meaning(args[0]);
        let a = with_value(r, m, args[1]);
        assert(with_value(q, m, args[1]) == Reading { ignored, ..a });
        lemma_ignored_has_no_bearing(args.skip(2), a, ignored);
    }
}

/// A flag that the linker does not know, or has no use for, changes nothing of what the rest of
/// the command line comes to.
pub proof fn law_unknown_flags_change_nothing(flag: Seq<char>, rest: Seq<Seq<char>>, r: Reading)
    requires
        meaning(flag) is Unknown || meaning(flag) is Ignored,
    ensures
        result(read_on(seq![flag] + rest, r)) == result(read_on(rest, r)),
{
    let all = seq![flag] + rest;
    assert(all.skip(1) =~= rest);
    assert(all[0] == flag);
    if !r.missing {
        let q = with_alone(r, meaning(flag), flag);
        assert(q == Reading { ignored: q.ignored, ..r });
        lemma_ignored_has_no_bearing(rest, r, q.ignored);
    }
}

/// The spelling of the flags.
proof fn lemma_flags()
    ensures
        "-o"@ == seq!['-', 'o'],
        "-L"@ == seq!['-', 'L'],
        "-l"@ == seq!['-', 'l'],
        "--cpu"@ == seq!['-', '-', 'c', 'p', 'u'],
        "--cpu="@ == seq!['-', '-', 'c', 'p', 'u', '='],
        "--cpu-features"@.len() == 14,
        "--cpu-features"@[1] == '-',
        "--cpu-features"@[5] == '-',
        "--export-symbols"@.len() == 16,
        "--export-symbols"@[1] == '-',
        "--export-symbols"@[2] == 'e',
        "--debug"@.len() == 7,
        "--debug"@[1] == '-',
        "--debug"@[2] == 'd',
        "-O0"@ == seq!['-', 'O', '0'],
        "-O1"@ == seq!['-', 'O', '1'],
        "-O2"@ == seq!['-', 'O', '2'],
        "-O3"@ == seq!['-', 'O', '3'],
        "-Os"@ == seq!['-', 'O', 's'],
        "-Oz"@ == seq!['-', 'O', 'z'],
{
    reveal_strlit("-o");
    reveal_strlit("-L");
    reveal_strlit("-l");
    reveal_strlit("--cpu");
    reveal_strlit("--cpu=");
    reveal_strlit("--cpu-features");
    reveal_strlit("--export-symbols");
    reveal_strlit("--debug");
    reveal_strlit("-O0");
    reveal_strlit("-O1");
    reveal_strlit("-O2");
    reveal_strlit("-O3");
    reveal_strlit("-Os");
    reveal_strlit("-Oz");
}

/// Reading an argument that stands alone.
proof fn lemma_alone(a: Seq<char>, rest: Seq<Seq<char>>, r: Reading)
    requires
        !r.missing,
        !takes_value(meaning(a)),
    ensures
        read_on(seq![a] + rest, r) == read_on(rest, with_alone(r, meaning(a), a)),
{
    let all = seq![a] + rest;
    assert(all[0] == a);
    assert(all.skip(1) =~= rest);
}

/// Reading a flag and its value.
proof fn lemma_valued(a: Seq<char>, v: Seq<char>, rest: Seq<Seq<char>>, r: Reading)
    requires
        !r.missing,
        takes_value(meaning(a)),
    ensures
        read_on(seq![a, v] + rest, r) == read_on(rest, with_value(r, meaning(a), v)),
{
    let all = seq![a, v] + rest;
    assert(all[0] == a && all[1] == v);
    assert(all.skip(2) =~= rest);
}

/// An argument that does not begin with a dash, where no value is due, is an input, however it is
/// spelled: it is added to the inputs as it is, and nothing else changes.
pub proof fn law_inputs_are_taken(a: Seq<char>, rest: Seq<Seq<char>>, r: Reading)
    requires
        !r.missing,
        a.len() == 0 || a[0] != '-',
    ensures
        read_on(seq![a] + rest, r) == read_on(
            rest,
            Reading { opts: OptsSpec { inputs: r.opts.inputs.push(utf8(a)), ..r.opts }, ..r },
        ),
{
    lemma_flags();
    reveal_strlit("-");
    assert(!starts_with(a, "-"@) && !starts_with(a, "-L"@) && !starts_with(a, "-l"@)
        && !starts_with(a, "--cpu="@)) by {
        if a.len() > 0 {
            if starts_with(a, "-"@) {
                assert(a.take(1)[0] == a[0]);
            }
            if starts_with(a, "-L"@) {
                assert(a.take(2)[0] == a[0]);
            }
            if starts_with(a, "-l"@) {
                assert(a.take(2)[0] == a[0]);
            }
            if starts_with(a, "--cpu="@) {
                assert(a.take(6)[0] == a[0]);
            }
        }
    }
    lemma_dashes();
    assert(meaning(a) == Meaning::<Seq<char>>::Input);
    lemma_alone(a, rest, r);
}

/// Every flag that is known by its whole spelling begins with a dash.
proof fn lemma_dashes()
    ensures
        "--cpu-features"@[0] == '-',
        "--export-symbols"@[0] == '-',
        "--debug"@[0] == '-',
{
    reveal_strlit("--cpu-features");
    reveal_strlit("--export-symbols");
    reveal_strlit("--debug");
}

/// The flags with a value: the last `-o` is the output, every `-L` adds a directory, `--cpu` names
/// the processor, `--export-symbols` the list of exports, and the values of `-l` and
/// `--cpu-features` are dropped. Whatever the value is spelled like, it is not read as an argument,
/// and nothing else changes.
pub proof fn law_flags_with_a_value(v: Seq<char>, rest: Seq<Seq<char>>, r: Reading)
    requires
        !r.missing,
    ensures
        read_on(seq!["-o"@, v] + rest, r) == read_on(
            rest,
            Reading { opts: OptsSpec { output: utf8(v), ..r.opts }, ..r },
        ),
        read_on(seq!["-L"@, v] + rest, r) == read_on(
            rest,
            Reading { opts: OptsSpec { lib_dirs: r.opts.lib_dirs.push(utf8(v)), ..r.opts }, ..r },
        ),
        read_on(seq!["--cpu"@, v] + rest, r) == read_on(
            rest,
            Reading { opts: OptsSpec { cpu: v, ..r.opts }, ..r },
        ),
        read_on(seq!["--export-symbols"@, v] + rest, r) == read_on(
            rest,
            Reading { opts: OptsSpec { export_symbols: Some(utf8(v)), ..r.opts }, ..r },
        ),
        read_on(seq!["-l"@, v] + rest, r) == read_on(rest, r),
        read_on(seq!["--cpu-features"@, v] + rest, r) == read_on(rest, r),
{
    lemma_flags();
    lemma_valued("-o"@, v, rest, r);
    lemma_distinct_flags();
    lemma_valued("-L"@, v, rest, r);
    lemma_valued("--cpu"@, v, rest, r);
    lemma_valued("--export-symbols"@, v, rest, r);
    lemma_valued("-l"@, v, rest, r);
    lemma_valued("--cpu-features"@, v, rest, r);
}

/// The flags with a value are told apart.
proof fn lemma_distinct_flags()
    ensures
        meaning("-o"@) == Meaning::<Seq<char>>::Output,
        meaning("-L"@) == Meaning::<Seq<char>>::LibDir,
        meaning("--cpu"@) == Meaning::<Seq<char>>::Cpu,
        meaning("--export-symbols"@) == Meaning::<Seq<char>>::Exports,
        meaning("-l"@) == Meaning::<Seq<char>>::Dropped,
        meaning("--cpu-features"@) == Meaning::<Seq<char>>::Dropped,
{
    lemma_flags();
    assert("-L"@ != "-o"@) by {
        assert("-L"@[1] != "-o"@[1]);
    }
    assert("-l"@ != "-o"@ && "-l"@ != "-L"@) by {
        assert("-l"@[1] != "-o"@[1]);
        assert("-l"@[1] != "-L"@[1]);
    }
    assert("--cpu"@.len() == 5);
    assert("-o"@.len() == 2 && "-L"@.len() == 2 && "-l"@.len() == 2);
}

/// A flag that takes a value and has none left ends the reading, and what was read stays.
pub proof fn law_missing_value(flag: Seq<char>, r: Reading)
    requires
        !r.missing,
        flag == "-o"@ || flag == "-L"@ || flag == "-l"@ || flag == "--cpu"@ || flag
            == "--cpu-features"@ || flag == "--export-symbols"@,
    ensures
        read_on(seq![flag], r) == (Reading { missing: true, ..r }),
{
    lemma_distinct_flags();
    assert(seq![flag][0] == flag);
}

/// The flags without a value that the linker has no use for: the levels of optimization, `--debug`,
/// and a library joined to its `-l`. They change nothing.
pub proof fn law_flags_without_effect(flag: Seq<char>, rest: Seq<Seq<char>>, r: Reading)
    requires
        !r.missing,
        flag == "--debug"@ || flag == "-O0"@ || flag == "-O1"@ || flag == "-O2"@ || flag == "-O3"@
            || flag == "-Os"@ || flag == "-Oz"@ || (flag.len() > 2 && flag[0] == '-' && flag[1]
            == 'l'),
    ensures
        read_on(seq![flag] + rest, r) == read_on(rest, r),
{
    lemma_flags();
    if flag.len() > 2 && flag[0] == '-' && flag[1] == 'l' {
        assert(flag.take(2) =~= "-l"@);
        assert(!starts_with(flag, "-L"@)) by {
            assert(flag.take(2)[1] == 'l');
        }
        assert("--cpu"@[1] == '-');
    }
    assert(!takes_value(meaning(flag)));
    assert(with_alone(r, meaning(flag), flag) == r);
    lemma_alone(flag, rest, r);
}

/// `-Ldir` adds a directory and `--cpu=name` names the processor; nothing else changes.
pub proof fn law_joined_values(v: Seq<char>, rest: Seq<Seq<char>>, r: Reading)
    requires
        !r.missing,
    ensures
        v.len() > 0 ==> read_on(seq!["-L"@ + v] + rest, r) == read_on(
            rest,
            Reading { opts: OptsSpec { lib_dirs: r.opts.lib_dirs.push(utf8(v)), ..r.opts }, ..r },
        ),
        read_on(seq!["--cpu="@ + v] + rest, r) == read_on(
            rest,
            Reading { opts: OptsSpec { cpu: v, ..r.opts }, ..r },
        ),
{
    lemma_flags();
    if v.len() > 0 {
        let a = "-L"@ + v;
        assert(a.take(2) =~= "-L"@);
        assert(a.skip(2) =~= v);
        assert(a[0] == '-' && a[1] == 'L');
        assert(meaning(a) == Meaning::LibDirIs(v));
        lemma_alone(a, rest, r);
    }
    let a = "--cpu="@ + v;
    assert(a.take(6) =~= "--cpu="@);
    assert(a.skip(6) =~= v);
    assert(a[0] == '-' && a[1] == '-' && a[2] == 'c' && a[5] == '=');
    assert(!starts_with(a, "-L"@) && !starts_with(a, "-l"@)) by {
        assert(a.take(2)[1] == '-');
    }
    assert(meaning(a) == Meaning::CpuIs(v));
    lemma_alone(a, rest, r);
}

/// Any other argument that begins with a dash is a flag that the linker does not know: it is put
/// with the ignored ones as it is, and nothing else changes.
pub proof fn law_other_flags_are_told(a: Seq<char>, rest: Seq<Seq<char>>, r: Reading)
    requires
        !r.missing,
        a.len() > 0,
        a[0] == '-',
        a != "-o"@,
        a != "--cpu"@,
        a != "--cpu-features"@,
        a != "--export-symbols"@,
        a != "--debug"@,
        !(a.len() >= 2 && (a[1] == 'L' || a[1] == 'l')),
        !(a.len() == 3 && a[1] == 'O' && (a[2] == '0' || a[2] == '1' || a[2] == '2' || a[2] == '3'
            || a[2] == 's' || a[2] == 'z')),
        !(a.len() >= 6 && a.take(6) == "--cpu="@),
    ensures
        read_on(seq![a] + rest, r) == read_on(rest, Reading { ignored: r.ignored.push(a), ..r }),
{
    lemma_flags();
    reveal_strlit("-");
    assert(a.take(1) =~= "-"@);
    assert(!starts_with(a, "-L"@) && !starts_with(a, "-l"@)) by {
        if a.len() >= 2 {
            assert(a.take(2)[1] == a[1]);
        }
    }
    assert(meaning(a) == Meaning::<Seq<char>>::Unknown);
    lemma_alone(a, rest, r);
}

/// Before anything is read there are no inputs, directories, exports or output, and the processor
/// is `v4`.
pub proof fn law_nothing_read()
    ensures
        ({
            let r = nothing_read();
            &&& r.opts.inputs.len() == 0
            &&& r.opts.lib_dirs.len() == 0
            &&& r.opts.export_symbols is None
            &&& r.opts.output.len() == 0
            &&& r.opts.cpu == "v4"@
            &&& r.ignored.len() == 0
            &&& !r.missing
        }),
        forall|r: Reading| #[trigger] read_on(seq![], r) == r,
        forall|args: Seq<Seq<char>>, r: Reading| r.missing ==> #[trigger] read_on(args, r) == r,
{
}

/// What reading a command line comes to: the options that were read, whole, where an output was
/// named and no value was missing; and the flags that were not known, in any case.
pub proof fn law_outcome(p: Parsed, args: Seq<Seq<char>>)
    requires
        reads_as(p, args),
    ensures
        ({
            let r = read_on(args, nothing_read());
            &&& texts(p.ignored@) == r.ignored
            &&& p.outcome is Ok <==> !r.missing && r.opts.output.len() > 0
            &&& p.outcome matches Ok(o) ==> {
                &&& paths(o.inputs@) == r.opts.inputs
                &&& paths(o.lib_dirs@) == r.opts.lib_dirs
                &&& opt_path(o.export_symbols) == r.opts.export_symbols
                &&& o.output.bytes@ == r.opts.output
                &&& o.cpu@ == r.opts.cpu
            }
            &&& p.outcome matches Err(e) ==> (e == ArgError::MissingValue <==> r.missing)
        }),
{
}

/// The arguments are those of the sources in their order: a plain one stands for itself, whatever
/// it is spelled like, and a response file for its words.
pub proof fn law_expanded(v: Seq<Source>, a: String)
    ensures
        expanded(seq![]) == Seq::<Seq<char>>::empty(),
        expanded(v.push(Source::Plain(a))) == expanded(v) + seq![a@],
        expanded(v.push(Source::Response(a))) == expanded(v) + words(a@),
{
    assert(v.push(Source::Plain(a)).drop_last() =~= v);
    assert(v.push(Source::Response(a)).drop_last() =~= v);
}

/// What the options of a link are made of.
pub proof fn law_opts(o: Opts)
    ensures
        o@.inputs == paths(o.inputs@),
        o@.lib_dirs == paths(o.lib_dirs@),
        o@.export_symbols == opt_path(o.export_symbols),
        o@.output == o.output.bytes@,
        o@.cpu == o.cpu@,
{
}

} // verus!
