//! The knobs that the linker reads from its environment.
use vstd::prelude::*;

use crate::path::{paths, utf8, PathBuf};
use crate::text::{opt_text, parts, same, split, texts, words, Separator};

verus! {

/// The variables that the linker reads, each as it is set.
#[derive(Debug, PartialEq, Eq)]
pub struct Env {
    /// `LLVM_PREFIX`: where the LLVM tools are installed.
    pub llvm_prefix: Option<String>,
    /// `PYTHON`: the interpreter of the passes.
    pub python: Option<String>,
    /// `TRAP_MODE`: how a panic or an allocation failure exits.
    pub trap_mode: Option<String>,
    /// `TRAP_COOKIE`: what a program returns then.
    pub trap_cookie: Option<String>,
    /// `VOID_GLOBALS`: what becomes of global functions that return nothing.
    pub void_globals: Option<String>,
    /// `KEEP_EXTRA`: more symbols to keep global.
    pub keep_extra: Option<String>,
    /// `ARENA_PRE_PASSES`: passes to run before internalizing.
    pub pre_passes: Option<String>,
    /// `ARENA_POST_PASSES`: passes to run after optimizing.
    pub post_passes: Option<String>,
    /// `ARENA_LINKER_KEEP_TEMPS`: whether to keep the intermediate files.
    pub keep_temps: Option<String>,
    /// `ARENA_LINKER_VERBOSE`: whether to log the commands.
    pub verbose: Option<String>,
    /// `LIBARENA_VMLINUX_H`: the kernel header of another kernel than the running one.
    pub vmlinux_h: Option<String>,
}

/// The value of a variable; an empty one counts as unset.
pub open spec fn value(v: Option<Seq<char>>) -> Option<Seq<char>> {
    match v {
        Some(s) => if s.len() == 0 {
            None
        } else {
            Some(s)
        },
        None => None,
    }
}

/// The value of a variable, or what stands for it where it is unset.
pub open spec fn value_or(v: Option<String>, default: Seq<char>) -> Seq<char> {
    match value(opt_text(v)) {
        Some(s) => s,
        None => default,
    }
}

/// The value of a variable; an empty one counts as unset.
pub fn envv(v: Option<String>) -> (r: Option<String>)
    ensures
        opt_text(r) == value(opt_text(v)),
{
    match v {
        Some(s) => if s.as_str().is_empty() {
            None
        } else {
            Some(s)
        },
        None => None,
    }
}

fn is_set(v: &Option<String>) -> (r: bool)
    ensures
        r == (value(opt_text(*v)) is Some),
{
    match v {
        Some(s) => !s.as_str().is_empty(),
        None => false,
    }
}

fn or(v: &Option<String>, default: &str) -> (r: String)
    ensures
        r@ == value_or(*v, default@),
{
    match v {
        Some(s) => if s.as_str().is_empty() {
            default.to_owned()
        } else {
            s.clone()
        },
        None => default.to_owned(),
    }
}

/// The paths of the passes in a list of them, separated by colons.
pub open spec fn pass_list(v: Option<String>) -> Seq<Seq<u8>> {
    parts(value_or(v, ""@), Separator::One(':')).map_values(|p: Seq<char>| utf8(p))
}

fn passes(v: &Option<String>) -> (r: Vec<PathBuf>)
    ensures
        paths(r@) == pass_list(*v),
{
    let list = or(v, "");
    let names = split(list.as_str(), Separator::One(':'));
    let ghost all = texts(names@);
    let ghost f = |p: Seq<char>| utf8(p);
    let mut r: Vec<PathBuf> = Vec::new();
    let mut i: usize = 0;
    assert(paths(r@) =~= all.take(0).map_values(f));
    while i < names.len()
        invariant
            i <= names.len(),
            all == texts(names@),
            f == (|p: Seq<char>| utf8(p)),
            paths(r@) == all.take(i as int).map_values(f),
        decreases names.len() - i,
    {
        let p = PathBuf::from_text(names[i].as_str());
        let ghost before = r@;
        r.push(p);
        proof {
            assert(paths(r@) =~= paths(before).push(p@));
            assert(all.take(i + 1).map_values(f) =~= all.take(i as int).map_values(f).push(
                utf8(all[i as int]),
            ));
        }
        i = i + 1;
    }
    assert(all.take(i as int) =~= all);
    r
}

/// How traps leave a program, before the running kernel is asked: as the variable says; else to be
/// decided for the running kernel, unless the build is for another one.
pub open spec fn wanted_trap_mode(env: Env) -> Seq<char> {
    value_or(
        env.trap_mode,
        if value(opt_text(env.vmlinux_h)) is None {
            "auto"@
        } else {
            "throw"@
        },
    )
}

/// How traps leave a program, given whether the running kernel shows its configuration, and
/// whether that has the unwinder that exceptions need: a mode other than `auto` stays.
pub open spec fn settled_trap_mode(wanted: Seq<char>, has_config: bool, orc: bool) -> Seq<char> {
    if wanted != "auto"@ {
        wanted
    } else if has_config && !orc {
        "ret"@
    } else {
        "throw"@
    }
}

/// How traps leave a program, once the running kernel is known.
pub fn settle_trap_mode(wanted: String, has_config: bool, orc: bool) -> (r: String)
    ensures
        r@ == settled_trap_mode(wanted@, has_config, orc),
{
    if !same(wanted.as_str(), "auto") {
        wanted
    } else if has_config && !orc {
        "ret".to_owned()
    } else {
        "throw".to_owned()
    }
}

impl Env {
    /// Whether to log the commands.
    pub open spec fn is_verbose(self) -> bool {
        value(opt_text(self.verbose)) is Some
    }

    /// Whether to keep the intermediate files.
    pub open spec fn keeps_temps(self) -> bool {
        value(opt_text(self.keep_temps)) is Some
    }

    /// Whether global functions that return nothing become local ones.
    pub open spec fn internalizes_void(self) -> bool {
        value_or(self.void_globals, "internalize"@) == "internalize"@
    }

    /// The symbols to keep global beside those of the program.
    pub open spec fn extra_symbols(self) -> Seq<Seq<char>> {
        words(value_or(self.keep_extra, ""@))
    }

    /// What a trapped program returns.
    pub open spec fn cookie(self) -> Seq<char> {
        value_or(self.trap_cookie, "0xC0DED"@)
    }

    /// Whether to log the commands.
    pub fn verbose(&self) -> (r: bool)
        ensures
            r == self.is_verbose(),
    {
        is_set(&self.verbose)
    }

    /// Whether to keep the intermediate files.
    pub fn keep_temps(&self) -> (r: bool)
        ensures
            r == self.keeps_temps(),
    {
        is_set(&self.keep_temps)
    }

    /// The interpreter of the passes.
    pub fn python(&self) -> (r: String)
        ensures
            r@ == value_or(self.python, "python3"@),
    {
        or(&self.python, "python3")
    }

    /// Where the LLVM tools are installed.
    pub fn llvm_prefix(&self) -> (r: Option<String>)
        ensures
            opt_text(r) == value(opt_text(self.llvm_prefix)),
    {
        match &self.llvm_prefix {
            Some(s) => envv(Some(s.clone())),
            None => None,
        }
    }

    /// Whether global functions that return nothing become local ones.
    pub fn internalize_void(&self) -> (r: bool)
        ensures
            r == self.internalizes_void(),
    {
        same(or(&self.void_globals, "internalize").as_str(), "internalize")
    }

    /// The symbols to keep global beside those of the program.
    pub fn keep_extra(&self) -> (r: Vec<String>)
        ensures
            texts(r@) == self.extra_symbols(),
    {
        split(or(&self.keep_extra, "").as_str(), Separator::White)
    }

    /// The passes to run before internalizing.
    pub fn pre_passes(&self) -> (r: Vec<PathBuf>)
        ensures
            paths(r@) == pass_list(self.pre_passes),
    {
        passes(&self.pre_passes)
    }

    /// The passes to run after optimizing.
    pub fn post_passes(&self) -> (r: Vec<PathBuf>)
        ensures
            paths(r@) == pass_list(self.post_passes),
    {
        passes(&self.post_passes)
    }

    /// What a trapped program returns.
    pub fn trap_cookie(&self) -> (r: String)
        ensures
            r@ == self.cookie(),
    {
        or(&self.trap_cookie, "0xC0DED")
    }

    /// How traps leave a program, before the running kernel is asked.
    pub fn trap_mode(&self) -> (r: String)
        ensures
            r@ == wanted_trap_mode(*self),
    {
        if is_set(&self.vmlinux_h) {
            or(&self.trap_mode, "throw")
        } else {
            or(&self.trap_mode, "auto")
        }
    }
}

/// The settled mode is never `auto`; it is the wanted one wherever that is not `auto`; and where it
/// is, traps are returned if the running kernel shows that it has no unwinder for exceptions, and
/// thrown otherwise.
pub proof fn law_trap_mode_is_settled(wanted: Seq<char>, has_config: bool, orc: bool)
    ensures
        settled_trap_mode(wanted, has_config, orc) != "auto"@,
        wanted != "auto"@ ==> settled_trap_mode(wanted, has_config, orc) == wanted,
        wanted == "auto"@ ==> (settled_trap_mode(wanted, has_config, orc) == "ret"@ <==> has_config
            && !orc),
        wanted == "auto"@ ==> (settled_trap_mode(wanted, has_config, orc) == "throw"@
            <==> !has_config || orc),
{
    reveal_strlit("auto");
    reveal_strlit("ret");
    reveal_strlit("throw");
    assert("ret"@.len() == 3 && "auto"@.len() == 4 && "throw"@.len() == 5);
}

/// A variable that is set to nothing is as good as unset.
pub proof fn law_empty_counts_as_unset(default: Seq<char>, v: String)
    ensures
        value(Some(Seq::<char>::empty())) == value(None),
        v@.len() == 0 ==> value_or(Some(v), default) == value_or(None, default),
{
}

/// A variable that is set to something has that value, whatever it is; one that is unset, or set to
/// nothing, has the value that stands for it.
pub proof fn law_value(v: Option<String>, default: Seq<char>)
    ensures
        v is None || v->0@.len() == 0 ==> value(opt_text(v)) is None && value_or(v, default)
            == default,
        v is Some && v->0@.len() > 0 ==> value(opt_text(v)) == Some(v->0@) && value_or(v, default)
            == v->0@,
{
}

/// The knobs that switch something on: any value that is not empty does.
pub proof fn law_switches(e: Env)
    ensures
        e.is_verbose() <==> e.verbose is Some && e.verbose->0@.len() > 0,
        e.keeps_temps() <==> e.keep_temps is Some && e.keep_temps->0@.len() > 0,
        e.internalizes_void() <==> e.void_globals is None || e.void_globals->0@.len() == 0
            || e.void_globals->0@ == "internalize"@,
{
}

/// The knobs that name something: the cookie as it is given, else `0xC0DED`; the words of the extra
/// symbols; and the way of traps as it is given, else `throw` where a kernel header is given and
/// `auto` where none is.
pub proof fn law_knobs(e: Env)
    ensures
        e.trap_cookie is Some && e.trap_cookie->0@.len() > 0 ==> e.cookie() == e.trap_cookie->0@,
        e.trap_cookie is None || e.trap_cookie->0@.len() == 0 ==> e.cookie() == "0xC0DED"@,
        e.keep_extra is Some ==> e.extra_symbols() == words(e.keep_extra->0@),
        e.keep_extra is None ==> e.extra_symbols().len() == 0,
        e.trap_mode is Some && e.trap_mode->0@.len() > 0 ==> wanted_trap_mode(e)
            == e.trap_mode->0@,
        (e.trap_mode is None || e.trap_mode->0@.len() == 0) && e.vmlinux_h is Some
            && e.vmlinux_h->0@.len() > 0 ==> wanted_trap_mode(e) == "throw"@,
        (e.trap_mode is None || e.trap_mode->0@.len() == 0) && (e.vmlinux_h is None
            || e.vmlinux_h->0@.len() == 0) ==> wanted_trap_mode(e) == "auto"@,
{
    reveal_strlit("");
    assert(""@ =~= Seq::<char>::empty());
    assert(words(""@) =~= seq![]);
    if e.keep_extra is Some && e.keep_extra->0@.len() == 0 {
        assert(e.keep_extra->0@ =~= ""@);
    }
}

/// The passes of a list are the parts between its colons, in order, each a path of just these
/// bytes; an unset list has none.
pub proof fn law_pass_list(v: Option<String>)
    ensures
        v is None ==> pass_list(v).len() == 0,
        v is Some ==> pass_list(v).len() == parts(v->0@, Separator::One(':')).len(),
        v is Some ==> forall|i: int|
            0 <= i < pass_list(v).len() ==> #[trigger] pass_list(v)[i] == utf8(
                parts(v->0@, Separator::One(':'))[i],
            ),
{
    reveal_strlit("");
    assert(""@ =~= Seq::<char>::empty());
    assert(parts(""@, Separator::One(':')) =~= seq![]);
    if v is Some && v->0@.len() == 0 {
        assert(v->0@ =~= ""@);
    }
}

} // verus!
