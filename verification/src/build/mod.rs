//! The libarena headers and BPF C sources that a build compiles, once they lie in a directory.
pub mod compile;

use vstd::prelude::*;

use crate::path::{joined, law_join_is_associative, utf8, PathBuf, SLASH};

verus! {

/// The compiler flags that libarena's sources need.
pub fn cflags() -> (r: [&'static str; 3])
    ensures
        r@ == seq![
            "-DENABLE_ATOMICS_TESTS",
            "-Wno-macro-redefined",
            "-Wno-missing-declarations",
        ],
{
    let r: [&'static str; 3] = [
        "-DENABLE_ATOMICS_TESTS",
        "-Wno-macro-redefined",
        "-Wno-missing-declarations",
    ];
    assert(r@ =~= seq![
        "-DENABLE_ATOMICS_TESTS",
        "-Wno-macro-redefined",
        "-Wno-missing-declarations",
    ]);
    r
}

/// Where the sources are put, below a directory.
pub open spec fn assets_root(out_dir: Seq<u8>) -> Seq<u8> {
    joined(out_dir, utf8("libarena-rs"@))
}

/// libarena's headers and BPF C sources, extracted.
#[derive(Debug, PartialEq, Eq)]
pub struct BpfAssets {
    root: PathBuf,
}

impl View for BpfAssets {
    type V = Seq<u8>;

    /// The root of the source tree.
    closed spec fn view(&self) -> Seq<u8> {
        self.root@
    }
}

impl BpfAssets {
    /// The root of the extracted source tree.
    pub fn root(&self) -> (r: &PathBuf)
        ensures
            r@ == self@,
    {
        &self.root
    }

    /// The directory of libarena's public headers.
    pub fn include_dir(&self) -> (r: PathBuf)
        ensures
            r@ == joined(self@, utf8("include"@)),
    {
        self.root.join_text("include")
    }

    /// The directory of libarena's BPF C sources.
    pub fn source_dir(&self) -> (r: PathBuf)
        ensures
            r@ == joined(self@, utf8("src"@)),
    {
        self.root.join_text("src")
    }

    /// A BPF C source, relative to the directory of the sources.
    pub fn source(&self, name: &PathBuf) -> (r: PathBuf)
        ensures
            r@ == joined(joined(self@, utf8("src"@)), name@),
    {
        self.source_dir().join(name)
    }
}

/// What an extraction does to its root, in this order.
#[derive(Clone, Copy, Debug, PartialEq, Eq, Structural)]
pub enum Task {
    /// Remove what an earlier extraction left there.
    Remove,
    /// Make the directory.
    Create,
    /// Unpack the packaged sources into it.
    Unpack,
}

/// How a task ended.
#[derive(Clone, Copy, Debug, PartialEq, Eq, Structural)]
pub enum TaskEnd {
    /// It was done.
    Done,
    /// What it was to work on does not exist.
    NotFound,
    /// It failed in another way.
    Failed,
}

/// What follows a task.
#[derive(Debug, PartialEq, Eq)]
pub enum Following {
    /// The next task.
    Next(Task),
    /// Nothing: the sources are in place.
    Ready(BpfAssets),
    /// Nothing: the extraction fails with the error of the task.
    GiveUp,
}

/// Where an extraction below `out_dir` puts the sources.
pub fn extract_root(out_dir: &PathBuf) -> (r: PathBuf)
    ensures
        r@ == assets_root(out_dir@),
{
    out_dir.join_text("libarena-rs")
}

/// The task that an extraction begins with: nothing of an earlier one may be left.
pub open spec fn beginning() -> Task {
    Task::Remove
}

/// The task that an extraction begins with.
pub fn first_task() -> (r: Task)
    ensures
        r == beginning(),
{
    Task::Remove
}

/// Whether `task` fails the extraction by ending so. That there was nothing to remove is no
/// failure.
pub open spec fn gives_up(task: Task, end: TaskEnd) -> bool {
    end == TaskEnd::Failed || (end == TaskEnd::NotFound && task != Task::Remove)
}

/// The task after `task`, where there is one.
pub open spec fn task_after(task: Task) -> Option<Task> {
    match task {
        Task::Remove => Some(Task::Create),
        Task::Create => Some(Task::Unpack),
        Task::Unpack => None,
    }
}

/// What follows `task` in an extraction to `root`.
pub fn extract(root: &PathBuf, task: Task, end: TaskEnd) -> (r: Following)
    ensures
        r is GiveUp <==> gives_up(task, end),
        r is GiveUp || match task_after(task) {
            Some(next) => r == Following::Next(next),
            None => r matches Following::Ready(a) && a@ == root@,
        },
{
    match (task, end) {
        (Task::Remove, TaskEnd::Done) | (Task::Remove, TaskEnd::NotFound) => Following::Next(
            Task::Create,
        ),
        (Task::Create, TaskEnd::Done) => Following::Next(Task::Unpack),
        (Task::Unpack, TaskEnd::Done) => Following::Ready(BpfAssets { root: root.copy() }),
        _ => Following::GiveUp,
    }
}

/// The tasks that an extraction performs from `task` on, where they end as `ends` says.
pub open spec fn performed(task: Task, ends: Seq<TaskEnd>) -> Seq<Task>
    decreases ends.len(),
{
    if ends.len() == 0 {
        seq![]
    } else {
        seq![task] + match task_after(task) {
            Some(next) if !gives_up(task, ends[0]) => performed(next, ends.skip(1)),
            _ => seq![],
        }
    }
}

/// Whether an extraction whose tasks end as `ends` says, from `task` on, is ready with the last of
/// them.
pub open spec fn gets_ready(task: Task, ends: Seq<TaskEnd>) -> bool
    decreases ends.len(),
{
    ends.len() > 0 && !gives_up(task, ends[0]) && match task_after(task) {
        Some(next) => gets_ready(next, ends.skip(1)),
        None => ends.len() == 1,
    }
}

/// An extraction is ready just where what was there is gone, the directory made and the sources
/// unpacked, in this order. However it ends, its tasks are the first of these, so that nothing is
/// unpacked onto what an earlier extraction left.
pub proof fn law_extraction_starts_afresh(ends: Seq<TaskEnd>)
    ensures
        gets_ready(beginning(), ends) <==> ends.len() == 3 && ends[0] != TaskEnd::Failed && ends[1]
            == TaskEnd::Done && ends[2] == TaskEnd::Done,
        gets_ready(beginning(), ends) ==> performed(beginning(), ends) == seq![
            Task::Remove,
            Task::Create,
            Task::Unpack,
        ],
        performed(beginning(), ends).is_prefix_of(seq![Task::Remove, Task::Create, Task::Unpack]),
        performed(beginning(), ends).contains(Task::Unpack) ==> ends[0] != TaskEnd::Failed
            && ends[1] == TaskEnd::Done,
{
    let rest = ends.skip(1);
    let last = rest.skip(1);
    let all = seq![Task::Remove, Task::Create, Task::Unpack];
    let p = performed(Task::Remove, ends);
    let q = performed(Task::Create, rest);
    let u = performed(Task::Unpack, last);
    assert(gets_ready(Task::Create, rest) == (rest.len() > 0 && !gives_up(Task::Create, rest[0])
        && gets_ready(Task::Unpack, last)));
    assert(ends.len() > 0 ==> gets_ready(Task::Remove, ends) == (!gives_up(Task::Remove, ends[0])
        && gets_ready(Task::Create, rest)));
    assert(u.len() > 0 ==> u =~= seq![Task::Unpack]);
    assert(q.len() > 0 ==> q =~= seq![Task::Create] + if gives_up(Task::Create, rest[0]) {
        seq![]
    } else {
        u
    });
    assert(p.len() > 0 ==> p =~= seq![Task::Remove] + if gives_up(Task::Remove, ends[0]) {
        seq![]
    } else {
        q
    });
    assert(p =~= all.take(p.len() as int));
    if p.contains(Task::Unpack) {
        let k = choose|k: int| 0 <= k < p.len() && p[k] == Task::Unpack;
        assert(k == 2);
    }
}

/// A relative source name resolves below the root, in its `src` directory.
pub proof fn law_sources_lie_below_the_root(root: Seq<u8>, name: Seq<u8>)
    requires
        name.len() == 0 || name[0] != SLASH,
    ensures
        joined(joined(root, utf8("src"@)), name) == joined(root, joined(utf8("src"@), name)),
{
    lemma_src();
    law_join_is_associative(root, utf8("src"@), name);
}

/// `src` is a relative name.
proof fn lemma_src()
    ensures
        utf8("src"@).len() > 0,
        utf8("src"@)[0] != SLASH,
{
    reveal_strlit("src");
    vstd::utf8::is_ascii_chars_encode_utf8("src"@);
}

/// The sources are put into `libarena-rs` below the directory of the build.
pub proof fn law_assets_root(out_dir: Seq<u8>)
    ensures
        assets_root(out_dir) == joined(out_dir, utf8("libarena-rs"@)),
{
}

/// Which endings fail an extraction: a failure of any task, and that what is to be made or unpacked
/// into is not found; but not that there is nothing to remove.
pub proof fn law_failing_ends(task: Task)
    ensures
        gives_up(task, TaskEnd::Failed),
        !gives_up(task, TaskEnd::Done),
        gives_up(task, TaskEnd::NotFound) <==> task != Task::Remove,
{
}

} // verus!
