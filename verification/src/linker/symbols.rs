//! What the linker learns from files and from the output of tools.
use vstd::prelude::*;

use crate::order::{
    in_order, law_sorted_once, law_sorted_paths, no_later, sort, sort_once, sorted_once,
    strictly_ascending, views,
};
use crate::path::{paths, utf8, PathBuf};
use crate::text::{
    as_lines, contains, from_utf8_lossy, is_part, law_written_list_is_read_back, lemma_parts,
    occurs_in, opt_text, parts, same, split, texts, utf8_lossy, words, Separator,
};

verus! {

/// How LLVM bitcode starts.
pub open spec fn bitcode_magic() -> Seq<u8> {
    seq![0x42u8, 0x43, 0xC0, 0xDE]
}

/// How an `ar` archive starts: `!<arch>` and a line feed.
pub open spec fn archive_magic() -> Seq<u8> {
    seq![0x21u8, 0x3C, 0x61, 0x72, 0x63, 0x68, 0x3E, 0x0A]
}

/// Whether `b` starts with `magic`.
pub open spec fn has_magic(b: Seq<u8>, magic: Seq<u8>) -> bool {
    magic.len() <= b.len() && b.take(magic.len() as int) == magic
}

/// Whether a file of these contents is bitcode; one that cannot be read is not.
pub open spec fn is_bitcode_file(contents: Option<Vec<u8>>) -> bool {
    contents matches Some(b) && has_magic(b@, bitcode_magic())
}

/// Whether a file of these contents is an archive; one that cannot be read is not.
pub open spec fn is_archive_file(contents: Option<Vec<u8>>) -> bool {
    contents matches Some(b) && has_magic(b@, archive_magic())
}

/// Whether a file of these contents is bitcode.
pub fn is_bitcode(contents: &Option<Vec<u8>>) -> (r: bool)
    ensures
        r == is_bitcode_file(*contents),
{
    match contents {
        None => false,
        Some(b) => {
            let r = b.len() >= 4 && b[0] == 0x42 && b[1] == 0x43 && b[2] == 0xC0 && b[3] == 0xDE;
            proof {
                if r {
                    assert(b@.take(4) =~= bitcode_magic());
                } else if b.len() >= 4 && b@.take(4) == bitcode_magic() {
                    assert(b@.take(4)[0] == b@[0] && b@.take(4)[1] == b@[1]);
                    assert(b@.take(4)[2] == b@[2] && b@.take(4)[3] == b@[3]);
                }
            }
            r
        },
    }
}

/// Whether a file of these contents is an archive.
pub fn is_archive(contents: &Option<Vec<u8>>) -> (r: bool)
    ensures
        r == is_archive_file(*contents),
{
    match contents {
        None => false,
        Some(b) => {
            let r = b.len() >= 8 && b[0] == 0x21 && b[1] == 0x3C && b[2] == 0x61 && b[3] == 0x72
                && b[4] == 0x63 && b[5] == 0x68 && b[6] == 0x3E && b[7] == 0x0A;
            proof {
                if r {
                    assert(b@.take(8) =~= archive_magic());
                } else if b.len() >= 8 && b@.take(8) == archive_magic() {
                    assert(b@.take(8)[0] == b@[0] && b@.take(8)[1] == b@[1]);
                    assert(b@.take(8)[2] == b@[2] && b@.take(8)[3] == b@[3]);
                    assert(b@.take(8)[4] == b@[4] && b@.take(8)[5] == b@[5]);
                    assert(b@.take(8)[6] == b@[6] && b@.take(8)[7] == b@[7]);
                }
            }
            r
        },
    }
}

/// A file that was unpacked from an archive.
#[derive(Debug, PartialEq, Eq)]
pub struct Member {
    pub path: PathBuf,
    /// Its contents, where it can be read.
    pub contents: Option<Vec<u8>>,
}

/// The paths of the bitcode among `ms`.
pub open spec fn bitcode_of(ms: Seq<Member>) -> Seq<Seq<u8>>
    decreases ms.len(),
{
    if ms.len() == 0 {
        seq![]
    } else if is_bitcode_file(ms.last().contents) {
        bitcode_of(ms.drop_last()).push(ms.last().path@)
    } else {
        bitcode_of(ms.drop_last())
    }
}

/// The paths of the bitcode among `ms`, in byte order. The members of an archive lie in one
/// directory, so that this is the order of their names.
pub open spec fn sorted_bitcode_of(ms: Seq<Member>) -> Seq<Seq<u8>> {
    in_order::<PathBuf>(bitcode_of(ms))
}

/// The paths of the bitcode among the members of an archive, in order.
pub fn extract(ms: &Vec<Member>) -> (r: Vec<PathBuf>)
    ensures
        paths(r@) == sorted_bitcode_of(ms@),
{
    let mut v: Vec<PathBuf> = Vec::new();
    let mut i: usize = 0;
    assert(paths(v@) =~= bitcode_of(ms@.take(0)));
    while i < ms.len()
        invariant
            i <= ms.len(),
            paths(v@) == bitcode_of(ms@.take(i as int)),
        decreases ms.len() - i,
    {
        let ghost before = v@;
        assert(ms@.take(i + 1).drop_last() =~= ms@.take(i as int));
        if is_bitcode(&ms[i].contents) {
            let p = ms[i].path.copy();
            v.push(p);
            assert(paths(v@) =~= paths(before).push(p@));
        }
        i = i + 1;
    }
    assert(ms@.take(i as int) =~= ms@);
    assert(views(v@) =~= paths(v@));
    let r = sort(v);
    assert(views(r@) =~= paths(r@));
    r
}

/// The names that a file of names holds, separated by white space; one that cannot be read holds
/// none.
pub open spec fn names_in(text: Option<Seq<char>>) -> Seq<Seq<char>> {
    match text {
        Some(t) => words(t),
        None => seq![],
    }
}

/// The names that a file of names holds.
pub fn read_lines(text: &Option<String>) -> (r: Vec<String>)
    ensures
        texts(r@) == names_in(opt_text(*text)),
{
    match text {
        Some(t) => split(t.as_str(), Separator::White),
        None => {
            let r: Vec<String> = Vec::new();
            assert(texts(r@) =~= seq![]);
            r
        },
    }
}

/// Whether `s` names one of the memory functions, which are not libarena's to keep.
pub open spec fn is_memory_function(s: Seq<char>) -> bool {
    s == "bpf_arena_memcpy"@ || s == "bpf_arena_memcmp"@ || s == "bpf_arena_memset"@ || s
        == "memset"@
}

fn memory_function(s: &str) -> (r: bool)
    ensures
        r == is_memory_function(s@),
{
    same(s, "bpf_arena_memcpy") || same(s, "bpf_arena_memcmp") || same(s, "bpf_arena_memset")
        || same(s, "memset")
}

/// The function that a line of `llvm-nm` lists: its third field, where the second marks code,
/// global or local, strong or weak.
pub open spec fn symbol_of(line: Seq<char>) -> Option<Seq<char>> {
    let f = words(line);
    if f.len() >= 3 && occurs_in(f[1], "TtWw"@) && !is_memory_function(f[2]) {
        Some(f[2])
    } else {
        None
    }
}

/// The functions that the lines list.
pub open spec fn symbols_of(lines: Seq<Seq<char>>) -> Seq<Seq<char>>
    decreases lines.len(),
{
    if lines.len() == 0 {
        seq![]
    } else {
        match symbol_of(lines.last()) {
            Some(s) => symbols_of(lines.drop_last()).push(s),
            None => symbols_of(lines.drop_last()),
        }
    }
}

/// The functions that an output of `llvm-nm` lists, but the memory functions, in order and each
/// once. A carriage return before a line feed is white space like any other.
pub open spec fn arena_symbols(nm: Seq<char>) -> Seq<Seq<char>> {
    sorted_once(symbols_of(parts(nm, Separator::One('\n'))))
}

/// The functions of libarena that an output of `llvm-nm` lists.
pub fn arena_syms(nm: &[u8]) -> (r: Vec<String>)
    ensures
        texts(r@) == arena_symbols(utf8_lossy(nm@)),
{
    arena_syms_in(from_utf8_lossy(nm).as_str())
}

/// The functions of libarena that the text of an output of `llvm-nm` lists.
pub fn arena_syms_in(nm: &str) -> (r: Vec<String>)
    ensures
        texts(r@) == arena_symbols(nm@),
{
    let lines = split(nm, Separator::One('\n'));
    let ghost all = texts(lines@);
    let mut v: Vec<String> = Vec::new();
    let mut i: usize = 0;
    assert(texts(v@) =~= symbols_of(all.take(0)));
    while i < lines.len()
        invariant
            i <= lines.len(),
            all == texts(lines@),
            texts(v@) == symbols_of(all.take(i as int)),
        decreases lines.len() - i,
    {
        let ghost before = v@;
        let f = split(lines[i].as_str(), Separator::White);
        proof {
            assert(all.take(i + 1).drop_last() =~= all.take(i as int));
            assert(all.take(i + 1).last() == lines@[i as int]@);
            assert(texts(f@).len() == f@.len());
            if f@.len() >= 3 {
                assert(texts(f@)[1] == f@[1]@);
                assert(texts(f@)[2] == f@[2]@);
            }
        }
        if f.len() >= 3 && contains("TtWw", f[1].as_str()) && !memory_function(f[2].as_str()) {
            let s = f[2].clone();
            v.push(s);
            assert(texts(v@) =~= texts(before).push(s@));
        }
        i = i + 1;
    }
    assert(all.take(i as int) =~= all);
    sort_once(v)
}

/// Every listed function comes from a line that lists it.
proof fn lemma_symbols_of(lines: Seq<Seq<char>>, s: Seq<char>)
    ensures
        symbols_of(lines).contains(s) <==> exists|i: int|
            0 <= i < lines.len() && symbol_of(#[trigger] lines[i]) == Some(s),
    decreases lines.len(),
{
    if lines.len() > 0 {
        let init = lines.drop_last();
        lemma_symbols_of(init, s);
        let before = symbols_of(init);
        let now = symbols_of(lines);
        if now.contains(s) {
            let k = choose|k: int| 0 <= k < now.len() && now[k] == s;
            if k < before.len() {
                assert(before[k] == s);
                assert(before.contains(s));
                let i = choose|i: int|
                    0 <= i < init.len() && symbol_of(#[trigger] init[i]) == Some(s);
                assert(symbol_of(lines[i]) == Some(s));
            } else {
                assert(symbol_of(lines[lines.len() - 1]) == Some(s));
            }
        }
        if exists|i: int| 0 <= i < lines.len() && symbol_of(#[trigger] lines[i]) == Some(s) {
            let i = choose|i: int|
                0 <= i < lines.len() && symbol_of(#[trigger] lines[i]) == Some(s);
            if i < init.len() {
                assert(symbol_of(init[i]) == Some(s));
                assert(before.contains(s));
                let k = choose|k: int| 0 <= k < before.len() && before[k] == s;
                assert(now[k] == s);
            } else {
                assert(now[now.len() - 1] == s);
            }
        }
    }
}

/// The list of libarena's functions is strictly ascending; a name is on it just where some line
/// lists it; and none of the memory functions is.
pub proof fn law_arena_symbols(nm: Seq<char>, s: Seq<char>)
    ensures
        strictly_ascending(arena_symbols(nm)),
        arena_symbols(nm).contains(s) <==> exists|i: int|
            0 <= i < parts(nm, Separator::One('\n')).len() && symbol_of(
                #[trigger] parts(nm, Separator::One('\n'))[i],
            ) == Some(s),
        is_memory_function(s) ==> !arena_symbols(nm).contains(s),
{
    let lines = parts(nm, Separator::One('\n'));
    law_sorted_once(symbols_of(lines));
    lemma_symbols_of(lines, s);
}

/// The functions that stay out of line: those that are kept and libarena's.
pub open spec fn not_inlined(keep: Seq<Seq<char>>, syms: Seq<Seq<char>>) -> Seq<Seq<char>> {
    sorted_once(keep + syms)
}

/// Every kept function and every one of libarena's stays out of line, and no other.
pub proof fn law_kept_and_arena_functions_stay_out_of_line(
    keep: Seq<Seq<char>>,
    syms: Seq<Seq<char>>,
    s: Seq<char>,
)
    ensures
        not_inlined(keep, syms).contains(s) <==> keep.contains(s) || syms.contains(s),
        strictly_ascending(not_inlined(keep, syms)),
{
    law_sorted_once(keep + syms);
    let all = keep + syms;
    if all.contains(s) {
        let k = choose|k: int| 0 <= k < all.len() && all[k] == s;
        if k < keep.len() {
            assert(keep[k] == s);
        } else {
            assert(syms[k - keep.len()] == s);
        }
    }
    if keep.contains(s) {
        let k = choose|k: int| 0 <= k < keep.len() && keep[k] == s;
        assert(all[k] == s);
    }
    if syms.contains(s) {
        let k = choose|k: int| 0 <= k < syms.len() && syms[k] == s;
        assert(all[keep.len() + k] == s);
    }
}

/// libarena's functions, the symbols to keep, and what is not inlined of both are words, so that
/// each list, once written, is read back as it was.
pub proof fn law_symbol_lists_are_read_back(nm: Seq<char>, kept: Seq<char>)
    ensures
        words(as_lines(arena_symbols(nm))) == arena_symbols(nm),
        words(as_lines(words(kept))) == words(kept),
        words(as_lines(not_inlined(words(kept), arena_symbols(nm)))) == not_inlined(
            words(kept),
            arena_symbols(nm),
        ),
{
    let syms = arena_symbols(nm);
    let keep = words(kept);
    let both = not_inlined(keep, syms);
    assert forall|i: int| 0 <= i < syms.len() implies is_part(
        #[trigger] syms[i],
        Separator::White,
    ) by {
        let s = syms[i];
        law_arena_symbols(nm, s);
        assert(syms.contains(s));
        let lines = parts(nm, Separator::One('\n'));
        let k = choose|k: int| 0 <= k < lines.len() && symbol_of(#[trigger] lines[k]) == Some(s);
        lemma_parts(lines[k], Separator::White);
        assert(s == words(lines[k])[2]);
    }
    lemma_parts(kept, Separator::White);
    assert forall|i: int| 0 <= i < both.len() implies is_part(
        #[trigger] both[i],
        Separator::White,
    ) by {
        let s = both[i];
        law_kept_and_arena_functions_stay_out_of_line(keep, syms, s);
        assert(both.contains(s));
        if keep.contains(s) {
            let k = choose|k: int| 0 <= k < keep.len() && keep[k] == s;
            assert(is_part(keep[k], Separator::White));
        } else {
            let k = choose|k: int| 0 <= k < syms.len() && syms[k] == s;
            assert(is_part(syms[k], Separator::White));
        }
    }
    law_written_list_is_read_back(syms);
    law_written_list_is_read_back(keep);
    law_written_list_is_read_back(both);
}

/// A file is bitcode just where it can be read and begins with the bytes 42 43 C0 DE, and an archive
/// just where it begins with `!<arch>` and a line feed.
pub proof fn law_magic(b: Vec<u8>)
    ensures
        !is_bitcode_file(None) && !is_archive_file(None),
        is_bitcode_file(Some(b)) <==> b@.len() >= 4 && b@[0] == 0x42 && b@[1] == 0x43 && b@[2]
            == 0xC0 && b@[3] == 0xDE,
        is_archive_file(Some(b)) <==> b@.len() >= 8 && b@[0] == '!' as int && b@[1] == '<' as int
            && b@[2] == 'a' as int && b@[3] == 'r' as int && b@[4] == 'c' as int && b@[5]
            == 'h' as int && b@[6] == '>' as int && b@[7] == '\n' as int,
{
    if b@.len() >= 4 {
        let t = b@.take(4);
        assert(t[0] == b@[0] && t[1] == b@[1] && t[2] == b@[2] && t[3] == b@[3]);
        if b@[0] == 0x42 && b@[1] == 0x43 && b@[2] == 0xC0 && b@[3] == 0xDE {
            assert(t =~= bitcode_magic());
        }
    }
    if b@.len() >= 8 {
        let t = b@.take(8);
        assert(t[0] == b@[0] && t[1] == b@[1] && t[2] == b@[2] && t[3] == b@[3]);
        assert(t[4] == b@[4] && t[5] == b@[5] && t[6] == b@[6] && t[7] == b@[7]);
        if b@[0] == '!' as int && b@[1] == '<' as int && b@[2] == 'a' as int && b@[3] == 'r' as int
            && b@[4] == 'c' as int && b@[5] == 'h' as int && b@[6] == '>' as int && b@[7]
            == '\n' as int {
            assert(t =~= archive_magic());
        }
    }
}

/// Whether a member can be read and begins as bitcode does.
pub open spec fn begins_as_bitcode(m: Member) -> bool {
    m.contents matches Some(b) && b@.len() >= 4 && b@[0] == 0x42 && b@[1] == 0x43 && b@[2] == 0xC0
        && b@[3] == 0xDE
}

/// The bitcode among the members is what is left of them without the others.
proof fn lemma_bitcode_of(ms: Seq<Member>)
    ensures
        bitcode_of(ms) == ms.filter(|m: Member| begins_as_bitcode(m)).map_values(
            |m: Member| m.path.bytes@,
        ),
    decreases ms.len(),
{
    reveal(Seq::filter);
    let f = |m: Member| begins_as_bitcode(m);
    let g = |m: Member| m.path.bytes@;
    if ms.len() > 0 {
        lemma_bitcode_of(ms.drop_last());
        match ms.last().contents {
            Some(b) => law_magic(b),
            None => {},
        }
        let init = ms.drop_last().filter(f);
        assert(init.push(ms.last()).map_values(g) =~= init.map_values(g).push(g(ms.last())));
    }
    assert(bitcode_of(ms) =~= ms.filter(f).map_values(g));
}

/// From an archive every member that begins as bitcode does is taken, and no other: each path as
/// often as there are such members of it, in the order of bytes.
pub proof fn law_every_bitcode_member_is_taken(ms: Seq<Member>)
    ensures
        sorted_bitcode_of(ms).to_multiset() == ms.filter(
            |m: Member| begins_as_bitcode(m),
        ).map_values(|m: Member| m.path.bytes@).to_multiset(),
        sorted_bitcode_of(ms).len() == ms.filter(|m: Member| begins_as_bitcode(m)).len(),
        forall|i: int, j: int|
            0 <= i < j < sorted_bitcode_of(ms).len() ==> no_later(
                #[trigger] sorted_bitcode_of(ms)[i],
                #[trigger] sorted_bitcode_of(ms)[j],
            ),
        forall|k: int|
            0 <= k < ms.len() && begins_as_bitcode(#[trigger] ms[k])
                ==> sorted_bitcode_of(ms).contains(ms[k].path.bytes@),
{
    broadcast use vstd::seq_lib::group_to_multiset_ensures;

    lemma_bitcode_of(ms);
    law_sorted_paths(bitcode_of(ms));
    let f = |m: Member| begins_as_bitcode(m);
    let kept = ms.filter(f);
    let found = bitcode_of(ms);
    let r = sorted_bitcode_of(ms);
    assert forall|k: int| 0 <= k < ms.len() && begins_as_bitcode(#[trigger] ms[k]) implies r.contains(
        ms[k].path.bytes@,
    ) by {
        ms.lemma_filter_contains(f, k);
        let i = choose|i: int| 0 <= i < kept.len() && kept[i] == ms[k];
        assert(found[i] == ms[k].path.bytes@);
        assert(found.contains(ms[k].path.bytes@));
        assert(found.to_multiset().count(ms[k].path.bytes@) > 0);
        assert(r.to_multiset().count(ms[k].path.bytes@) > 0);
    }
}

/// libarena's functions are just the names that some line of `llvm-nm` gives in its third word, where
/// the second word occurs in `TtWw`, but for the four memory functions; they are in the order of
/// bytes, and none is there twice.
pub proof fn law_arena_functions(nm: Seq<char>, s: Seq<char>)
    ensures
        ({
            let lines = parts(nm, Separator::One('\n'));
            arena_symbols(nm).contains(s) <==> s != "bpf_arena_memcpy"@ && s != "bpf_arena_memcmp"@
                && s != "bpf_arena_memset"@ && s != "memset"@ && exists|i: int|
                0 <= i < lines.len() && words(#[trigger] lines[i]).len() >= 3 && occurs_in(
                    words(lines[i])[1],
                    "TtWw"@,
                ) && words(lines[i])[2] == s
        }),
        forall|i: int, j: int|
            0 <= i < j < arena_symbols(nm).len() ==> #[trigger] no_later(
                utf8(arena_symbols(nm)[i]),
                utf8(arena_symbols(nm)[j]),
            ) && arena_symbols(nm)[i] != arena_symbols(nm)[j],
{
    law_arena_symbols(nm, s);
    let lines = parts(nm, Separator::One('\n'));
    if exists|i: int|
        0 <= i < lines.len() && words(#[trigger] lines[i]).len() >= 3 && occurs_in(
            words(lines[i])[1],
            "TtWw"@,
        ) && words(lines[i])[2] == s {
        let i = choose|i: int|
            0 <= i < lines.len() && words(#[trigger] lines[i]).len() >= 3 && occurs_in(
                words(lines[i])[1],
                "TtWw"@,
            ) && words(lines[i])[2] == s;
        if !is_memory_function(s) {
            assert(symbol_of(lines[i]) == Some(s));
        }
    }
    if arena_symbols(nm).contains(s) {
        let i = choose|i: int| 0 <= i < lines.len() && symbol_of(#[trigger] lines[i]) == Some(s);
        assert(words(lines[i])[2] == s);
    }
}

/// What stays out of line is in the order of bytes, and nothing is there twice.
pub proof fn law_out_of_line_is_in_order(keep: Seq<Seq<char>>, syms: Seq<Seq<char>>)
    ensures
        forall|i: int, j: int|
            0 <= i < j < not_inlined(keep, syms).len() ==> #[trigger] no_later(
                utf8(not_inlined(keep, syms)[i]),
                utf8(not_inlined(keep, syms)[j]),
            ) && not_inlined(keep, syms)[i] != not_inlined(keep, syms)[j],
{
    law_sorted_once(keep + syms);
}

/// A file of names holds its words; one that cannot be read holds none.
pub proof fn law_names(text: Option<Seq<char>>)
    ensures
        text is Some ==> names_in(text) == words(text->0),
        text is None ==> names_in(text).len() == 0,
{
}

} // verus!
