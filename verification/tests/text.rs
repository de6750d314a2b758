use libarena_rs::order::{bytes_no_later, sort, sort_once};
use libarena_rs::path::PathBuf;
use libarena_rs::text::{
    cat, contains, decimal_of, lines_of, same, split, strip_prefix, trim, white_space, Separator,
};

fn strings(v: &[&str]) -> Vec<String> {
    v.iter().map(|s| s.to_string()).collect()
}

#[test]
fn words_are_runs_without_white_space() {
    assert_eq!(split("  a\tbc\n\u{3000}d ", Separator::White), strings(&["a", "bc", "d"]));
    assert_eq!(split("", Separator::White), strings(&[]));
    assert_eq!(split(" \r\n", Separator::White), strings(&[]));
}

#[test]
fn white_space_is_that_of_char() {
    for n in 0..0x11_0000u32 {
        if let Some(c) = char::from_u32(n) {
            assert_eq!(white_space(c), c.is_whitespace());
        }
    }
}

#[test]
fn empty_parts_are_left_out() {
    assert_eq!(split(":a.py::b c.py:", Separator::One(':')), strings(&["a.py", "b c.py"]));
}

#[test]
fn trimming_takes_both_ends() {
    assert_eq!(trim(" \t/usr/lib/llvm bin\n"), "/usr/lib/llvm bin");
    assert_eq!(trim("\n\n"), "");
    assert_eq!(trim("x"), "x");
}

#[test]
fn prefixes_and_substrings() {
    assert_eq!(strip_prefix("--cpu=v3", "--cpu="), Some("v3".to_string()));
    assert_eq!(strip_prefix("-c", "--cpu="), None);
    assert_eq!(strip_prefix("ab", ""), Some("ab".to_string()));
    assert!(contains("TtWw", "tW"));
    assert!(contains("TtWw", ""));
    assert!(!contains("TtWw", "TW"));
    assert!(same("ab", "ab"));
    assert!(!same("ab", "aB"));
    assert_eq!(cat("rlib", "12"), "rlib12");
}

#[test]
fn numbers_in_decimal() {
    assert_eq!(decimal_of(0), "0");
    assert_eq!(decimal_of(10), "10");
    assert_eq!(decimal_of(usize::MAX), usize::MAX.to_string());
}

#[test]
fn lists_are_written_one_a_line() {
    assert_eq!(lines_of(&strings(&["a", "b"])), "a\nb\n");
    assert_eq!(lines_of(&strings(&[])), "\n");
}

#[test]
fn written_lists_are_read_back() {
    let names = strings(&["arena_free", "buddy_alloc", "\u{e9}"]);
    assert_eq!(split(&lines_of(&names), Separator::White), names);
    assert_eq!(split(&lines_of(&Vec::new()), Separator::White), strings(&[]));
}

#[test]
fn sorting_goes_by_bytes_and_keeps_each_once() {
    let v = strings(&["b", "a", "\u{10000}", "b", "\u{e000}", "", "ab", "a"]);
    let mut expected = v.clone();
    expected.sort();
    expected.dedup();
    assert_eq!(sort_once(v), expected);
    assert!(bytes_no_later(b"a", b"ab"));
    assert!(bytes_no_later(b"ab", b"b"));
    assert!(!bytes_no_later(b"ab", b"a"));
    assert!(bytes_no_later(b"", b""));
}

#[test]
fn sorting_paths_keeps_repeats() {
    let v = vec![PathBuf::from_text("d/b.o"), PathBuf::from_text("d/a.o"), PathBuf::from_text("d/b.o")];
    let sorted = sort(v);
    assert_eq!(sorted[0].bytes, b"d/a.o");
    assert_eq!(sorted[1].bytes, b"d/b.o");
    assert_eq!(sorted[2].bytes, b"d/b.o");
}

#[test]
fn paths_are_joined_as_the_system_joins_them() {
    for (base, name) in [
        ("out", "libarena-rs"),
        ("out/", "x"),
        ("", "x"),
        ("/", "x"),
        ("out", "/abs"),
        ("out", ""),
        ("", ""),
        ("a/b", "c/d"),
    ] {
        let joined = PathBuf::from_text(base).join_text(name);
        let expected = std::path::Path::new(base).join(name);
        assert_eq!(joined.bytes, expected.to_str().unwrap().as_bytes());
    }
    assert_eq!(PathBuf::from_text("out.o").with_suffix(".arena-linker").bytes, b"out.o.arena-linker");
    assert!(PathBuf::from_text("").is_empty());
    assert!(!PathBuf::from_text("/").is_empty());
}

#[test]
fn relative_names_stay_below_and_join_associatively() {
    let a = PathBuf::from_text("/out");
    let b = PathBuf::from_text("src");
    let c = PathBuf::from_text("buddy.bpf.c");
    assert_eq!(a.join(&b).join(&c), a.join(&b.join(&c)));
    assert_eq!(a.join(&b).join(&c).bytes, b"/out/src/buddy.bpf.c");
}
