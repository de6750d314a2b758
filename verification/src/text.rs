//! Text as the linker reads and writes it: words, prefixes, lists of lines.
use vstd::prelude::*;
use vstd::string::*;
use vstd::utf8::*;

verus! {

/// `String::push` appends one character to the end of the string.
pub assume_specification[ String::push ](s: &mut String, c: char)
    ensures
        final(s)@ == old(s)@.push(c),
;

/// What `String::from_utf8_lossy` makes of a byte sequence.
pub uninterp spec fn utf8_lossy(bytes: Seq<u8>) -> Seq<char>;

/// `String::from_utf8_lossy`: the text of `bytes`, with replacement characters for what is no
/// UTF-8. Claimed: the text is a function of the bytes, and valid UTF-8 is decoded as it stands.
#[verifier::external_body]
pub(crate) fn from_utf8_lossy(bytes: &[u8]) -> (r: String)
    ensures
        r@ == utf8_lossy(bytes@),
        valid_utf8(bytes@) ==> r@ == decode_utf8(bytes@),
{
    String::from_utf8_lossy(bytes).into_owned()
}

/// The texts of a list of strings.
pub open spec fn texts(v: Seq<String>) -> Seq<Seq<char>> {
    v.map_values(|s: String| s@)
}

/// The text of an optional string.
pub open spec fn opt_text(v: Option<String>) -> Option<Seq<char>> {
    match v {
        Some(s) => Some(s@),
        None => None,
    }
}

/// The Unicode property `White_Space`.
pub open spec fn is_white_space(c: char) -> bool {
    ||| 0x9 <= c as int <= 0xD
    ||| c as int == 0x20
    ||| c as int == 0x85
    ||| c as int == 0xA0
    ||| c as int == 0x1680
    ||| 0x2000 <= c as int <= 0x200A
    ||| c as int == 0x2028
    ||| c as int == 0x2029
    ||| c as int == 0x202F
    ||| c as int == 0x205F
    ||| c as int == 0x3000
}

/// Whether `c` has the Unicode property `White_Space`.
pub fn white_space(c: char) -> (r: bool)
    ensures
        r == is_white_space(c),
{
    let n: u32 = c as u32;
    (0x9 <= n && n <= 0xD) || n == 0x20 || n == 0x85 || n == 0xA0 || n == 0x1680 || (0x2000 <= n
        && n <= 0x200A) || n == 0x2028 || n == 0x2029 || n == 0x202F || n == 0x205F || n == 0x3000
}

/// What stands between the parts of a text.
#[derive(Clone, Copy)]
pub enum Separator {
    /// Any white space.
    White,
    /// One given character.
    One(char),
}

impl Separator {
    /// Whether `c` separates.
    pub open spec fn holds(self, c: char) -> bool {
        match self {
            Separator::White => is_white_space(c),
            Separator::One(d) => c == d,
        }
    }

    fn test(&self, c: char) -> (r: bool)
        ensures
            r == self.holds(c),
    {
        match self {
            Separator::White => white_space(c),
            Separator::One(d) => c == *d,
        }
    }
}

/// How many characters stand before the first separator of `s`.
pub open spec fn run_len(s: Seq<char>, sep: Separator) -> nat
    decreases s.len(),
{
    if s.len() == 0 || sep.holds(s[0]) {
        0
    } else {
        1 + run_len(s.skip(1), sep)
    }
}

/// The run is a prefix without separators, and ends at one or with the text.
pub proof fn lemma_run_len(s: Seq<char>, sep: Separator)
    ensures
        run_len(s, sep) <= s.len(),
        s.len() > 0 && !sep.holds(s[0]) ==> run_len(s, sep) > 0,
        forall|i: int| 0 <= i < run_len(s, sep) ==> !sep.holds(#[trigger] s[i]),
        run_len(s, sep) < s.len() ==> sep.holds(s[run_len(s, sep) as int]),
    decreases s.len(),
{
    if s.len() > 0 && !sep.holds(s[0]) {
        let t = s.skip(1);
        lemma_run_len(t, sep);
        assert forall|i: int| 0 <= i < run_len(s, sep) implies !sep.holds(#[trigger] s[i]) by {
            if i > 0 {
                assert(s[i] == t[i - 1]);
            }
        }
    }
}

/// The length of the run is the position of the first separator.
proof fn lemma_run_len_is(s: Seq<char>, sep: Separator, n: int)
    requires
        0 <= n <= s.len(),
        forall|i: int| 0 <= i < n ==> !sep.holds(#[trigger] s[i]),
        n < s.len() ==> sep.holds(s[n]),
    ensures
        run_len(s, sep) == n,
    decreases s.len(),
{
    if n > 0 {
        assert(!sep.holds(s[0]));
        let t = s.skip(1);
        assert forall|i: int| 0 <= i < n - 1 implies !sep.holds(#[trigger] t[i]) by {
            assert(t[i] == s[i + 1]);
        }
        lemma_run_len_is(t, sep, n - 1);
    }
}

/// The parts of `s`: its longest runs without a separator, in order. None is empty.
pub open spec fn parts(s: Seq<char>, sep: Separator) -> Seq<Seq<char>>
    decreases s.len(),
{
    if s.len() == 0 {
        seq![]
    } else if sep.holds(s[0]) {
        parts(s.skip(1), sep)
    } else {
        let n = run_len(s, sep);
        proof {
            lemma_run_len(s, sep);
        }
        seq![s.take(n as int)] + parts(s.skip(n as int), sep)
    }
}

/// The words of `s`, separated by white space.
pub open spec fn words(s: Seq<char>) -> Seq<Seq<char>> {
    parts(s, Separator::White)
}

/// Whether `p` is non-empty and holds no separator.
pub open spec fn is_part(p: Seq<char>, sep: Separator) -> bool {
    p.len() > 0 && forall|j: int| 0 <= j < p.len() ==> !sep.holds(#[trigger] p[j])
}

/// Every part of a text is non-empty and free of separators.
pub proof fn lemma_parts(s: Seq<char>, sep: Separator)
    ensures
        forall|i: int| 0 <= i < parts(s, sep).len() ==> is_part(#[trigger] parts(s, sep)[i], sep),
    decreases s.len(),
{
    if s.len() == 0 {
    } else if sep.holds(s[0]) {
        lemma_parts(s.skip(1), sep);
        assert(parts(s, sep) == parts(s.skip(1), sep));
    } else {
        lemma_run_len(s, sep);
        let n = run_len(s, sep) as int;
        let rest = parts(s.skip(n), sep);
        lemma_parts(s.skip(n), sep);
        assert forall|i: int| 0 <= i < parts(s, sep).len() implies is_part(
            #[trigger] parts(s, sep)[i],
            sep,
        ) by {
            if i > 0 {
                assert(parts(s, sep)[i] == rest[i - 1]);
            } else {
                assert(parts(s, sep)[i] == s.take(n));
            }
        }
    }
}

/// The characters of `s`.
pub fn chars_of(s: &str) -> (r: Vec<char>)
    ensures
        r@ == s@,
{
    let mut r: Vec<char> = Vec::new();
    for c in it: s.chars()
        invariant
            r@ == it.seq().take(it.index() as int),
            it.seq() == s@,
    {
        r.push(c);
    }
    r
}

/// The string made of the characters from `from` up to `to`.
fn string_of(v: &Vec<char>, from: usize, to: usize) -> (r: String)
    requires
        from <= to <= v.len(),
    ensures
        r@ == v@.subrange(from as int, to as int),
{
    let mut r: String = String::new();
    let mut i: usize = from;
    while i < to
        invariant
            from <= i <= to <= v.len(),
            r@ == v@.subrange(from as int, i as int),
        decreases to - i,
    {
        r.push(v[i]);
        i = i + 1;
        assert(v@.subrange(from as int, i as int) =~= v@.subrange(from as int, i - 1).push(
            v@[i - 1],
        ));
    }
    r
}

/// The parts of `s` between separators; empty ones are left out.
pub fn split(s: &str, sep: Separator) -> (r: Vec<String>)
    ensures
        texts(r@) == parts(s@, sep),
{
    let v = chars_of(s);
    let mut r: Vec<String> = Vec::new();
    let mut i: usize = 0;
    assert(v@.skip(0) =~= v@);
    assert(texts(r@) + parts(v@, sep) =~= parts(v@, sep));
    while i < v.len()
        invariant
            v@ == s@,
            i <= v.len(),
            parts(s@, sep) == texts(r@) + parts(v@.skip(i as int), sep),
        decreases v.len() - i,
    {
        let ghost here = v@.skip(i as int);
        if sep.test(v[i]) {
            i = i + 1;
            assert(here.skip(1) =~= v@.skip(i as int));
        } else {
            let start: usize = i;
            while i < v.len() && !sep.test(v[i])
                invariant
                    start <= i <= v.len(),
                    forall|j: int| start <= j < i ==> !sep.holds(#[trigger] v@[j]),
                ensures
                    start <= i <= v.len(),
                    forall|j: int| start <= j < i ==> !sep.holds(#[trigger] v@[j]),
                    i < v.len() ==> sep.holds(v@[i as int]),
                decreases v.len() - i,
            {
                i = i + 1;
            }
            let w = string_of(&v, start, i);
            let ghost before = r@;
            r.push(w);
            proof {
                assert forall|j: int| 0 <= j < i - start implies !sep.holds(
                    #[trigger] here[j],
                ) by {
                    assert(here[j] == v@[start + j]);
                }
                if i < v.len() {
                    assert(here[i - start] == v@[i as int]);
                }
                lemma_run_len_is(here, sep, i - start);
                assert(here.take(i - start) =~= w@);
                assert(here.skip(i - start) =~= v@.skip(i as int));
                assert(texts(r@) =~= texts(before).push(w@));
                assert(texts(r@) + parts(v@.skip(i as int), sep) =~= texts(before) + (seq![w@]
                    + parts(v@.skip(i as int), sep)));
            }
        }
    }
    assert(texts(r@) + parts(v@.skip(i as int), sep) =~= texts(r@));
    r
}

/// How many characters of white space `s` starts with.
pub open spec fn leading_white(s: Seq<char>) -> nat
    decreases s.len(),
{
    if s.len() == 0 || !is_white_space(s[0]) {
        0
    } else {
        1 + leading_white(s.skip(1))
    }
}

/// How many characters of white space `s` ends with.
pub open spec fn trailing_white(s: Seq<char>) -> nat
    decreases s.len(),
{
    if s.len() == 0 || !is_white_space(s.last()) {
        0
    } else {
        1 + trailing_white(s.drop_last())
    }
}

/// `s` without the white space at its two ends.
pub open spec fn trimmed(s: Seq<char>) -> Seq<char> {
    let t = s.skip(leading_white(s) as int);
    t.take(t.len() - trailing_white(t))
}

/// `s` without the white space at its two ends.
pub fn trim(s: &str) -> (r: String)
    ensures
        r@ == trimmed(s@),
{
    let v = chars_of(s);
    let mut from: usize = 0;
    assert(v@.skip(0) =~= v@);
    while from < v.len() && white_space(v[from])
        invariant
            from <= v.len(),
            leading_white(v@) == from + leading_white(v@.skip(from as int)),
        ensures
            from <= v.len(),
            leading_white(v@) == from,
        decreases v.len() - from,
    {
        assert(v@.skip(from as int).skip(1) =~= v@.skip(from + 1));
        from = from + 1;
    }
    let ghost t = v@.skip(from as int);
    let mut to: usize = v.len();
    assert(t.take(to - from) =~= t);
    while from < to && white_space(v[to - 1])
        invariant
            from <= to <= v.len(),
            t == v@.skip(from as int),
            trailing_white(t) == (v.len() - to) + trailing_white(t.take(to - from)),
        ensures
            from <= to <= v.len(),
            trailing_white(t) == v.len() - to,
        decreases to - from,
    {
        assert(t.take(to - from).last() == v@[to - 1]);
        assert(t.take(to - from).drop_last() =~= t.take(to - from - 1));
        to = to - 1;
    }
    let r = string_of(&v, from, to);
    assert(r@ =~= t.take(to - from));
    r
}

/// Whether the two texts are the same.
pub fn same(a: &str, b: &str) -> (r: bool)
    ensures
        r == (a@ == b@),
{
    let v = chars_of(a);
    let w = chars_of(b);
    if v.len() != w.len() {
        return false;
    }
    let mut i: usize = 0;
    while i < v.len()
        invariant
            v@ == a@,
            w@ == b@,
            v.len() == w.len(),
            i <= v.len(),
            forall|j: int| 0 <= j < i ==> v@[j] == w@[j],
        decreases v.len() - i,
    {
        if v[i] != w[i] {
            return false;
        }
        i = i + 1;
    }
    assert(v@ =~= w@);
    true
}

/// Whether `s` starts with `p`.
pub open spec fn starts_with(s: Seq<char>, p: Seq<char>) -> bool {
    p.len() <= s.len() && s.take(p.len() as int) == p
}

/// What follows `p` in a text that starts with it.
pub fn strip_prefix(s: &str, p: &str) -> (r: Option<String>)
    ensures
        r is Some <==> starts_with(s@, p@),
        r matches Some(t) ==> t@ == s@.skip(p@.len() as int),
{
    let v = chars_of(s);
    let w = chars_of(p);
    if v.len() < w.len() {
        return None;
    }
    let mut i: usize = 0;
    while i < w.len()
        invariant
            v@ == s@,
            w@ == p@,
            w.len() <= v.len(),
            i <= w.len(),
            forall|j: int| 0 <= j < i ==> v@[j] == w@[j],
        decreases w.len() - i,
    {
        if v[i] != w[i] {
            assert(s@.take(p@.len() as int)[i as int] != p@[i as int]);
            return None;
        }
        i = i + 1;
    }
    assert(s@.take(p@.len() as int) =~= p@);
    let t = string_of(&v, w.len(), v.len());
    assert(t@ =~= s@.skip(p@.len() as int));
    Some(t)
}

/// Whether `p` occurs in `s`.
pub open spec fn occurs_in(p: Seq<char>, s: Seq<char>) -> bool {
    exists|i: int| 0 <= i <= s.len() && starts_with(#[trigger] s.skip(i), p)
}

/// Whether `p` occurs in `s`.
pub fn contains(s: &str, p: &str) -> (r: bool)
    ensures
        r == occurs_in(p@, s@),
{
    let v = chars_of(s);
    let mut i: usize = 0;
    while i < v.len()
        invariant
            v@ == s@,
            i <= v.len(),
            forall|k: int| 0 <= k < i ==> !starts_with(#[trigger] s@.skip(k), p@),
        decreases v.len() - i,
    {
        let rest = string_of(&v, i, v.len());
        assert(rest@ =~= s@.skip(i as int));
        if strip_prefix(rest.as_str(), p).is_some() {
            return true;
        }
        i = i + 1;
    }
    let r = strip_prefix("", p).is_some();
    proof {
        reveal_strlit("");
        assert(s@.skip(i as int) =~= ""@);
        if r {
            assert(starts_with(s@.skip(i as int), p@));
        }
    }
    r
}

/// The two texts, one after the other.
pub fn cat(a: &str, b: &str) -> (r: String)
    ensures
        r@ == a@ + b@,
{
    let mut r: String = a.to_owned();
    r.append(b);
    r
}

/// The texts of `s`, one a line; an empty list is one empty line.
pub open spec fn as_lines(s: Seq<Seq<char>>) -> Seq<char>
    decreases s.len(),
{
    if s.len() == 0 {
        seq!['\n']
    } else if s.len() == 1 {
        s[0].push('\n')
    } else {
        as_lines(s.drop_last()) + s.last().push('\n')
    }
}

/// A list, written one entry a line.
pub fn lines_of(v: &Vec<String>) -> (r: String)
    ensures
        r@ == as_lines(texts(v@)),
{
    let mut r: String = String::new();
    if v.len() == 0 {
        r.push('\n');
        assert(r@ =~= seq!['\n']);
        return r;
    }
    let mut i: usize = 0;
    while i < v.len()
        invariant
            i <= v.len(),
            i == 0 ==> r@ == Seq::<char>::empty(),
            i > 0 ==> r@ == as_lines(texts(v@.take(i as int))),
        decreases v.len() - i,
    {
        let ghost before = r@;
        r.append(v[i].as_str());
        r.push('\n');
        proof {
            let now = texts(v@.take(i + 1));
            assert(now.drop_last() =~= texts(v@.take(i as int)));
            assert(now.last() == v@[i as int]@);
            assert(r@ =~= before + v@[i as int]@.push('\n'));
            if i == 0 {
                assert(r@ =~= v@[0]@.push('\n'));
            }
        }
        i = i + 1;
    }
    assert(v@.take(i as int) =~= v@);
    r
}

/// The decimal digit of value `d`.
pub open spec fn digit(d: int) -> char {
    (48 + d) as char
}

/// `n` in decimal, without leading zeros.
pub open spec fn decimal(n: nat) -> Seq<char>
    decreases n,
{
    if n < 10 {
        seq![digit(n as int)]
    } else {
        decimal(n / 10).push(digit((n % 10) as int))
    }
}

/// `n` in decimal.
pub fn decimal_of(n: usize) -> (r: String)
    ensures
        r@ == decimal(n as nat),
    decreases n,
{
    let mut r: String = if n < 10 {
        String::new()
    } else {
        decimal_of(n / 10)
    };
    let d: u8 = (n % 10) as u8;
    r.push((48u8 + d) as char);
    assert(n < 10 ==> r@ =~= decimal(n as nat));
    r
}

/// A copy of a list of strings.
pub fn copy_texts(v: &Vec<String>) -> (r: Vec<String>)
    ensures
        texts(r@) == texts(v@),
{
    let mut r: Vec<String> = Vec::new();
    let mut i: usize = 0;
    while i < v.len()
        invariant
            i <= v.len(),
            texts(r@) == texts(v@.take(i as int)),
        decreases v.len() - i,
    {
        let c = v[i].clone();
        let ghost before = r@;
        r.push(c);
        assert(texts(r@) =~= texts(before).push(c@));
        assert(texts(v@.take(i + 1)) =~= texts(v@.take(i as int)).push(v@[i as int]@));
        i = i + 1;
    }
    assert(v@.take(i as int) =~= v@);
    r
}

/// A separator ends a part: the parts of a text are those before the separator, then those after.
pub proof fn lemma_separator_splits(a: Seq<char>, c: char, b: Seq<char>, sep: Separator)
    requires
        sep.holds(c),
    ensures
        parts(a.push(c) + b, sep) == parts(a, sep) + parts(b, sep),
    decreases a.len(),
{
    let s = a.push(c) + b;
    if a.len() == 0 {
        assert(s.skip(1) =~= b);
        assert(parts(a, sep) + parts(b, sep) =~= parts(b, sep));
    } else if sep.holds(a[0]) {
        assert(s.skip(1) =~= a.skip(1).push(c) + b);
        lemma_separator_splits(a.skip(1), c, b, sep);
    } else {
        lemma_run_len(a, sep);
        let n = run_len(a, sep) as int;
        assert forall|i: int| 0 <= i < n implies !sep.holds(#[trigger] s[i]) by {
            assert(s[i] == a[i]);
        }
        assert(s[n] == if n < a.len() {
            a[n]
        } else {
            c
        });
        lemma_run_len_is(s, sep, n);
        assert(s.take(n) =~= a.take(n));
        assert(s.skip(n) =~= a.skip(n).push(c) + b);
        lemma_separator_splits(a.skip(n), c, b, sep);
        assert(seq![a.take(n)] + (parts(a.skip(n), sep) + parts(b, sep)) =~= (seq![a.take(n)]
            + parts(a.skip(n), sep)) + parts(b, sep));
    }
}

/// A text without separators is one part.
proof fn lemma_one_part(p: Seq<char>, sep: Separator)
    requires
        is_part(p, sep),
    ensures
        parts(p, sep) == seq![p],
{
    lemma_run_len_is(p, sep, p.len() as int);
    assert(p.take(p.len() as int) =~= p);
    assert(!sep.holds(p[0]));
    let rest = p.skip(p.len() as int);
    assert(rest.len() == 0);
    assert(parts(rest, sep) =~= Seq::<Seq<char>>::empty());
    assert(parts(p, sep) == seq![p] + parts(rest, sep));
}

/// A list of words that was written one a line is read back as it was.
pub proof fn law_written_list_is_read_back(s: Seq<Seq<char>>)
    requires
        forall|i: int| 0 <= i < s.len() ==> is_part(#[trigger] s[i], Separator::White),
    ensures
        words(as_lines(s)) == s,
    decreases s.len(),
{
    let sep = Separator::White;
    let none = Seq::<char>::empty();
    assert(parts(none, sep) =~= seq![]);
    if s.len() == 0 {
        lemma_separator_splits(none, '\n', none, sep);
        assert(none.push('\n') + none =~= as_lines(s));
        assert(words(as_lines(s)) =~= s);
    } else {
        let w = s.last();
        assert(is_part(s[s.len() - 1], sep));
        lemma_one_part(w, sep);
        lemma_separator_splits(w, '\n', none, sep);
        assert(w.push('\n') + none =~= w.push('\n'));
        assert(words(w.push('\n')) =~= seq![w]);
        if s.len() == 1 {
            assert(words(as_lines(s)) =~= s);
        } else {
            let init = s.drop_last();
            assert forall|i: int| 0 <= i < init.len() implies is_part(#[trigger] init[i], sep) by {
                assert(init[i] == s[i]);
            }
            law_written_list_is_read_back(init);
            let front = as_lines(init);
            lemma_ends_in_line_feed(init);
            let body = front.drop_last();
            assert(front =~= body.push('\n'));
            lemma_separator_splits(body, '\n', w.push('\n'), sep);
            lemma_separator_splits(body, '\n', none, sep);
            assert(body.push('\n') + none =~= front);
            assert(words(as_lines(s)) =~= words(front) + seq![w]);
            assert(init + seq![w] =~= s);
        }
    }
}

/// A written list ends with a line feed.
proof fn lemma_ends_in_line_feed(s: Seq<Seq<char>>)
    ensures
        as_lines(s).len() > 0,
        as_lines(s).last() == '\n',
{
}

/// A list of strings has their texts, one for one.
pub proof fn law_texts(v: Seq<String>, w: Option<String>)
    ensures
        texts(v).len() == v.len(),
        forall|i: int| 0 <= i < v.len() ==> #[trigger] texts(v)[i] == v[i]@,
        opt_text(w) is None <==> w is None,
        w is Some ==> opt_text(w) == Some(w->0@),
{
}

/// What separates: any white space, or one given character and no other.
pub proof fn law_separators(c: char, d: char)
    ensures
        Separator::White.holds(c) <==> is_white_space(c),
        Separator::One(d).holds(c) <==> c == d,
{
}

/// The words of a text are found by cutting it at any white space: what lies before is read, then
/// what lies after; a text without white space is one word, and an empty one has none.
pub proof fn law_words(a: Seq<char>, c: char, b: Seq<char>)
    ensures
        words(seq![]) == Seq::<Seq<char>>::empty(),
        is_white_space(c) ==> words(a.push(c) + b) == words(a) + words(b),
        a.len() > 0 && (forall|i: int| 0 <= i < a.len() ==> !is_white_space(#[trigger] a[i]))
            ==> words(a) == seq![a],
{
    let sep = Separator::White;
    assert(words(seq![]) =~= Seq::<Seq<char>>::empty());
    if is_white_space(c) {
        lemma_separator_splits(a, c, b, sep);
    }
    if a.len() > 0 && (forall|i: int| 0 <= i < a.len() ==> !is_white_space(#[trigger] a[i])) {
        lemma_one_part(a, sep);
    }
}

/// The parts of a text are found by cutting it at any occurrence of the separator; a text without
/// one is one part, and an empty one has none.
pub proof fn law_parts(a: Seq<char>, d: char, b: Seq<char>)
    ensures
        parts(seq![], Separator::One(d)) == Seq::<Seq<char>>::empty(),
        parts(a.push(d) + b, Separator::One(d)) == parts(a, Separator::One(d)) + parts(
            b,
            Separator::One(d),
        ),
        a.len() > 0 && (forall|i: int| 0 <= i < a.len() ==> #[trigger] a[i] != d) ==> parts(
            a,
            Separator::One(d),
        ) == seq![a],
{
    let sep = Separator::One(d);
    assert(parts(seq![], sep) =~= Seq::<Seq<char>>::empty());
    lemma_separator_splits(a, d, b, sep);
    if a.len() > 0 && (forall|i: int| 0 <= i < a.len() ==> #[trigger] a[i] != d) {
        lemma_one_part(a, sep);
    }
}

/// The first character after the leading white space is none.
proof fn lemma_leading_white(s: Seq<char>)
    ensures
        leading_white(s) <= s.len(),
        forall|k: int| 0 <= k < leading_white(s) ==> is_white_space(#[trigger] s[k]),
        leading_white(s) < s.len() ==> !is_white_space(s[leading_white(s) as int]),
    decreases s.len(),
{
    if s.len() > 0 && is_white_space(s[0]) {
        let t = s.skip(1);
        lemma_leading_white(t);
        assert forall|k: int| 0 <= k < leading_white(s) implies is_white_space(#[trigger] s[k]) by {
            if k > 0 {
                assert(s[k] == t[k - 1]);
            }
        }
    }
}

/// The last character before the trailing white space is none.
proof fn lemma_trailing_white(s: Seq<char>)
    ensures
        trailing_white(s) <= s.len(),
        forall|k: int| s.len() - trailing_white(s) <= k < s.len() ==> is_white_space(#[trigger] s[k]),
        trailing_white(s) < s.len() ==> !is_white_space(s[s.len() - trailing_white(s) - 1]),
    decreases s.len(),
{
    if s.len() > 0 && is_white_space(s.last()) {
        let t = s.drop_last();
        lemma_trailing_white(t);
        assert forall|k: int| s.len() - trailing_white(s) <= k < s.len() implies is_white_space(
            #[trigger] s[k],
        ) by {
            if k < s.len() - 1 {
                assert(s[k] == t[k]);
            }
        }
    }
}

/// Trimming takes away white space at the two ends and nothing else, and leaves none there.
pub proof fn law_trimmed(s: Seq<char>)
    ensures
        exists|i: int, j: int|
            0 <= i <= j <= s.len() && trimmed(s) == #[trigger] s.subrange(i, j) && (forall|k: int|
                0 <= k < i || j <= k < s.len() ==> is_white_space(#[trigger] s[k])),
        trimmed(s).len() > 0 ==> !is_white_space(trimmed(s)[0]) && !is_white_space(
            trimmed(s).last(),
        ),
{
    lemma_leading_white(s);
    let i = leading_white(s) as int;
    let t = s.skip(i);
    lemma_trailing_white(t);
    let j = s.len() - trailing_white(t);
    assert(trimmed(s) =~= s.subrange(i, j));
    assert forall|k: int| 0 <= k < i || j <= k < s.len() implies is_white_space(
        #[trigger] s[k],
    ) by {
        if k >= j {
            assert(s[k] == t[k - i]);
        }
    }
}

/// A text starts with another just where it is that text and then something.
pub proof fn law_starts_with(s: Seq<char>, p: Seq<char>, rest: Seq<char>)
    ensures
        starts_with(p + rest, p),
        (p + rest).skip(p.len() as int) == rest,
        starts_with(s, p) ==> s == p + s.skip(p.len() as int),
{
    assert((p + rest).take(p.len() as int) =~= p);
    assert((p + rest).skip(p.len() as int) =~= rest);
    if starts_with(s, p) {
        assert(s =~= s.take(p.len() as int) + s.skip(p.len() as int));
    }
}

/// A text occurs in another just where that is something, the text, and something again.
pub proof fn law_occurs_in(a: Seq<char>, p: Seq<char>, b: Seq<char>, s: Seq<char>)
    ensures
        occurs_in(p, a + p + b),
        occurs_in(p, s) ==> exists|x: Seq<char>, y: Seq<char>| s == #[trigger] (x + p + y),
{
    let whole = a + p + b;
    assert(whole.skip(a.len() as int) =~= p + b);
    law_starts_with(s, p, b);
    assert(starts_with(whole.skip(a.len() as int), p));
    if occurs_in(p, s) {
        let i = choose|i: int| 0 <= i <= s.len() && starts_with(#[trigger] s.skip(i), p);
        let t = s.skip(i);
        let y = t.skip(p.len() as int);
        law_starts_with(t, p, y);
        assert(s =~= s.take(i) + p + y);
    }
}

/// A written list is its entries in order, each ended by a line feed; an empty one is a line feed.
pub proof fn law_lines(a: Seq<Seq<char>>, x: Seq<char>)
    ensures
        as_lines(seq![]) == seq!['\n'],
        as_lines(seq![x]) == x.push('\n'),
        a.len() > 0 ==> as_lines(a.push(x)) == as_lines(a) + x.push('\n'),
{
    if a.len() > 0 {
        assert(a.push(x).drop_last() =~= a);
    }
}

/// What a decimal number stands for.
pub open spec fn number(s: Seq<char>) -> int
    decreases s.len(),
{
    if s.len() == 0 {
        0
    } else {
        10 * number(s.drop_last()) + (s.last() as int - '0' as int)
    }
}

/// A number in decimal consists of digits, without a leading zero but for zero itself, and stands
/// for the number: so different numbers are written differently.
pub proof fn law_decimal(n: nat)
    ensures
        number(decimal(n)) == n,
        decimal(n).len() > 0,
        forall|i: int|
            0 <= i < decimal(n).len() ==> '0' as int <= (#[trigger] decimal(n)[i]) as int
                <= '9' as int,
        decimal(n)[0] == '0' ==> n == 0,
    decreases n,
{
    if n < 10 {
        let s = decimal(n);
        assert(s.drop_last() =~= Seq::<char>::empty());
        assert(number(s.drop_last()) == 0);
    } else {
        law_decimal(n / 10);
        let s = decimal(n);
        assert(s.drop_last() =~= decimal(n / 10));
        assert(s[0] == decimal(n / 10)[0]);
        assert forall|i: int| 0 <= i < s.len() implies '0' as int <= (#[trigger] s[i]) as int
            <= '9' as int by {
            if i < s.len() - 1 {
                assert(s[i] == decimal(n / 10)[i]);
            }
        }
    }
}

} // verus!
