//! Paths, as the byte strings that a Unix system takes.
use vstd::prelude::*;
use vstd::slice::*;
use vstd::string::*;
use vstd::utf8::*;

verus! {

/// A path: any bytes, with `/` between its components.
#[derive(Debug, PartialEq, Eq)]
pub struct PathBuf {
    pub bytes: Vec<u8>,
}

impl View for PathBuf {
    type V = Seq<u8>;

    open spec fn view(&self) -> Seq<u8> {
        self.bytes@
    }
}

/// The byte `/`.
pub const SLASH: u8 = 47;

/// `name` below `base`: an absolute `name` stands for itself, and a separator is put where `base`
/// does not end in one. Nothing is put after an empty `base`.
pub open spec fn joined(base: Seq<u8>, name: Seq<u8>) -> Seq<u8> {
    if name.len() > 0 && name[0] == SLASH {
        name
    } else if base.len() == 0 || base.last() == SLASH {
        base + name
    } else {
        base.push(SLASH) + name
    }
}

/// The UTF-8 bytes of a text.
pub open spec fn utf8(s: Seq<char>) -> Seq<u8> {
    encode_utf8(s)
}

/// The bytes of a list of paths.
pub open spec fn paths(v: Seq<PathBuf>) -> Seq<Seq<u8>> {
    v.map_values(|p: PathBuf| p@)
}

/// The bytes of an optional path.
pub open spec fn opt_path(p: Option<PathBuf>) -> Option<Seq<u8>> {
    match p {
        Some(q) => Some(q@),
        None => None,
    }
}

/// The UTF-8 bytes of `s`.
pub fn bytes_of(s: &str) -> (r: Vec<u8>)
    ensures
        r@ == utf8(s@),
{
    s.as_bytes_vec()
}

/// A copy of `b`.
pub fn copy_bytes(b: &Vec<u8>) -> (r: Vec<u8>)
    ensures
        r@ == b@,
{
    slice_to_vec(b.as_slice())
}

impl PathBuf {
    /// The path that `s` spells.
    pub fn from_text(s: &str) -> (r: PathBuf)
        ensures
            r@ == utf8(s@),
    {
        PathBuf { bytes: bytes_of(s) }
    }

    /// A copy of this path.
    pub fn copy(&self) -> (r: PathBuf)
        ensures
            r@ == self@,
    {
        PathBuf { bytes: copy_bytes(&self.bytes) }
    }

    /// Whether the path is empty.
    pub fn is_empty(&self) -> (r: bool)
        ensures
            r == (self@.len() == 0),
    {
        self.bytes.len() == 0
    }

    /// `name` below this path.
    pub fn join(&self, name: &PathBuf) -> (r: PathBuf)
        ensures
            r@ == joined(self@, name@),
    {
        if name.bytes.len() > 0 && name.bytes[0] == SLASH {
            return name.copy();
        }
        let mut bytes: Vec<u8> = copy_bytes(&self.bytes);
        if bytes.len() > 0 && bytes[bytes.len() - 1] != SLASH {
            bytes.push(SLASH);
        }
        let mut tail: Vec<u8> = copy_bytes(&name.bytes);
        bytes.append(&mut tail);
        PathBuf { bytes }
    }

    /// The path that `name` spells, below this path.
    pub fn join_text(&self, name: &str) -> (r: PathBuf)
        ensures
            r@ == joined(self@, utf8(name@)),
    {
        self.join(&PathBuf::from_text(name))
    }

    /// This path with `tail` put to its end, as part of its last component.
    pub fn with_suffix(&self, tail: &str) -> (r: PathBuf)
        ensures
            r@ == self@ + utf8(tail@),
    {
        let mut bytes: Vec<u8> = copy_bytes(&self.bytes);
        let mut more: Vec<u8> = bytes_of(tail);
        bytes.append(&mut more);
        PathBuf { bytes }
    }
}

/// A relative name below a directory keeps the directory as its beginning, and ends in the name.
pub proof fn law_relative_name_stays_below(base: Seq<u8>, name: Seq<u8>)
    requires
        base.len() > 0,
        name.len() > 0,
        name[0] != SLASH,
    ensures
        base.is_prefix_of(joined(base, name)),
        joined(base, name).skip(joined(base, name).len() - name.len()) == name,
{
    let j = joined(base, name);
    assert(j.subrange(0, base.len() as int) =~= base);
    assert(j.skip(j.len() - name.len()) =~= name);
}

/// Joining is associative on relative names: `(a / b) / c` is `a / (b / c)`.
pub proof fn law_join_is_associative(a: Seq<u8>, b: Seq<u8>, c: Seq<u8>)
    requires
        b.len() > 0,
        b[0] != SLASH,
        c.len() == 0 || c[0] != SLASH,
    ensures
        joined(joined(a, b), c) == joined(a, joined(b, c)),
{
    assert(joined(joined(a, b), c) =~= joined(a, joined(b, c)));
}

/// The bytes of a text are its UTF-8: they decode to it, so that different texts have different
/// bytes.
pub proof fn law_utf8(s: Seq<char>, t: Seq<char>)
    ensures
        utf8(s) == encode_utf8(s),
        decode_utf8(utf8(s)) == s,
        utf8(s) == utf8(t) <==> s == t,
        utf8(s).len() == 0 <==> s.len() == 0,
{
    encode_utf8_decode_utf8(s);
    encode_utf8_decode_utf8(t);
    if s.len() == 0 {
        assert(s =~= Seq::<char>::empty());
    } else if utf8(s).len() == 0 {
        encode_utf8_decode_utf8(Seq::<char>::empty());
        assert(utf8(s) =~= utf8(Seq::<char>::empty()));
    }
}

/// A list of paths has their bytes, one for one.
pub proof fn law_paths(v: Seq<PathBuf>, p: Option<PathBuf>, q: PathBuf)
    ensures
        q@ == q.bytes@,
        paths(v).len() == v.len(),
        forall|i: int| 0 <= i < v.len() ==> #[trigger] paths(v)[i] == v[i].bytes@,
        opt_path(p) is None <==> p is None,
        p is Some ==> opt_path(p) == Some(p->0.bytes@),
{
}

/// An absolute name stands for itself wherever it is put; any other comes after the base, with one
/// separator between them that is put there where the base brings none, and none after nothing.
pub proof fn law_joined(base: Seq<u8>, name: Seq<u8>)
    ensures
        name.len() > 0 && name[0] == '/' as int ==> joined(base, name) == name,
        (name.len() == 0 || name[0] != '/' as int) && base.len() == 0 ==> joined(base, name)
            == name,
        (name.len() == 0 || name[0] != '/' as int) && base.len() > 0 && base.last() == '/' as int
            ==> joined(base, name) == base + name,
        (name.len() == 0 || name[0] != '/' as int) && base.len() > 0 && base.last() != '/' as int
            ==> joined(base, name) == base + seq![0x2Fu8] + name,
{
    if base.len() == 0 {
        assert(base + name =~= name);
    }
}

} // verus!
