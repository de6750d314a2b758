//! Lists in byte order.
use vstd::multiset::*;
use vstd::prelude::*;
use vstd::relations::*;
use vstd::seq_lib::*;
use vstd::string::*;
use vstd::utf8::*;

use crate::path::{utf8, PathBuf};
use crate::text::{same, texts};

verus! {

/// `a` is no later than `b` in the dictionary order of bytes.
pub open spec fn no_later(a: Seq<u8>, b: Seq<u8>) -> bool
    decreases a.len(),
{
    if a.len() == 0 {
        true
    } else if b.len() == 0 {
        false
    } else if a[0] != b[0] {
        a[0] < b[0]
    } else {
        no_later(a.skip(1), b.skip(1))
    }
}

proof fn lemma_reflexive(a: Seq<u8>)
    ensures
        no_later(a, a),
    decreases a.len(),
{
    if a.len() > 0 {
        lemma_reflexive(a.skip(1));
    }
}

proof fn lemma_antisymmetric(a: Seq<u8>, b: Seq<u8>)
    requires
        no_later(a, b),
        no_later(b, a),
    ensures
        a == b,
    decreases a.len(),
{
    if a.len() > 0 && b.len() > 0 {
        lemma_antisymmetric(a.skip(1), b.skip(1));
        assert(a =~= seq![a[0]] + a.skip(1));
        assert(b =~= seq![b[0]] + b.skip(1));
    } else {
        assert(a =~= b);
    }
}

proof fn lemma_transitive(a: Seq<u8>, b: Seq<u8>, c: Seq<u8>)
    requires
        no_later(a, b),
        no_later(b, c),
    ensures
        no_later(a, c),
    decreases a.len(),
{
    if a.len() > 0 && a[0] == b[0] && b[0] == c[0] {
        lemma_transitive(a.skip(1), b.skip(1), c.skip(1));
    }
}

proof fn lemma_connected(a: Seq<u8>, b: Seq<u8>)
    ensures
        no_later(a, b) || no_later(b, a),
    decreases a.len(),
{
    if a.len() > 0 && b.len() > 0 {
        lemma_connected(a.skip(1), b.skip(1));
    }
}

/// Whether `a` is no later than `b` in the dictionary order of bytes.
pub fn bytes_no_later(a: &[u8], b: &[u8]) -> (r: bool)
    ensures
        r == no_later(a@, b@),
{
    let mut i: usize = 0;
    assert(a@.skip(0) =~= a@);
    assert(b@.skip(0) =~= b@);
    while i < a.len()
        invariant
            i <= a.len(),
            i <= b.len(),
            no_later(a@, b@) == no_later(a@.skip(i as int), b@.skip(i as int)),
        decreases a.len() - i,
    {
        if i == b.len() {
            return false;
        }
        if a[i] != b[i] {
            return a[i] < b[i];
        }
        assert(a@.skip(i as int).skip(1) =~= a@.skip(i + 1));
        assert(b@.skip(i as int).skip(1) =~= b@.skip(i + 1));
        i = i + 1;
    }
    true
}

/// What can be put in order.
pub trait Ranked: View + Sized {
    /// The bytes by which a value is ordered.
    spec fn rank(v: Self::V) -> Seq<u8>;

    /// Values of one rank are the same.
    proof fn rank_is_injective(a: Self::V, b: Self::V)
        requires
            Self::rank(a) == Self::rank(b),
        ensures
            a == b,
    ;

    /// The bytes by which this value is ordered.
    fn rank_bytes(&self) -> (r: &[u8])
        ensures
            r@ == Self::rank(self@),
    ;
}

impl Ranked for String {
    open spec fn rank(v: Seq<char>) -> Seq<u8> {
        utf8(v)
    }

    proof fn rank_is_injective(a: Seq<char>, b: Seq<char>) {
        encode_utf8_decode_utf8(a);
        encode_utf8_decode_utf8(b);
    }

    fn rank_bytes(&self) -> (r: &[u8]) {
        self.as_str().as_bytes()
    }
}

impl Ranked for PathBuf {
    open spec fn rank(v: Seq<u8>) -> Seq<u8> {
        v
    }

    proof fn rank_is_injective(a: Seq<u8>, b: Seq<u8>) {
    }

    fn rank_bytes(&self) -> (r: &[u8]) {
        self.bytes.as_slice()
    }
}

/// The order of the values of a type.
pub open spec fn rank_order<T: Ranked>() -> spec_fn(T::V, T::V) -> bool {
    |a: T::V, b: T::V| no_later(T::rank(a), T::rank(b))
}

/// The values of a list.
pub open spec fn views<T: View>(v: Seq<T>) -> Seq<T::V> {
    v.map_values(|x: T| x@)
}

/// `s` in order.
pub open spec fn in_order<T: Ranked>(s: Seq<T::V>) -> Seq<T::V> {
    s.sort_by(rank_order::<T>())
}

/// The order of ranks is total.
pub proof fn lemma_rank_order_is_total<T: Ranked>()
    ensures
        total_ordering(rank_order::<T>()),
{
    let le = rank_order::<T>();
    assert forall|a: T::V| #[trigger] le(a, a) by {
        lemma_reflexive(T::rank(a));
    }
    assert forall|a: T::V, b: T::V| #[trigger] le(a, b) && #[trigger] le(b, a) implies a == b by {
        lemma_antisymmetric(T::rank(a), T::rank(b));
        T::rank_is_injective(a, b);
    }
    assert forall|a: T::V, b: T::V, c: T::V| #[trigger] le(a, b) && #[trigger] le(b, c) implies le(
        a,
        c,
    ) by {
        lemma_transitive(T::rank(a), T::rank(b), T::rank(c));
    }
    assert forall|a: T::V, b: T::V| #[trigger] le(a, b) || #[trigger] le(b, a) by {
        lemma_connected(T::rank(a), T::rank(b));
    }
}

/// `v`, in order.
pub fn sort<T: Ranked>(v: Vec<T>) -> (r: Vec<T>)
    ensures
        views(r@) == in_order::<T>(views(v@)),
{
    broadcast use group_to_multiset_ensures, group_multiset_axioms;

    let ghost le = rank_order::<T>();
    let ghost all = views(v@);
    proof {
        lemma_rank_order_is_total::<T>();
    }
    let mut rest = v;
    let mut r: Vec<T> = Vec::new();
    assert(views(r@) =~= Seq::<T::V>::empty());
    assert(views(r@).to_multiset().add(all.to_multiset()) =~= all.to_multiset());
    while rest.len() > 0
        invariant
            le == rank_order::<T>(),
            total_ordering(le),
            sorted_by(views(r@), le),
            views(r@).to_multiset().add(views(rest@).to_multiset()) == all.to_multiset(),
        decreases rest.len(),
    {
        let ghost rest0 = rest@;
        let ghost r0 = r@;
        let x = rest.pop().unwrap();
        let mut at: usize = r.len();
        while at > 0 && !bytes_no_later(r[at - 1].rank_bytes(), x.rank_bytes())
            invariant
                le == rank_order::<T>(),
                at <= r.len(),
                forall|k: int| at <= k < r.len() ==> !le(#[trigger] views(r@)[k], x@),
            ensures
                at <= r.len(),
                forall|k: int| at <= k < r.len() ==> !le(#[trigger] views(r@)[k], x@),
                at > 0 ==> le(views(r@)[at - 1], x@),
            decreases at,
        {
            at = at - 1;
        }
        r.insert(at, x);
        proof {
            let s0 = views(r0);
            let s1 = views(r@);
            assert(s1 =~= s0.insert(at as int, x@));
            assert forall|i: int, j: int| 0 <= i < j < s1.len() implies #[trigger] le(
                s1[i],
                s1[j],
            ) by {
                if j < at {
                    assert(le(s0[i], s0[j]));
                } else if j == at {
                    if i < at - 1 {
                        assert(le(s0[i], s0[at - 1]));
                    }
                } else if i < at {
                    assert(le(s0[i], s0[j - 1]));
                } else if i == at {
                    assert(!le(s0[j - 1], x@));
                } else {
                    assert(le(s0[i - 1], s0[j - 1]));
                }
            }
            assert(views(rest0) =~= views(rest@).push(x@));
            to_multiset_insert(s0, at as int, x@);
            to_multiset_build(views(rest@), x@);
            assert(s1.to_multiset().add(views(rest@).to_multiset()) =~= s0.to_multiset().add(
                views(rest0).to_multiset(),
            ));
        }
    }
    proof {
        assert(views(rest@) =~= Seq::<T::V>::empty());
        assert(views(r@).to_multiset() =~= all.to_multiset());
        all.lemma_sort_by_ensures(le);
        lemma_sorted_unique(views(r@), in_order::<T>(all), le);
    }
    r
}

/// `s` without the entries that repeat the one before them.
pub open spec fn without_repeats<V>(s: Seq<V>) -> Seq<V>
    decreases s.len(),
{
    if s.len() < 2 {
        s
    } else if s.last() == s[s.len() - 2] {
        without_repeats(s.drop_last())
    } else {
        without_repeats(s.drop_last()).push(s.last())
    }
}

/// The texts of `s` in byte order, each once.
pub open spec fn sorted_once(s: Seq<Seq<char>>) -> Seq<Seq<char>> {
    without_repeats(in_order::<String>(s))
}

/// The strings of `v` in byte order, each once.
pub fn sort_once(v: Vec<String>) -> (r: Vec<String>)
    ensures
        texts(r@) == sorted_once(texts(v@)),
{
    assert(views(v@) =~= texts(v@));
    let s = sort(v);
    assert(views(s@) =~= texts(s@));
    let mut r: Vec<String> = Vec::new();
    let mut i: usize = 0;
    assert(texts(r@) =~= without_repeats(texts(s@.take(0))));
    while i < s.len()
        invariant
            i <= s.len(),
            texts(r@) == without_repeats(texts(s@.take(i as int))),
        decreases s.len() - i,
    {
        let ghost now = texts(s@.take(i + 1));
        let ghost before = r@;
        proof {
            assert(now.drop_last() =~= texts(s@.take(i as int)));
            assert(now.last() == s@[i as int]@);
            if i > 0 {
                assert(now[i - 1] == s@[i - 1]@);
            } else {
                assert(texts(s@.take(0)) =~= Seq::<Seq<char>>::empty());
            }
        }
        if i == 0 || !same(s[i].as_str(), s[i - 1].as_str()) {
            let c = s[i].clone();
            r.push(c);
            assert(texts(r@) =~= texts(before).push(c@));
            assert(i == 0 ==> texts(r@) =~= now);
        }
        i = i + 1;
    }
    assert(s@.take(i as int) =~= s@);
    r
}

/// `s` is in strict byte order: sorted, and nothing in it twice.
pub open spec fn strictly_ascending(s: Seq<Seq<char>>) -> bool {
    forall|i: int, j: int|
        0 <= i < j < s.len() ==> #[trigger] no_later(utf8(s[i]), utf8(s[j])) && s[i] != s[j]
}

proof fn lemma_without_repeats(s: Seq<Seq<char>>)
    requires
        sorted_by(s, rank_order::<String>()),
    ensures
        strictly_ascending(without_repeats(s)),
        forall|x: Seq<char>| without_repeats(s).contains(x) <==> s.contains(x),
        s.len() > 0 ==> without_repeats(s).len() > 0 && without_repeats(s).last() == s.last(),
    decreases s.len(),
{
    let le = rank_order::<String>();
    let t = without_repeats(s);
    if s.len() >= 2 {
        let init = s.drop_last();
        let u = without_repeats(init);
        assert(sorted_by(init, le));
        lemma_without_repeats(init);
        assert(s =~= init.push(s.last()));
        assert(le(s[s.len() - 2], s.last()));
        assert forall|x: Seq<char>| t.contains(x) <==> s.contains(x) by {
            if s.contains(x) {
                let k = choose|k: int| 0 <= k < s.len() && s[k] == x;
                if k < s.len() - 1 {
                    assert(init[k] == x);
                    assert(init.contains(x));
                    assert(u.contains(x));
                    let m = choose|m: int| 0 <= m < u.len() && u[m] == x;
                    assert(t[m] == x);
                } else {
                    assert(t.last() == x);
                    assert(t[t.len() - 1] == x);
                }
            }
            if t.contains(x) {
                let k = choose|k: int| 0 <= k < t.len() && t[k] == x;
                if k < u.len() {
                    assert(u[k] == x);
                    assert(init.contains(x));
                    let m = choose|m: int| 0 <= m < init.len() && init[m] == x;
                    assert(s[m] == x);
                } else {
                    assert(s[s.len() - 1] == x);
                }
            }
        }
        if s.last() != s[s.len() - 2] {
            assert forall|i: int, j: int| 0 <= i < j < t.len() implies #[trigger] no_later(
                utf8(t[i]),
                utf8(t[j]),
            ) && t[i] != t[j] by {
                if j < u.len() {
                    assert(no_later(utf8(u[i]), utf8(u[j])) && u[i] != u[j]);
                } else {
                    assert(u.last() == init.last());
                    if i < u.len() - 1 {
                        assert(no_later(utf8(u[i]), utf8(u[u.len() - 1])));
                        lemma_transitive(utf8(t[i]), utf8(u.last()), utf8(s.last()));
                        if t[i] == s.last() {
                            lemma_antisymmetric(utf8(t[i]), utf8(u.last()));
                            String::rank_is_injective(t[i], u.last());
                        }
                    }
                }
            }
        }
    } else if s.len() == 1 {
        assert(t == s);
    }
}

/// The sorted list is strictly ascending and holds the texts that the list holds, and no others.
pub proof fn law_sorted_once(s: Seq<Seq<char>>)
    ensures
        strictly_ascending(sorted_once(s)),
        forall|x: Seq<char>| sorted_once(s).contains(x) <==> s.contains(x),
{
    broadcast use group_to_multiset_ensures;

    let le = rank_order::<String>();
    lemma_rank_order_is_total::<String>();
    s.lemma_sort_by_ensures(le);
    let t = in_order::<String>(s);
    lemma_without_repeats(t);
    assert forall|x: Seq<char>| sorted_once(s).contains(x) <==> s.contains(x) by {
        assert(s.contains(x) <==> s.to_multiset().count(x) > 0);
        assert(t.contains(x) <==> t.to_multiset().count(x) > 0);
    }
}

/// The order of bytes is that of a dictionary: what decides is the first place where two texts
/// differ, and a text comes before what it begins.
pub proof fn law_byte_order(a: Seq<u8>, b: Seq<u8>, n: int)
    requires
        0 <= n <= a.len(),
        n <= b.len(),
        forall|i: int| 0 <= i < n ==> a[i] == #[trigger] b[i],
    ensures
        n == a.len() ==> no_later(a, b),
        n == b.len() && n < a.len() ==> !no_later(a, b),
        n < a.len() && n < b.len() && a[n] != b[n] ==> (no_later(a, b) <==> a[n] < b[n]),
    decreases n,
{
    if n > 0 {
        assert(a[0] == b[0]);
        assert forall|i: int| 0 <= i < n - 1 implies a.skip(1)[i] == #[trigger] b.skip(1)[i] by {
            assert(a[i + 1] == b[i + 1]);
        }
        law_byte_order(a.skip(1), b.skip(1), n - 1);
    }
}

/// A sorted list of paths holds every path as often as the list did, and no path stands before one
/// that comes earlier in the order of bytes.
pub proof fn law_sorted_paths(s: Seq<Seq<u8>>)
    ensures
        in_order::<PathBuf>(s).to_multiset() == s.to_multiset(),
        in_order::<PathBuf>(s).len() == s.len(),
        forall|i: int, j: int|
            0 <= i < j < s.len() ==> no_later(
                #[trigger] in_order::<PathBuf>(s)[i],
                #[trigger] in_order::<PathBuf>(s)[j],
            ),
{
    broadcast use group_to_multiset_ensures;

    let le = rank_order::<PathBuf>();
    lemma_rank_order_is_total::<PathBuf>();
    s.lemma_sort_by_ensures(le);
    let t = in_order::<PathBuf>(s);
    assert(t.len() == t.to_multiset().len());
    assert(s.len() == s.to_multiset().len());
    assert forall|i: int, j: int| 0 <= i < j < s.len() implies no_later(
        #[trigger] t[i],
        #[trigger] t[j],
    ) by {
        assert(le(t[i], t[j]));
    }
}

/// The values of a list are those of its entries, one for one.
pub proof fn law_views<T: View>(v: Seq<T>)
    ensures
        views(v).len() == v.len(),
        forall|i: int| 0 <= i < v.len() ==> #[trigger] views(v)[i] == v[i]@,
{
}

/// Texts are ordered by their UTF-8, and paths by their bytes.
pub proof fn law_ranks(s: Seq<char>, p: Seq<u8>)
    ensures
        String::rank(s) == utf8(s),
        PathBuf::rank(p) == p,
{
}

} // verus!
