//! Powers of two.
use vstd::arithmetic::power2::*;
use vstd::prelude::*;

verus! {

/// Whether `n` is a power of two.
pub open spec fn power_of_two(n: int) -> bool {
    exists|k: nat| n == #[trigger] pow2(k)
}

/// Whether `p` is the smallest power of two that is no less than `n`.
pub open spec fn is_next_power(p: int, n: int) -> bool {
    &&& power_of_two(p)
    &&& p >= n
    &&& forall|m: int| #[trigger] power_of_two(m) && m >= n ==> m >= p
}

/// Powers of two grow with the exponent.
proof fn lemma_pow2_grows(i: nat, j: nat)
    requires
        i <= j,
    ensures
        pow2(i) <= pow2(j),
{
    if i < j {
        lemma_pow2_strictly_increases(i, j);
    }
}

/// Of two powers of two the smaller divides the larger.
pub proof fn lemma_smaller_power_divides(a: int, b: int)
    requires
        power_of_two(a),
        power_of_two(b),
        a <= b,
    ensures
        a > 0,
        b % a == 0,
{
    let i = choose|k: nat| a == #[trigger] pow2(k);
    let j = choose|k: nat| b == #[trigger] pow2(k);
    lemma_pow2_pos(i);
    if i <= j {
        lemma_pow2_adds(i, (j - i) as nat);
        let q = pow2((j - i) as nat) as int;
        assert(b == a * q);
        vstd::arithmetic::div_mod::lemma_mod_multiples_basic(q, a);
        assert(q * a == a * q) by (nonlinear_arith);
    } else {
        lemma_pow2_strictly_increases(j, i);
    }
}

/// Half of the range of `usize` is a power of two.
pub proof fn lemma_half_range()
    ensures
        power_of_two(usize::MAX / 2 + 1),
{
    lemma2_to64();
    lemma2_to64_rest();
    if usize::BITS == 32 {
        assert(usize::MAX / 2 + 1 == pow2(31)) by {
            assert(pow2(31) == 0x80000000);
        }
    } else {
        assert(usize::MAX / 2 + 1 == pow2(63)) by {
            assert(pow2(63) == 0x8000000000000000);
        }
    }
}

/// The smallest power of two that is no less than `n`, where one fits.
pub fn next_power_of_two(n: usize) -> (r: Option<usize>)
    ensures
        r matches Some(p) ==> is_next_power(p as int, n as int),
        r is None ==> forall|m: int| #[trigger] power_of_two(m) && m >= n ==> m > usize::MAX,
        r is Some <==> n <= usize::MAX / 2 + 1,
{
    let mut p: usize = 1;
    let ghost mut k: nat = 0;
    proof {
        lemma2_to64();
        assert(pow2(0) == 1);
    }
    while p < n
        invariant
            p >= 1,
            p == pow2(k),
            k > 0 ==> pow2((k - 1) as nat) < n,
            p > usize::MAX / 2 ==> p == usize::MAX / 2 + 1,
        decreases usize::MAX - p,
    {
        proof {
            lemma_half_range();
            lemma_pow2_unfold(k + 1);
            assert forall|m: int| #[trigger] power_of_two(m) && m >= n implies m >= 2 * p by {
                let j = choose|j: nat| m == #[trigger] pow2(j);
                if j <= k {
                    lemma_pow2_grows(j, k);
                }
                lemma_pow2_grows(k + 1, j);
            }
        }
        if p > usize::MAX / 2 {
            return None;
        }
        p = p * 2;
        proof {
            let half = usize::MAX / 2 + 1;
            if p > half {
                lemma_smaller_power_divides(half, p as int);
                assert(false) by (nonlinear_arith)
                    requires
                        half == usize::MAX / 2 + 1,
                        half < p <= usize::MAX,
                        p as int % half == 0,
                {
                    assert(p as int % half == p - half);
                }
            }
            k = k + 1;
        }
    }
    proof {
        assert(power_of_two(p as int));
        assert forall|m: int| #[trigger] power_of_two(m) && m >= n implies m >= p by {
            let j = choose|j: nat| m == #[trigger] pow2(j);
            if j < k {
                lemma_pow2_grows(j, (k - 1) as nat);
            }
            lemma_pow2_grows(k, j);
        }
    }
    Some(p)
}

/// Whether `n` is a power of two.
pub fn is_power_of_two(n: usize) -> (r: bool)
    ensures
        r == power_of_two(n as int),
{
    let r = match next_power_of_two(n) {
        Some(p) => p == n,
        None => false,
    };
    proof {
        if power_of_two(n as int) {
            assert(n as int >= n as int);
        }
    }
    r
}

/// The next power of two from a number on is a power of two, no less than the number, and less than
/// twice as large unless it is 1: so there is just one.
pub proof fn law_next_power(p: int, n: int)
    requires
        is_next_power(p, n),
    ensures
        exists|k: nat| p == #[trigger] pow2(k),
        p >= n,
        p == 1 || p < 2 * n,
        forall|q: int| is_next_power(q, n) ==> q == p,
{
    let k = choose|k: nat| p == #[trigger] pow2(k);
    lemma2_to64();
    if k > 0 {
        lemma_pow2_unfold(k);
        let half = pow2((k - 1) as nat) as int;
        assert(power_of_two(half));
        lemma_pow2_pos((k - 1) as nat);
    }
    assert forall|q: int| is_next_power(q, n) implies q == p by {
        assert(power_of_two(q) && power_of_two(p));
    }
}

/// The powers of two are what doubling 1 gives, and nothing else.
pub proof fn law_power_of_two(n: int)
    ensures
        power_of_two(n) <==> n == 1 || (n > 1 && n % 2 == 0 && power_of_two(n / 2)),
{
    lemma2_to64();
    if power_of_two(n) {
        let k = choose|k: nat| n == #[trigger] pow2(k);
        if k > 0 {
            lemma_pow2_unfold(k);
            lemma_pow2_pos((k - 1) as nat);
            assert(n / 2 == pow2((k - 1) as nat));
        }
    }
    if n == 1 {
        assert(n == pow2(0));
    } else if n > 1 && n % 2 == 0 && power_of_two(n / 2) {
        let k = choose|k: nat| n / 2 == #[trigger] pow2(k);
        lemma_pow2_unfold(k + 1);
        assert(n == pow2(k + 1));
    }
}

} // verus!
