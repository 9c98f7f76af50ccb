//! Rounding a length up to a power of two.

use vstd::arithmetic::power2::is_pow2;
use vstd::prelude::*;

verus! {

/// The smallest power of two that is at least `n`.
pub open spec fn next_pow2(n: nat) -> nat
    decreases n,
{
    if n <= 1 {
        1
    } else {
        2 * next_pow2((n + 1) / 2)
    }
}

/// Of two distinct powers of two, the larger is at least twice the smaller.
pub proof fn lemma_pow2_gap(x: int, y: int)
    requires
        is_pow2(x),
        is_pow2(y),
        x < y,
    ensures
        2 * x <= y,
    decreases y,
{
    reveal(is_pow2);
    if x > 1 {
        lemma_pow2_gap(x / 2, y / 2);
    }
}

/// Twice a power of two is a power of two.
pub proof fn lemma_pow2_double(x: int)
    requires
        is_pow2(x),
    ensures
        is_pow2(2 * x),
{
    reveal(is_pow2);
}

/// `next_pow2(n)` is a power of two, is at least `n`, and is less than `2 * n`
/// unless `n` is 0.
pub proof fn lemma_next_pow2_bounds(n: nat)
    ensures
        is_pow2(next_pow2(n) as int),
        n <= next_pow2(n),
        n >= 1 ==> next_pow2(n) < 2 * n,
    decreases n,
{
    reveal(is_pow2);
    if n > 1 {
        lemma_next_pow2_bounds((n + 1) / 2);
    }
}

/// No power of two lies between `n` and `next_pow2(n)`: the result is the
/// smallest one that is at least `n`.
pub proof fn lemma_next_pow2_least(n: nat, q: int)
    requires
        is_pow2(q),
        n <= q,
    ensures
        next_pow2(n) <= q,
{
    lemma_next_pow2_bounds(n);
    reveal(is_pow2);
    if q < next_pow2(n) {
        lemma_pow2_gap(q, next_pow2(n) as int);
    }
}

/// A power of two is its own rounding.
pub proof fn lemma_next_pow2_fixed(n: nat)
    requires
        is_pow2(n as int),
    ensures
        next_pow2(n) == n,
{
    lemma_next_pow2_bounds(n);
    lemma_next_pow2_least(n, n as int);
}

/// Rounding up is monotone.
pub proof fn lemma_next_pow2_monotone(m: nat, n: nat)
    requires
        m <= n,
    ensures
        next_pow2(m) <= next_pow2(n),
{
    lemma_next_pow2_bounds(n);
    lemma_next_pow2_least(m, next_pow2(n) as int);
}

/// Rounds `n` up to a power of two; 0 rounds up to 1.
pub fn next_power_of_two(n: usize) -> (r: usize)
    requires
        next_pow2(n as nat) <= usize::MAX,
    ensures
        r == next_pow2(n as nat),
{
    let mut p: usize = 1;
    proof {
        reveal(is_pow2);
        lemma_next_pow2_bounds(n as nat);
    }
    while p < n
        invariant
            1 <= p,
            is_pow2(p as int),
            p == 1 || p < 2 * n,
            is_pow2(next_pow2(n as nat) as int),
            n <= next_pow2(n as nat) <= usize::MAX,
        decreases next_pow2(n as nat) - p,
    {
        proof {
            lemma_pow2_gap(p as int, next_pow2(n as nat) as int);
            lemma_pow2_double(p as int);
        }
        p = 2 * p;
    }
    proof {
        lemma_next_pow2_bounds(n as nat);
        lemma_next_pow2_least(n as nat, p as int);
        if next_pow2(n as nat) < p {
            lemma_pow2_gap(next_pow2(n as nat) as int, p as int);
        }
    }
    p
}

} // verus!
