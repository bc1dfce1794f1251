//! Facts about division and remainder that the index computations rest on.

use vstd::arithmetic::div_mod::{
    lemma_fundamental_div_mod, lemma_fundamental_div_mod_converse, lemma_mod_bound,
};
use vstd::prelude::*;

verus! {

/// `x` is `q` whole multiples of `d` plus a remainder `r` below `d`.
pub proof fn lemma_div_mod_unique(x: int, d: int, q: int, r: int)
    requires
        d > 0,
        0 <= r < d,
        x == q * d + r,
    ensures
        x / d == q,
        x % d == r,
{
    lemma_fundamental_div_mod_converse(x, d, q, r);
}

/// Stepping a position by one steps its slot by one, wrapping at the modulus.
pub proof fn lemma_mod_succ(n: int, c: int)
    requires
        c > 0,
    ensures
        (n + 1) % c == if n % c + 1 == c {
            0
        } else {
            n % c + 1
        },
{
    lemma_fundamental_div_mod(n, c);
    lemma_mod_bound(n, c);
    let q = n / c;
    let r = n % c;
    if r + 1 == c {
        assert(n + 1 == (q + 1) * c + 0) by (nonlinear_arith)
            requires
                n == c * q + r,
                r + 1 == c,
        ;
        lemma_div_mod_unique(n + 1, c, q + 1, 0);
    } else {
        assert(n + 1 == q * c + (r + 1)) by (nonlinear_arith)
            requires
                n == c * q + r,
        ;
        lemma_div_mod_unique(n + 1, c, q, r + 1);
    }
}

/// Moving a position back by at most one lap moves its slot back by as much, wrapping at the modulus.
pub proof fn lemma_mod_back(n: int, d: int, c: int)
    requires
        c > 0,
        0 <= d <= c,
    ensures
        (n - d) % c == if n % c >= d {
            n % c - d
        } else {
            n % c + c - d
        },
{
    lemma_fundamental_div_mod(n, c);
    lemma_mod_bound(n, c);
    let q = n / c;
    let r = n % c;
    if r >= d {
        assert(n - d == q * c + (r - d)) by (nonlinear_arith)
            requires
                n == c * q + r,
        ;
        lemma_div_mod_unique(n - d, c, q, r - d);
    } else {
        assert(n - d == (q - 1) * c + (r + c - d)) by (nonlinear_arith)
            requires
                n == c * q + r,
        ;
        lemma_div_mod_unique(n - d, c, q - 1, r + c - d);
    }
}

/// Two different positions less than one lap apart never share a slot.
pub proof fn lemma_mod_window_distinct(p: int, n: int, c: int)
    requires
        c > 0,
        p < n,
        n - p < c,
    ensures
        p % c != n % c,
{
    lemma_fundamental_div_mod(n, c);
    lemma_fundamental_div_mod(p, c);
    if p % c == n % c {
        let a = n / c;
        let b = p / c;
        assert(n - p == c * (a - b)) by (nonlinear_arith)
            requires
                n == c * a + n % c,
                p == c * b + p % c,
                p % c == n % c,
        ;
        assert(false) by (nonlinear_arith)
            requires
                n - p == c * (a - b),
                0 < n - p < c,
                c > 0,
        ;
    }
}

/// A quotient times its divisor never exceeds the dividend.
pub proof fn lemma_div_mul_le(x: int, d: int)
    requires
        0 <= x,
        0 < d,
    ensures
        0 <= x / d,
        (x / d) * d <= x,
{
    lemma_fundamental_div_mod(x, d);
    lemma_mod_bound(x, d);
    vstd::arithmetic::div_mod::lemma_div_pos_is_pos(x, d);
    assert((x / d) * d == d * (x / d)) by (nonlinear_arith);
}

/// A dividend below `bound` whole multiples of the divisor has a quotient below `bound`.
pub proof fn lemma_div_lt(x: int, d: int, bound: int)
    requires
        0 <= x,
        0 < d,
        x < bound * d,
    ensures
        x / d < bound,
{
    lemma_div_mul_le(x, d);
    let q = x / d;
    if q >= bound {
        assert(q * d >= bound * d) by (nonlinear_arith)
            requires
                q >= bound,
                d > 0,
        ;
    }
}

} // verus!
