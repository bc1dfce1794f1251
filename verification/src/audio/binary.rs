//! Double-precision arithmetic on whole numbers.
//!
//! The rate conversion places its samples where a computation in double
//! precision places them. Here that computation is carried out exactly: a
//! double is kept as a mantissa of at most 53 bits and a power of two, and
//! each operation rounds its exact result to the nearest such value, ties to
//! the even mantissa.

use crate::arith::lemma_div_lt;
use vstd::arithmetic::power2::{
    lemma2_to64, lemma2_to64_rest, lemma_pow2_adds, lemma_pow2_pos, lemma_pow2_strictly_increases,
    lemma_pow2_unfold, pow2,
};
use vstd::prelude::*;

verus! {

/// Two to the 52nd: the least mantissa of a value that is not zero.
pub const MANTISSA_MIN: u128 = 0x10_0000_0000_0000;

/// Two to the 53rd: every mantissa is below it.
pub const MANTISSA_END: u128 = 0x20_0000_0000_0000;

/// The value `mantissa * 2^exponent`, as a model.
pub struct Binary {
    pub mantissa: nat,
    pub exponent: int,
}

/// The value `mantissa * 2^exponent`.
#[derive(Debug, Clone, Copy, PartialEq, Eq, Structural)]
pub struct Dyadic {
    pub mantissa: u64,
    pub exponent: i32,
}

impl View for Dyadic {
    type V = Binary;

    open spec fn view(&self) -> Binary {
        Binary { mantissa: self.mantissa as nat, exponent: self.exponent as int }
    }
}

impl Dyadic {
    /// The mantissa has at most 53 bits and the exponent is at most `bound` either way.
    pub open spec fn within(self, bound: int) -> bool {
        &&& self.mantissa < MANTISSA_END
        &&& -bound <= self.exponent <= bound
    }
}

/// `num`, doubled until it is no less than `den * 2^52`, and `exponent`
/// lowered by one for each doubling. Zero is left as it is.
pub open spec fn scaled_up(num: nat, den: nat, exponent: int) -> (nat, int)
    decreases
            (if num >= den * MANTISSA_MIN {
                0
            } else {
                den * MANTISSA_MIN - num
            }),
{
    if num == 0 || num >= den * MANTISSA_MIN {
        (num, exponent)
    } else {
        scaled_up(2 * num, den, exponent - 1)
    }
}

/// `den`, doubled until `num` is less than `den * 2^53`, and `exponent`
/// raised by one for each doubling.
pub open spec fn scaled_down(num: nat, den: nat, exponent: int) -> (nat, int)
    decreases
            (if num < den * MANTISSA_END {
                0
            } else {
                num - den * MANTISSA_END + 1
            }),
{
    if den == 0 || num < den * MANTISSA_END {
        (den, exponent)
    } else {
        scaled_down(num, 2 * den, exponent + 1)
    }
}

/// `num / den` scaled by a power of two into the range of a mantissa: a
/// numerator `n`, a denominator `d` and an exponent `e` with
/// `n / d == (num / den) / 2^e` and `2^52 <= n / d < 2^53`.
pub open spec fn scaled(num: nat, den: nat) -> (nat, nat, int) {
    let (n, lowered) = scaled_up(num, den, 0);
    let (d, exponent) = scaled_down(n, den, lowered);
    (n, d, exponent)
}

/// The whole number nearest to `n / d`, a tie going to the even one.
pub open spec fn nearest_whole(n: nat, d: nat) -> nat {
    let quotient = n / d;
    let rest = n % d;
    if 2 * rest > d || (2 * rest == d && quotient % 2 == 1) {
        quotient + 1
    } else {
        quotient
    }
}

/// The double nearest to `num / den`: the quotient is scaled by a power of
/// two into the range of a mantissa, rounded to the nearest whole number,
/// a tie going to the even one, and scaled back by the exponent.
pub open spec fn nearest(num: nat, den: nat) -> Binary {
    let (n, d, exponent) = scaled(num, den);
    let rounded = nearest_whole(n, d);
    if rounded == MANTISSA_END {
        Binary { mantissa: MANTISSA_MIN as nat, exponent: exponent + 1 }
    } else {
        Binary { mantissa: rounded, exponent }
    }
}

/// `a / b` in double precision.
pub open spec fn quotient(a: Binary, b: Binary) -> Binary {
    let rounded = nearest(a.mantissa, b.mantissa);
    Binary { mantissa: rounded.mantissa, exponent: rounded.exponent + a.exponent - b.exponent }
}

/// `a * b` in double precision.
pub open spec fn product(a: Binary, b: Binary) -> Binary {
    let rounded = nearest(a.mantissa * b.mantissa, 1);
    Binary { mantissa: rounded.mantissa, exponent: rounded.exponent + a.exponent + b.exponent }
}

/// The whole part of `x`.
pub open spec fn whole_part(x: Binary) -> nat {
    if x.exponent >= 0 {
        x.mantissa * pow2(x.exponent as nat)
    } else {
        x.mantissa / pow2((-x.exponent) as nat)
    }
}

/// The part of `x` after the point, as a numerator over `2^fraction_shift(x)`.
pub open spec fn fraction_numerator(x: Binary) -> nat {
    if x.exponent >= 0 {
        0
    } else {
        x.mantissa % pow2((-x.exponent) as nat)
    }
}

/// The power of two that `fraction_numerator` counts in.
pub open spec fn fraction_shift(x: Binary) -> nat {
    if x.exponent >= 0 {
        0
    } else {
        (-x.exponent) as nat
    }
}

proof fn lemma_pow2_106()
    ensures
        pow2(106) == 0x400_0000_0000_0000_0000_0000_0000,
        pow2(54) == 0x40_0000_0000_0000,
        pow2(53) == 0x20_0000_0000_0000,
        pow2(64) == 0x1_0000_0000_0000_0000,
{
    lemma2_to64();
    lemma2_to64_rest();
    lemma_pow2_adds(64, 42);
    assert(pow2(64) * pow2(42) == 0x400_0000_0000_0000_0000_0000_0000) by (nonlinear_arith)
        requires
            pow2(64) == 0x1_0000_0000_0000_0000,
            pow2(42) == 0x400_0000_0000,
    ;
}

/// A power of two that stays below `2^limit` has an exponent below `limit`.
proof fn lemma_pow2_below(e: nat, limit: nat)
    requires
        pow2(e) < pow2(limit),
    ensures
        e < limit,
{
    if e > limit {
        lemma_pow2_strictly_increases(limit, e);
    }
}

/// A quotient is no less than `bound` when the dividend is no less than `bound` times the divisor.
proof fn lemma_div_ge(x: int, d: int, bound: int)
    requires
        0 < d,
        0 <= bound,
        bound * d <= x,
    ensures
        bound <= x / d,
{
    vstd::arithmetic::div_mod::lemma_fundamental_div_mod(x, d);
    vstd::arithmetic::div_mod::lemma_mod_bound(x, d);
    let q = x / d;
    if q < bound {
        assert((q + 1) * d <= bound * d) by (nonlinear_arith)
            requires
                q + 1 <= bound,
                d > 0,
        ;
        assert(d * q + d == (q + 1) * d) by (nonlinear_arith);
    }
}

/// Doubling the numerator scales it by a power of two, and stops as soon as
/// the quotient has reached the range of a mantissa.
proof fn lemma_scaled_up(num: nat, den: nat, exponent: int)
    requires
        num > 0,
        den > 0,
    ensures
        ({
            let (n, lowered) = scaled_up(num, den, exponent);
            &&& lowered <= exponent
            &&& n == num * pow2((exponent - lowered) as nat)
            &&& n >= den * MANTISSA_MIN
            &&& lowered < exponent ==> n < den * MANTISSA_END
        }),
    decreases
            (if num >= den * MANTISSA_MIN {
                0
            } else {
                den * MANTISSA_MIN - num
            }),
{
    lemma2_to64();
    if num >= den * MANTISSA_MIN {
        assert(num * pow2(0) == num) by (nonlinear_arith)
            requires
                pow2(0) == 1,
        ;
    } else {
        lemma_scaled_up(2 * num, den, exponent - 1);
        let (n, lowered) = scaled_up(2 * num, den, exponent - 1);
        let k = (exponent - 1 - lowered) as nat;
        lemma_pow2_unfold(k + 1);
        assert((2 * num) * pow2(k) == num * (2 * pow2(k))) by (nonlinear_arith);
        if lowered == exponent - 1 {
            assert((2 * num) * pow2(0) == 2 * num) by (nonlinear_arith)
                requires
                    pow2(0) == 1,
            ;
        }
    }
}

/// Doubling the denominator scales it by a power of two, and stops as soon
/// as the quotient has come down to the range of a mantissa.
proof fn lemma_scaled_down(num: nat, den: nat, exponent: int)
    requires
        den > 0,
        num >= den * MANTISSA_MIN,
    ensures
        ({
            let (d, raised) = scaled_down(num, den, exponent);
            &&& raised >= exponent
            &&& d == den * pow2((raised - exponent) as nat)
            &&& d * MANTISSA_MIN <= num < d * MANTISSA_END
        }),
    decreases
            (if num < den * MANTISSA_END {
                0
            } else {
                num - den * MANTISSA_END + 1
            }),
{
    lemma2_to64();
    if num < den * MANTISSA_END {
        assert(den * pow2(0) == den) by (nonlinear_arith)
            requires
                pow2(0) == 1,
        ;
    } else {
        lemma_scaled_down(num, 2 * den, exponent + 1);
        let (d, raised) = scaled_down(num, 2 * den, exponent + 1);
        let k = (raised - exponent - 1) as nat;
        lemma_pow2_unfold(k + 1);
        assert((2 * den) * pow2(k) == den * (2 * pow2(k))) by (nonlinear_arith);
    }
}

/// Scaling changes the quotient by a power of two and by nothing else, and
/// brings it into the range of a mantissa: with `(n, d, e)` the scaled form
/// of `num / den`, either `n / d` is `num * 2^-e / den` or it is
/// `num / (den * 2^e)`, and `2^52 <= n / d < 2^53`.
pub proof fn lemma_scaled_is_scaled(num: nat, den: nat)
    requires
        num > 0,
        den > 0,
    ensures
        ({
            let (n, d, e) = scaled(num, den);
            &&& d * MANTISSA_MIN <= n < d * MANTISSA_END
            &&& e <= 0 ==> d == den && n == num * pow2((-e) as nat)
            &&& e >= 0 ==> n == num && d == den * pow2(e as nat)
        }),
{
    lemma2_to64();
    lemma_scaled_up(num, den, 0);
    let (n, lowered) = scaled_up(num, den, 0);
    lemma_scaled_down(n, den, lowered);
    let (d, e) = scaled_down(n, den, lowered);
    if lowered < 0 {
        assert(d == den && e == lowered);
    } else {
        assert(n == num * pow2(0));
        assert(num * pow2(0) == num) by (nonlinear_arith)
            requires
                pow2(0) == 1,
        ;
    }
    if e == 0 {
        assert(den * pow2(0) == den) by (nonlinear_arith)
            requires
                pow2(0) == 1,
        ;
        assert(num * pow2(0) == num) by (nonlinear_arith)
            requires
                pow2(0) == 1,
        ;
    }
}

/// Rounding to the nearest whole number moves a quotient by half a unit at
/// most, and by exactly half a unit only onto an even number.
pub proof fn lemma_nearest_whole_is_nearest(n: nat, d: nat)
    requires
        d > 0,
    ensures
        ({
            let m = nearest_whole(n, d);
            &&& 2 * (n - m * d) <= d
            &&& 2 * (m * d - n) <= d
            &&& (2 * (n - m * d) == d || 2 * (m * d - n) == d) ==> m % 2 == 0
        }),
{
    vstd::arithmetic::div_mod::lemma_fundamental_div_mod(n as int, d as int);
    vstd::arithmetic::div_mod::lemma_mod_bound(n as int, d as int);
    let q = n / d;
    let r = n % d;
    assert(q * d == d * q && (q + 1) * d == d * q + d) by (nonlinear_arith);
}

/// The value that `nearest` gives is a double: nothing for nothing, and
/// else a mantissa of exactly 53 bits. It is the whole number nearest to
/// the scaled quotient, with the exponent of the scaling; where that whole
/// number needs 54 bits, it is halved and the exponent raised by one.
pub proof fn lemma_nearest_is_a_double(num: nat, den: nat)
    requires
        den > 0,
    ensures
        num == 0 ==> nearest(num, den).mantissa == 0,
        num > 0 ==> MANTISSA_MIN <= nearest(num, den).mantissa < MANTISSA_END,
        num > 0 ==> ({
            let (n, d, e) = scaled(num, den);
            let x = nearest(num, den);
            ||| x.exponent == e && x.mantissa == nearest_whole(n, d)
            ||| x.exponent == e + 1 && 2 * x.mantissa == nearest_whole(n, d)
        }),
{
    if num > 0 {
        lemma_scaled_is_scaled(num, den);
        let (n, d, e) = scaled(num, den);
        lemma_div_lt(n as int, d as int, MANTISSA_END as int);
        lemma_div_ge(n as int, d as int, MANTISSA_MIN as int);
    } else {
        assert(scaled_up(0, den, 0) == (0nat, 0int));
        assert(scaled_down(0, den, 0) == (den, 0int));
        vstd::arithmetic::div_mod::lemma_basic_div(0, den as int);
        vstd::arithmetic::div_mod::lemma_small_mod(0, den);
    }
}

/// There is one scaling only: a power of two that brings the quotient into
/// the range of a mantissa is the one that `scaled` finds.
pub proof fn lemma_scaling_is_unique(num: nat, den: nat, doublings: nat)
    requires
        num > 0,
        den > 0,
        den * MANTISSA_MIN <= num * pow2(doublings) < den * MANTISSA_END,
    ensures
        scaled(num, den) == (num * pow2(doublings), den, -(doublings as int)),
{
    lemma2_to64();
    lemma_scaled_is_scaled(num, den);
    let (n, d, e) = scaled(num, den);
    let k = doublings;
    lemma_pow2_pos(k);
    if e <= 0 {
        let j = (-e) as nat;
        lemma_pow2_pos(j);
        if j < k {
            lemma_pow2_unfold(j + 1);
            if j + 1 < k {
                lemma_pow2_strictly_increases(j + 1, k);
            }
            assert(num * pow2(k) >= 2 * (num * pow2(j))) by (nonlinear_arith)
                requires
                    pow2(k) >= 2 * pow2(j),
            ;
        } else if j > k {
            lemma_pow2_unfold(k + 1);
            if k + 1 < j {
                lemma_pow2_strictly_increases(k + 1, j);
            }
            assert(num * pow2(j) >= 2 * (num * pow2(k))) by (nonlinear_arith)
                requires
                    pow2(j) >= 2 * pow2(k),
            ;
        }
    } else {
        let up = e as nat;
        if 1 < up {
            lemma_pow2_strictly_increases(1, up);
        }
        assert(den * pow2(up) >= 2 * den) by (nonlinear_arith)
            requires
                pow2(up) >= 2,
        ;
        assert(num * pow2(k) >= num) by (nonlinear_arith)
            requires
                pow2(k) >= 1,
        ;
    }
}

/// The part after the point is less than one: its numerator is below the
/// power of two that it counts in. What is handed to an interpolation as the
/// weight of the later sample lies between nought and one, one left out.
pub proof fn lemma_fraction_is_proper(x: Binary)
    ensures
        fraction_numerator(x) < pow2(fraction_shift(x)),
{
    lemma2_to64();
    lemma_pow2_pos(fraction_shift(x));
    if x.exponent < 0 {
        vstd::arithmetic::div_mod::lemma_mod_bound(
            x.mantissa as int,
            pow2(fraction_shift(x)) as int,
        );
    }
}

/// Rounds `num / den` to the nearest double.
pub fn round_quotient(num: u128, den: u128) -> (rounded: Dyadic)
    requires
        0 < den <= MANTISSA_END,
        num < 0x400_0000_0000_0000_0000_0000_0000,
    ensures
        rounded@ == nearest(num as nat, den as nat),
        rounded.within(106),
        num == 0 <==> rounded.mantissa == 0,
        num != 0 ==> rounded.mantissa >= MANTISSA_MIN,
{
    if num == 0 {
        proof {
            assert(scaled_up(0, den as nat, 0) == (0nat, 0int));
            assert(scaled_down(0, den as nat, 0) == (den as nat, 0int));
            vstd::arithmetic::div_mod::lemma_basic_div(0, den as int);
            vstd::arithmetic::div_mod::lemma_small_mod(0, den as nat);
        }
        return Dyadic { mantissa: 0, exponent: 0 };
    }
    proof {
        lemma_pow2_106();
        lemma2_to64();
    }
    let mut n: u128 = num;
    let mut exponent: i32 = 0;
    let ghost mut doublings: nat = 0;
    while n < den * MANTISSA_MIN
        invariant
            0 < den <= MANTISSA_END,
            0 < n < 0x400_0000_0000_0000_0000_0000_0000,
            scaled_up(n as nat, den as nat, exponent as int) == scaled_up(
                num as nat,
                den as nat,
                0,
            ),
            exponent == -doublings,
            doublings <= 105,
            n >= pow2(doublings),
            pow2(106) == 0x400_0000_0000_0000_0000_0000_0000,
        decreases
                (if n >= den * MANTISSA_MIN {
                    0
                } else {
                    den * MANTISSA_MIN - n
                }),
    {
        proof {
            lemma_pow2_unfold(doublings + 1);
            lemma_pow2_below(doublings + 1, 106);
        }
        n = 2 * n;
        exponent = exponent - 1;
        proof {
            doublings = doublings + 1;
        }
    }
    let lowered: i32 = exponent;
    let mut d: u128 = den;
    let ghost mut halvings: nat = 0;
    proof {
        lemma_pow2_pos(0);
        lemma2_to64();
    }
    while n >= d * MANTISSA_END
        invariant
            0 < d <= 0x40_0000_0000_0000,
            den <= d,
            0 < n < 0x400_0000_0000_0000_0000_0000_0000,
            n >= d * MANTISSA_MIN,
            scaled_down(n as nat, d as nat, exponent as int) == scaled_down(
                n as nat,
                den as nat,
                lowered as int,
            ),
            exponent == lowered + halvings,
            -105 <= lowered <= 0,
            halvings <= 54,
            d >= pow2(halvings),
            pow2(54) == 0x40_0000_0000_0000,
        decreases
                (if n < d * MANTISSA_END {
                    0
                } else {
                    n - d * MANTISSA_END + 1
                }),
    {
        proof {
            lemma_pow2_unfold(halvings + 1);
            lemma_pow2_below(halvings + 1, 54);
        }
        d = 2 * d;
        exponent = exponent + 1;
        proof {
            halvings = halvings + 1;
        }
    }
    proof {
        lemma_div_lt(n as int, d as int, MANTISSA_END as int);
        lemma_div_ge(n as int, d as int, MANTISSA_MIN as int);
        vstd::arithmetic::div_mod::lemma_mod_bound(n as int, d as int);
    }
    let whole: u128 = n / d;
    let rest: u128 = n % d;
    let rounded: u128 = if 2 * rest > d || (2 * rest == d && whole % 2 == 1) {
        whole + 1
    } else {
        whole
    };
    if rounded == MANTISSA_END {
        Dyadic { mantissa: MANTISSA_MIN as u64, exponent: exponent + 1 }
    } else {
        Dyadic { mantissa: rounded as u64, exponent }
    }
}

/// Two to the power `e`.
fn power_of_two(e: u32) -> (power: u128)
    requires
        e <= 64,
    ensures
        power == pow2(e as nat),
        power <= 0x1_0000_0000_0000_0000,
{
    proof {
        lemma2_to64();
    }
    let mut power: u128 = 1;
    let mut done: u32 = 0;
    while done < e
        invariant
            done <= e <= 64,
            power == pow2(done as nat),
            power <= pow2(64),
            pow2(64) == 0x1_0000_0000_0000_0000,
        decreases e - done,
    {
        proof {
            lemma_pow2_unfold((done + 1) as nat);
            if done + 1 < 64 {
                lemma_pow2_strictly_increases((done + 1) as nat, 64);
            }
        }
        power = 2 * power;
        done = done + 1;
    }
    power
}

/// Converts a whole number to double precision.
pub fn round_whole(n: usize) -> (rounded: Dyadic)
    ensures
        rounded@ == nearest(n as nat, 1),
        rounded.within(106),
        n == 0 <==> rounded.mantissa == 0,
{
    round_quotient(n as u128, 1)
}

/// Divides in double precision.
pub fn divide(a: Dyadic, b: Dyadic) -> (result: Dyadic)
    requires
        a.within(110),
        b.within(110),
        b.mantissa > 0,
    ensures
        result@ == quotient(a@, b@),
        result.within(330),
        a.mantissa == 0 <==> result.mantissa == 0,
{
    let rounded: Dyadic = round_quotient(a.mantissa as u128, b.mantissa as u128);
    Dyadic { mantissa: rounded.mantissa, exponent: rounded.exponent + a.exponent - b.exponent }
}

/// Multiplies in double precision.
pub fn multiply(a: Dyadic, b: Dyadic) -> (result: Dyadic)
    requires
        a.within(110),
        b.within(110),
    ensures
        result@ == product(a@, b@),
        result.within(330),
{
    assert(a.mantissa as u128 * b.mantissa as u128 <= 0x1f_ffff_ffff_ffff * 0x1f_ffff_ffff_ffff)
        by (nonlinear_arith)
        requires
            a.mantissa <= 0x1f_ffff_ffff_ffff,
            b.mantissa <= 0x1f_ffff_ffff_ffff,
    ;
    let rounded: Dyadic = round_quotient(a.mantissa as u128 * b.mantissa as u128, 1);
    Dyadic { mantissa: rounded.mantissa, exponent: rounded.exponent + a.exponent + b.exponent }
}

/// The whole part of `x`, or `None` where it is more than a `usize` holds.
pub fn whole(x: Dyadic) -> (part: Option<usize>)
    requires
        x.within(330),
    ensures
        match part {
            Some(value) => value == whole_part(x@),
            None => whole_part(x@) > usize::MAX,
        },
{
    proof {
        lemma_pow2_106();
    }
    if x.mantissa == 0 {
        proof {
            if x.exponent >= 0 {
                assert(0 * pow2(x.exponent as nat) == 0) by (nonlinear_arith);
            } else {
                lemma_pow2_pos((-x.exponent) as nat);
            }
        }
        return Some(0);
    }
    if x.exponent >= 0 {
        if x.exponent >= 64 {
            proof {
                let p = pow2(x.exponent as nat);
                if x.exponent > 64 {
                    lemma_pow2_strictly_increases(64, x.exponent as nat);
                }
                assert(x.mantissa * p >= p) by (nonlinear_arith)
                    requires
                        x.mantissa >= 1,
                        p >= 0,
                ;
            }
            return None;
        }
        let power: u128 = power_of_two(x.exponent as u32);
        assert(x.mantissa as u128 * power <= 0x20_0000_0000_0000 * 0x1_0000_0000_0000_0000)
            by (nonlinear_arith)
            requires
                x.mantissa <= 0x20_0000_0000_0000,
                power <= 0x1_0000_0000_0000_0000,
        ;
        let value: u128 = x.mantissa as u128 * power;
        if value > usize::MAX as u128 {
            None
        } else {
            Some(value as usize)
        }
    } else {
        let shift: u32 = (-x.exponent) as u32;
        if shift >= 64 {
            proof {
                if shift > 64 {
                    lemma_pow2_strictly_increases(64, shift as nat);
                }
                vstd::arithmetic::div_mod::lemma_basic_div(
                    x.mantissa as int,
                    pow2(shift as nat) as int,
                );
            }
            return Some(0);
        }
        let power: u128 = power_of_two(shift);
        proof {
            lemma_pow2_pos(shift as nat);
        }
        let value: u128 = x.mantissa as u128 / power;
        if value > usize::MAX as u128 {
            None
        } else {
            Some(value as usize)
        }
    }
}

/// The part of `x` after the point: a numerator and the power of two it counts in.
pub fn fraction(x: Dyadic) -> (part: (u64, u32))
    requires
        x.within(330),
    ensures
        part.0 == fraction_numerator(x@),
        part.1 == fraction_shift(x@),
{
    if x.exponent >= 0 {
        return (0, 0);
    }
    proof {
        lemma_pow2_106();
    }
    let shift: u32 = (-x.exponent) as u32;
    if shift >= 64 {
        proof {
            if shift > 64 {
                lemma_pow2_strictly_increases(64, shift as nat);
            }
            vstd::arithmetic::div_mod::lemma_small_mod(x.mantissa as nat, pow2(shift as nat));
        }
        return (x.mantissa, shift);
    }
    let power: u128 = power_of_two(shift);
    proof {
        lemma_pow2_pos(shift as nat);
        vstd::arithmetic::div_mod::lemma_mod_bound(x.mantissa as int, power as int);
    }
    ((x.mantissa as u128 % power) as u64, shift)
}

} // verus!
