//! Division that rounds towards negative infinity, and its remainder, on
//! machine integers.

use vstd::arithmetic::div_mod::{lemma_fundamental_div_mod, lemma_fundamental_div_mod_converse};
use vstd::prelude::*;

verus! {

/// The quotient and the remainder of a negative dividend, from those of its
/// absolute value.
proof fn lemma_negative_dividend(x: int, d: int)
    requires
        x < 0,
        d > 0,
    ensures
        0 <= (-x) / d <= -x,
        (-x) % d == 0 ==> x / d == -((-x) / d) && x % d == 0,
        (-x) % d != 0 ==> x / d == -((-x) / d) - 1 && x % d == d - (-x) % d && (-x) / d < -x,
{
    let p = -x;
    lemma_fundamental_div_mod(p, d);
    assert(0 <= p / d <= p) by (nonlinear_arith)
        requires
            p == d * (p / d) + (p % d),
            0 <= p % d < d,
            d > 0,
            p > 0,
    ;
    if p % d != 0 {
        assert(x == (-(p / d) - 1) * d + (d - p % d)) by (nonlinear_arith)
            requires
                p == d * (p / d) + (p % d),
                x == -p,
        ;
        lemma_fundamental_div_mod_converse(x, d, -(p / d) - 1, d - p % d);
        assert(p / d < p) by (nonlinear_arith)
            requires
                p == d * (p / d) + (p % d),
                0 < p % d < d,
                d > 0,
                p > 0,
        ;
    } else {
        assert(x == (-(p / d)) * d + 0) by (nonlinear_arith)
            requires
                p == d * (p / d) + (p % d),
                x == -p,
                p % d == 0,
        ;
        lemma_fundamental_div_mod_converse(x, d, -(p / d), 0);
    }
}

/// The greatest integer `q` with `q * b <= a`.
pub fn floor_div(a: i64, b: i64) -> (q: i64)
    requires
        b > 0,
    ensures
        q == a as int / b as int,
{
    let quotient = a / b;
    let remainder = a % b;
    proof {
        if a < 0 {
            lemma_negative_dividend(a as int, b as int);
        }
    }
    if remainder < 0 {
        quotient - 1
    } else {
        quotient
    }
}

/// What is left of `a` once the multiples of `b` are taken out: a number
/// from 0 up to, but without, `b`.
pub fn floor_mod(a: i64, b: i64) -> (r: i64)
    requires
        b > 0,
    ensures
        r == a as int % b as int,
        0 <= r < b,
{
    let remainder = a % b;
    proof {
        if a < 0 {
            lemma_negative_dividend(a as int, b as int);
        }
    }
    if remainder < 0 {
        remainder + b
    } else {
        remainder
    }
}

} // verus!
