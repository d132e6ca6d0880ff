//! Fixed-point arithmetic underlying every value type of the crate.
//!
//! A fractional quantity is stored as a signed count of billionths
//! (`SCALE` units per whole). All rounding behaviour is pinned down by
//! the spec functions here, so the contracts of the value types can
//! state results exactly.

use vstd::prelude::*;
use vstd::arithmetic::div_mod::lemma_div_is_ordered;
use vstd::arithmetic::div_mod::lemma_div_is_ordered_by_denominator;
use vstd::arithmetic::div_mod::lemma_div_pos_is_pos;
use vstd::arithmetic::div_mod::lemma_div_nonincreasing;
use vstd::arithmetic::mul::lemma_mul_inequality;
use vstd::arithmetic::mul::lemma_mul_nonnegative;

verus! {

/// Scale of the fixed-point representation: one unit is one billionth,
/// so a decimal change of 0.01 (one percent) is stored as 10_000_000.
pub const SCALE: i64 = 1_000_000_000;

/// Division by a positive divisor, rounded to the nearest integer with
/// halves away from zero.
pub open spec fn div_round(a: int, d: int) -> int
    recommends
        d > 0,
{
    if a >= 0 {
        (a + d / 2) / d
    } else {
        -((-a + d / 2) / d)
    }
}

pub proof fn lemma_div_round_nonneg(a: int, d: int)
    requires
        d > 0,
        a >= 0,
    ensures
        div_round(a, d) >= 0,
{
    lemma_div_pos_is_pos(a + d / 2, d);
}

pub proof fn lemma_div_round_mono(a: int, b: int, d: int)
    requires
        d > 0,
        a <= b,
    ensures
        div_round(a, d) <= div_round(b, d),
{
    if a >= 0 {
        lemma_div_is_ordered(a + d / 2, b + d / 2, d);
    } else if b >= 0 {
        lemma_div_pos_is_pos(-a + d / 2, d);
        lemma_div_pos_is_pos(b + d / 2, d);
    } else {
        lemma_div_is_ordered(-b + d / 2, -a + d / 2, d);
    }
}

/// Rounded division of a (possibly negative) value by a positive divisor.
pub(crate) fn div_round_i128(a: i128, d: u64) -> (r: i128)
    requires
        d > 0,
        a > i128::MIN,
    ensures
        r == div_round(a as int, d as int),
{
    let du: u128 = d as u128;
    let half: u128 = du / 2;
    if a >= 0 {
        let n: u128 = (a as u128) + half;
        let q: u128 = n / du;
        proof {
            lemma_quotient_in_range(n, du);
            lemma_div_pos_is_pos(n as int, du as int);
        }
        q as i128
    } else {
        let m: u128 = (-a) as u128;
        let n: u128 = m + half;
        let q: u128 = n / du;
        proof {
            lemma_quotient_in_range(n, du);
            lemma_div_pos_is_pos(n as int, du as int);
        }
        -(q as i128)
    }
}

proof fn lemma_quotient_in_range(n: u128, du: u128)
    requires
        du >= 1,
        du >= 2 || n <= i128::MAX,
    ensures
        n as int / du as int <= i128::MAX,
{
    if du == 1 {
        lemma_div_nonincreasing(n as int, du as int);
    } else {
        lemma_div_is_ordered_by_denominator(n as int, 2, du as int);
        assert(n as int / 2 <= i128::MAX);
    }
}

/// Saturation of an arbitrary integer into the `i64` range.
pub open spec fn clamp_i64(x: int) -> int {
    if x > i64::MAX {
        i64::MAX as int
    } else if x < i64::MIN {
        i64::MIN as int
    } else {
        x
    }
}

pub(crate) fn clamp_i64_exec(x: i128) -> (r: i64)
    ensures
        r == clamp_i64(x as int),
{
    if x > i64::MAX as i128 {
        i64::MAX
    } else if x < i64::MIN as i128 {
        i64::MIN
    } else {
        x as i64
    }
}

/// Fixed-point product of two non-negative multipliers, rounded to the
/// nearest unit and capped at the largest representable value.
pub open spec fn fixmul(a: int, b: int) -> int
    recommends
        0 <= a,
        0 <= b,
{
    let m = div_round(a * b, SCALE as int);
    if m > i64::MAX {
        i64::MAX as int
    } else {
        m
    }
}

pub(crate) fn fixmul_exec(a: i64, b: i64) -> (r: i64)
    requires
        0 <= a,
        0 <= b,
    ensures
        r == fixmul(a as int, b as int),
        0 <= r,
{
    proof {
        lemma_mul_nonnegative(a as int, b as int);
        vstd::arithmetic::mul::lemma_mul_upper_bound(
            a as int,
            i64::MAX as int,
            b as int,
            i64::MAX as int,
        );
    }
    let p: i128 = (a as i128) * (b as i128);
    let q: i128 = div_round_i128(p, SCALE as u64);
    proof {
        lemma_div_round_nonneg(p as int, SCALE as int);
    }
    if q > i64::MAX as i128 {
        i64::MAX
    } else {
        q as i64
    }
}

pub proof fn lemma_fixmul_nonneg(a: int, b: int)
    requires
        0 <= a,
        0 <= b,
    ensures
        0 <= fixmul(a, b) <= i64::MAX,
{
    lemma_mul_nonnegative(a, b);
    lemma_div_round_nonneg(a * b, SCALE as int);
}

/// `fixmul` is monotone in its first argument (and, by symmetry of the
/// product, in its second).
pub proof fn lemma_fixmul_mono(a1: int, a2: int, b: int)
    requires
        0 <= a1 <= a2,
        0 <= b,
    ensures
        fixmul(a1, b) <= fixmul(a2, b),
{
    lemma_mul_inequality(a1, a2, b);
    lemma_div_round_mono(a1 * b, a2 * b, SCALE as int);
}

pub proof fn lemma_fixmul_comm(a: int, b: int)
    ensures
        fixmul(a, b) == fixmul(b, a),
{
    vstd::arithmetic::mul::lemma_mul_is_commutative(a, b);
}

/// Fixed-point power: the multiplier `m` composed with itself `n` times,
/// rounding at each step exactly as `fixmul` does.
pub open spec fn fixpow(m: int, n: nat) -> int
    recommends
        0 <= m,
    decreases n,
{
    if n == 0 {
        SCALE as int
    } else {
        fixmul(m, fixpow(m, (n - 1) as nat))
    }
}

pub proof fn lemma_fixpow_bounds(m: int, n: nat)
    requires
        0 <= m,
    ensures
        0 <= fixpow(m, n) <= i64::MAX,
    decreases n,
{
    if n == 0 {
    } else {
        lemma_fixpow_bounds(m, (n - 1) as nat);
        lemma_fixmul_nonneg(m, fixpow(m, (n - 1) as nat));
    }
}

/// A single fixed-point power is the multiplier itself.
pub proof fn lemma_fixpow_one(m: int)
    requires
        0 <= m <= i64::MAX,
    ensures
        fixpow(m, 1) == m,
{
    assert(fixpow(m, 0) == SCALE as int);
    assert(m * (SCALE as int) == (SCALE as int) * m) by {
        vstd::arithmetic::mul::lemma_mul_is_commutative(m, SCALE as int);
    };
    vstd::arithmetic::div_mod::lemma_div_multiples_vanish_fancy(
        m,
        (SCALE as int) / 2,
        SCALE as int,
    );
    lemma_mul_nonnegative(m, SCALE as int);
}

/// `fixpow` is monotone in the base.
pub proof fn lemma_fixpow_mono(m1: int, m2: int, n: nat)
    requires
        0 <= m1 <= m2,
    ensures
        fixpow(m1, n) <= fixpow(m2, n),
    decreases n,
{
    if n == 0 {
    } else {
        let k = (n - 1) as nat;
        lemma_fixpow_mono(m1, m2, k);
        lemma_fixpow_bounds(m1, k);
        lemma_fixpow_bounds(m2, k);
        lemma_fixmul_mono(fixpow(m1, k), fixpow(m2, k), m1);
        lemma_fixmul_comm(fixpow(m1, k), m1);
        lemma_fixmul_comm(fixpow(m2, k), m1);
        lemma_fixmul_mono(m1, m2, fixpow(m2, k));
        lemma_fixmul_comm(fixpow(m2, k), m2);
    }
}

pub proof fn lemma_fixpow_zero_base(n: nat)
    requires
        n >= 1,
    ensures
        fixpow(0, n) == 0,
    decreases n,
{
    if n == 1 {
        lemma_fixpow_bounds(0, 0);
    } else {
        lemma_fixpow_zero_base((n - 1) as nat);
    }
}

pub(crate) fn fixpow_exec(m: i64, n: u64) -> (r: i64)
    requires
        0 <= m,
    ensures
        r == fixpow(m as int, n as nat),
        0 <= r,
{
    let mut acc: i64 = SCALE;
    let mut i: u64 = 0;
    while i < n
        invariant
            0 <= i <= n,
            0 <= m,
            0 <= acc,
            acc == fixpow(m as int, i as nat),
        decreases n - i,
    {
        acc = fixmul_exec(m, acc);
        i = i + 1;
    }
    acc
}

/// Largest multiplier whose `q`-th fixed-point power does not exceed `t`:
/// the result `r` satisfies `fixpow(r, q) <= t`, and `r + 1` (when
/// representable) overshoots. Monotonicity of `fixpow` makes this
/// bracketing unique.
pub(crate) fn fixroot(t: i64, q: u64) -> (r: i64)
    requires
        0 <= t,
        q >= 1,
    ensures
        0 <= r,
        fixpow(r as int, q as nat) <= t,
        r < i64::MAX ==> t < fixpow(r as int + 1, q as nat),
{
    let top = fixpow_exec(i64::MAX, q);
    if top <= t {
        return i64::MAX;
    }
    proof {
        lemma_fixpow_zero_base(q as nat);
    }
    let mut lo: i64 = 0;
    let mut hi: i64 = i64::MAX;
    while hi - lo > 1
        invariant
            0 <= lo < hi <= i64::MAX,
            q >= 1,
            0 <= t,
            fixpow(lo as int, q as nat) <= t,
            t < fixpow(hi as int, q as nat),
        decreases hi - lo,
    {
        let mid: i64 = lo + (hi - lo) / 2;
        let p = fixpow_exec(mid, q);
        if p <= t {
            lo = mid;
        } else {
            hi = mid;
        }
    }
    lo
}

/// Rounded division by a positive divisor never grows a non-negative
/// value.
pub proof fn lemma_div_round_magnitude(a: int, d: int)
    requires
        d > 0,
        a >= 0,
    ensures
        0 <= div_round(a, d) <= a,
{
    lemma_div_pos_is_pos(a + d / 2, d);
    assert(d * (a + 1) == d * a + d) by {
        vstd::arithmetic::mul::lemma_mul_is_distributive_add(d, a, 1);
    };
    assert(a <= d * a) by {
        lemma_mul_inequality(1, d, a);
        vstd::arithmetic::mul::lemma_mul_is_commutative(d, a);
    };
    vstd::arithmetic::div_mod::lemma_multiply_divide_lt(a + d / 2, d, a + 1);
}

/// The square of an integer.
pub open spec fn sq(x: int) -> int {
    x * x
}

/// Rounded division keeps a value inside a symmetric bound scaled by
/// the divisor.
pub proof fn lemma_div_round_bounded(a: int, c: int, m: int)
    requires
        c > 0,
        m >= 0,
        -(c * m) <= a <= c * m,
    ensures
        -m <= div_round(a, c) <= m,
{
    vstd::arithmetic::div_mod::lemma_div_multiples_vanish_fancy(m, c / 2, c);
    if a >= 0 {
        lemma_div_round_mono(a, c * m, c);
        lemma_div_round_nonneg(a, c);
    } else {
        lemma_div_round_mono(-a, c * m, c);
        lemma_div_round_nonneg(-a, c);
    }
}

/// A product of two values bounded in magnitude is bounded by the
/// product of the bounds.
pub proof fn lemma_mul_abs_bound(x: int, y: int, bx: int, by: int)
    by (nonlinear_arith)
    requires
        -bx <= x <= bx,
        -by <= y <= by,
        0 <= bx,
        0 <= by,
    ensures
        -(bx * by) <= x * y <= bx * by,
{
}

/// The square of a value never exceeds the square of an upper bound.
pub proof fn lemma_square_mono(x: int, b: int)
    requires
        0 <= x <= b,
    ensures
        x * x <= b * b,
{
    lemma_mul_inequality(x, b, x);
    vstd::arithmetic::mul::lemma_mul_is_commutative(b, x);
    lemma_mul_inequality(x, b, b);
}

/// Square root by bracketing: `r * r <= v`, and `r + 1` (when
/// representable) overshoots.
pub(crate) fn isqrt(v: u128) -> (r: u64)
    ensures
        (r as int) * (r as int) <= v,
        r < u64::MAX ==> v < (r as int + 1) * (r as int + 1),
{
    let cap: u128 = (u64::MAX as u128) * (u64::MAX as u128);
    if cap <= v {
        return u64::MAX;
    }
    let mut lo: u64 = 0;
    let mut hi: u64 = u64::MAX;
    while hi - lo > 1
        invariant
            0 <= lo < hi <= u64::MAX,
            (lo as int) * (lo as int) <= v,
            v < (hi as int) * (hi as int),
        decreases hi - lo,
    {
        let mid: u64 = lo + (hi - lo) / 2;
        proof {
            lemma_square_mono(mid as int, u64::MAX as int);
            lemma_mul_nonnegative(mid as int, mid as int);
        }
        let square: u128 = (mid as u128) * (mid as u128);
        if square <= v {
            lo = mid;
        } else {
            hi = mid;
        }
    }
    lo
}

/// Greatest common divisor by Euclid's rule; used to reduce the rational
/// exponent of an annualization before taking fixed-point powers.
pub open spec fn gcd(a: nat, b: nat) -> nat
    decreases b,
{
    if b == 0 {
        a
    } else {
        gcd(b, a % b)
    }
}

pub proof fn lemma_gcd_bounds(a: nat, b: nat)
    requires
        a >= 1,
    ensures
        1 <= gcd(a, b),
        b >= 1 ==> gcd(a, b) <= b,
    decreases b,
{
    if b == 0 {
    } else {
        lemma_gcd_bounds(b, a % b);
        if a % b == 0 {
            assert(gcd(b, 0) == b);
        }
    }
}

pub(crate) fn gcd_exec(a: u64, b: u64) -> (r: u64)
    requires
        a >= 1,
    ensures
        r == gcd(a as nat, b as nat),
{
    let mut x: u64 = a;
    let mut y: u64 = b;
    while y != 0
        invariant
            gcd(x as nat, y as nat) == gcd(a as nat, b as nat),
            x >= 1,
        decreases y,
    {
        let t: u64 = x % y;
        x = y;
        y = t;
    }
    x
}

} // verus!
