//! Saturating fixed-point scalars.
//!
//! Every quantity of the simulation (coordinates, velocities, masses,
//! strengths) is an `i64` counting millionths of a unit. Sums, products and
//! quotients are computed exactly over the integers, rounded toward zero, and
//! then clamped to the `i64` range, so no operation can overflow or panic.
//! Where a result is made of several products, they are put together exactly
//! in wide integers and rounded once.

use vstd::prelude::*;
use vstd::arithmetic::div_mod::{
    lemma_div_denominator, lemma_fundamental_div_mod, lemma_hoist_over_denominator,
};

verus! {

/// Number of raw steps in one unit: the raw value `1_000_000` stands for `1.0`.
pub const SCALE: i64 = 1_000_000;

/// The integer `v` clamped to the range of `i64`.
pub open spec fn clamp(v: int) -> int {
    if v < i64::MIN as int {
        i64::MIN as int
    } else if v > i64::MAX as int {
        i64::MAX as int
    } else {
        v
    }
}

/// The raw scalar nearest to `v`.
pub open spec fn sat(v: int) -> i64 {
    clamp(v) as i64
}

/// The size of `v` without its sign.
pub open spec fn magnitude(v: int) -> int {
    if v < 0 {
        -v
    } else {
        v
    }
}

/// Integer quotient rounded toward zero; `0` when `b` is `0`.
pub open spec fn trunc_div(a: int, b: int) -> int {
    if b == 0 {
        0
    } else if (a < 0) == (b < 0) {
        magnitude(a) / magnitude(b)
    } else {
        -(magnitude(a) / magnitude(b))
    }
}

/// `a + b`, clamped.
pub open spec fn sum(a: i64, b: i64) -> i64 {
    sat(a + b)
}

/// `a - b`, clamped.
pub open spec fn difference(a: i64, b: i64) -> i64 {
    sat(a - b)
}

/// `-a`, clamped (only `i64::MIN` is affected).
pub open spec fn negation(a: i64) -> i64 {
    sat(-a)
}

/// The fixed-point product `a * b / SCALE`, rounded toward zero and clamped.
pub open spec fn product(a: i64, b: i64) -> i64 {
    sat(trunc_div(a * b, SCALE as int))
}

/// The fixed-point quotient `a * SCALE / b`, rounded toward zero and clamped.
pub open spec fn quotient(a: i64, b: i64) -> i64 {
    sat(trunc_div(a * SCALE, b as int))
}

/// The scalar that stands for the whole number `n`.
pub open spec fn whole(n: int) -> i64 {
    sat(n * SCALE)
}

/// The whole part of `a`, rounded toward zero.
pub open spec fn whole_part(a: i64) -> int {
    trunc_div(a as int, SCALE as int)
}

/// Whether `r` is the square root of `n` rounded down.
pub open spec fn is_root(n: int, r: int) -> bool {
    0 <= r && r * r <= n && n < (r + 1) * (r + 1)
}

/// The square root of `n` rounded down (meaningful for `n >= 0`).
pub open spec fn root(n: int) -> int {
    choose|r: int| is_root(n, r)
}

/// Clamps a wide integer into `i64`.
pub fn narrow(v: i128) -> (r: i64)
    ensures
        r == sat(v as int),
{
    if v < i64::MIN as i128 {
        i64::MIN
    } else if v > i64::MAX as i128 {
        i64::MAX
    } else {
        v as i64
    }
}

/// Saturating addition.
pub fn plus(a: i64, b: i64) -> (r: i64)
    ensures
        r == sum(a, b),
{
    narrow(a as i128 + b as i128)
}

/// Saturating subtraction.
pub fn minus(a: i64, b: i64) -> (r: i64)
    ensures
        r == difference(a, b),
{
    narrow(a as i128 - b as i128)
}

/// Saturating negation.
pub fn negate(a: i64) -> (r: i64)
    ensures
        r == negation(a),
{
    narrow(-(a as i128))
}

/// The magnitude of `a` as an unsigned wide integer.
pub fn wide_magnitude(a: i64) -> (r: u128)
    ensures
        r == magnitude(a as int),
        r <= 0x8000_0000_0000_0000,
{
    if a < 0 {
        (-(a as i128)) as u128
    } else {
        a as u128
    }
}

/// The exact square of a raw component.
pub fn wide_square(a: i64) -> (r: u128)
    ensures
        r == a * a,
        r <= 0x4000_0000_0000_0000_0000_0000_0000_0000,
{
    let m: u128 = if a < 0 {
        (-(a as i128)) as u128
    } else {
        a as u128
    };
    assert(m * m == a * a && m * m <= 0x8000_0000_0000_0000 * 0x8000_0000_0000_0000)
        by (nonlinear_arith)
        requires
            m == if a < 0 { -a } else { a as int },
            m <= 0x8000_0000_0000_0000,
    ;
    m * m
}

/// Gives the magnitude `q` the sign `negative` and clamps it into `i64`.
pub fn with_sign(q: u128, negative: bool) -> (r: i64)
    ensures
        r == sat(if negative { -(q as int) } else { q as int }),
{
    if negative {
        if q >= 0x8000_0000_0000_0000 {
            i64::MIN
        } else {
            -(q as i64)
        }
    } else {
        if q > i64::MAX as u128 {
            i64::MAX
        } else {
            q as i64
        }
    }
}

/// Adds the exact product `a * b` to a sum, or takes it away from the sum
/// where `subtract` is set. The sum is kept as two running totals, of what
/// counts for it and of what counts against it, so that it cannot overflow.
pub(crate) fn gather(plus: u128, minus: u128, a: i64, b: i64, subtract: bool) -> (r: (u128, u128))
    requires
        plus <= 0x8000_0000_0000_0000_0000_0000_0000_0000,
        minus <= 0x8000_0000_0000_0000_0000_0000_0000_0000,
    ensures
        r.0 - r.1 == plus - minus + (if subtract { -(a * b) } else { a * b }),
        r.0 <= plus + 0x4000_0000_0000_0000_0000_0000_0000_0000,
        r.1 <= minus + 0x4000_0000_0000_0000_0000_0000_0000_0000,
{
    let ma: u128 = wide_magnitude(a);
    let mb: u128 = wide_magnitude(b);
    proof {
        lemma_product_sign(a as int, b as int);
        assert(ma * mb <= 0x8000_0000_0000_0000 * 0x8000_0000_0000_0000) by (nonlinear_arith)
            requires
                ma <= 0x8000_0000_0000_0000,
                mb <= 0x8000_0000_0000_0000,
        ;
    }
    let size: u128 = ma * mb;
    let against: bool = ((a < 0) != (b < 0)) != subtract;
    if against {
        (plus, minus + size)
    } else {
        (plus + size, minus)
    }
}

/// The sum kept as the two running totals `plus` and `minus`, as a scalar:
/// divided by the scale, rounded toward zero once and clamped.
pub(crate) fn settle(plus: u128, minus: u128) -> (r: i64)
    ensures
        r == sat(trunc_div(plus - minus, SCALE as int)),
{
    if plus >= minus {
        with_sign((plus - minus) / (SCALE as u128), false)
    } else {
        with_sign((minus - plus) / (SCALE as u128), true)
    }
}

/// The product `p * m` divided by `d1 * d2` and rounded down once, for a
/// product that is too wide to be formed: `p` is divided by `d1` with
/// remainder first, and what both parts give is put together exactly.
pub(crate) fn wide_ratio(p: u128, m: u128, d1: u128, d2: u128) -> (r: u128)
    requires
        d1 >= 1,
        d2 >= 1,
        (p / d1 + 1) * m <= u128::MAX,
        (d1 - 1) * m <= u128::MAX,
    ensures
        r == (p * m) / (d1 * d2),
{
    let q1: u128 = p / d1;
    let r1: u128 = p % d1;
    proof {
        assert(q1 * m + m == (q1 + 1) * m && r1 * m <= (d1 - 1) * m && (r1 * m) / (d1 as int) <= m)
            by (nonlinear_arith)
            requires
                r1 < d1,
                0 <= m,
        ;
        lemma_fundamental_div_mod(p as int, d1 as int);
        assert(p * m == r1 * m + (q1 * m) * d1) by (nonlinear_arith)
            requires
                p == d1 * q1 + r1,
        ;
        lemma_hoist_over_denominator(r1 * m, q1 * m, d1 as nat);
        assert(p * m >= 0) by (nonlinear_arith);
        lemma_div_denominator(p * m, d1 as int, d2 as int);
    }
    let t: u128 = q1 * m + (r1 * m) / d1;
    t / d2
}

/// Fixed-point multiplication.
pub fn times(a: i64, b: i64) -> (r: i64)
    ensures
        r == product(a, b),
{
    let ma: u128 = wide_magnitude(a);
    let mb: u128 = wide_magnitude(b);
    proof {
        lemma_product_sign(a as int, b as int);
        assert(ma * mb <= 0x8000_0000_0000_0000 * 0x8000_0000_0000_0000) by (nonlinear_arith)
            requires
                ma <= 0x8000_0000_0000_0000,
                mb <= 0x8000_0000_0000_0000,
        ;
    }
    let q: u128 = ma * mb / (SCALE as u128);
    with_sign(q, (a < 0) != (b < 0))
}

/// Fixed-point division by a scalar other than zero.
pub fn over(a: i64, b: i64) -> (r: i64)
    requires
        b != 0,
    ensures
        r == quotient(a, b),
{
    let ma: u128 = wide_magnitude(a);
    let mb: u128 = wide_magnitude(b);
    proof {
        lemma_product_sign(a as int, SCALE as int);
    }
    let q: u128 = ma * (SCALE as u128) / mb;
    with_sign(q, (a < 0) != (b < 0))
}

/// The scalar for a whole number of units.
pub fn from_int(n: i64) -> (r: i64)
    ensures
        r == whole(n as int),
{
    let step: i128 = SCALE as i128;
    assert(step == 1_000_000);
    narrow(n as i128 * step)
}

/// The whole part of a scalar.
pub fn to_int(a: i64) -> (r: i64)
    ensures
        r == whole_part(a),
{
    a / SCALE
}

/// Calls `num::integer::sqrt` on a `u128`. The crate documents the result
/// `r` as the truncated principal square root, which satisfies
/// `r * r <= n < (r + 1) * (r + 1)`; an unsigned argument never makes it
/// panic.
#[verifier::external_body]
fn floor_sqrt(n: u128) -> (r: u128)
    ensures
        is_root(n as int, r as int),
{
    num::integer::sqrt(n)
}

/// Integer square root, rounded down.
pub fn isqrt(n: u128) -> (r: u128)
    ensures
        r == root(n as int),
        is_root(n as int, r as int),
{
    let r: u128 = floor_sqrt(n);
    proof {
        lemma_root_unique(n as int, r as int, root(n as int));
    }
    r
}

/// The sign rule of multiplication: the product's magnitude is the product
/// of the magnitudes, and it is negative only if the signs differ.
pub proof fn lemma_product_sign(a: int, b: int)
    ensures
        magnitude(a * b) == magnitude(a) * magnitude(b),
        a * b < 0 ==> (a < 0) != (b < 0),
        (a < 0) != (b < 0) ==> a * b <= 0,
{
    assert(magnitude(a * b) == magnitude(a) * magnitude(b)) by (nonlinear_arith);
    assert(a * b < 0 ==> (a < 0) != (b < 0)) by (nonlinear_arith);
    assert((a < 0) != (b < 0) ==> a * b <= 0) by (nonlinear_arith);
}

/// A quotient rounded toward zero is less than one step away from the exact
/// quotient, and it is the exact quotient where there is one.
pub proof fn lemma_rounded_once(a: int, d: int)
    requires
        d > 0,
    ensures
        magnitude(a - trunc_div(a, d) * d) < d,
        forall|t: int| a == #[trigger] (t * d) ==> trunc_div(a, d) == t,
{
    let m = magnitude(a);
    lemma_fundamental_div_mod(m, d);
    assert(0 <= m % d < d);
    let q = m / d;
    assert(q * d == d * q && (-q) * d == -(d * q)) by (nonlinear_arith);
    assert(magnitude(d) == d);
    assert(trunc_div(a, d) == if a < 0 { -q } else { q });
    assert forall|t: int| a == #[trigger] (t * d) implies trunc_div(a, d) == t by {
        let s = magnitude(t);
        assert(m == s * d) by (nonlinear_arith)
            requires
                a == t * d,
                d > 0,
                m == if a < 0 { -a } else { a },
                s == if t < 0 { -t } else { t },
        ;
        assert((s * d) / d == s) by (nonlinear_arith)
            requires
                d > 0,
                s >= 0,
        ;
        assert(a < 0 <==> t < 0) by (nonlinear_arith)
            requires
                a == t * d,
                d > 0,
        ;
    }
}

/// One is the unit of the product, dividing by one changes nothing, and
/// neither does adding or subtracting zero.
pub proof fn lemma_unit(a: i64)
    ensures
        product(a, SCALE) == a,
        product(SCALE, a) == a,
        quotient(a, SCALE) == a,
        sum(a, 0) == a,
        difference(a, 0) == a,
{
    assert(SCALE * a == a * SCALE) by (nonlinear_arith);
    lemma_product_sign(a as int, SCALE as int);
    assert(magnitude(a * SCALE) == magnitude(a as int) * 1_000_000);
}

/// A product with a whole number is the exact multiple, clamped.
pub proof fn lemma_whole_multiple(a: i64, n: int)
    requires
        -9_000_000_000_000 <= n <= 9_000_000_000_000,
    ensures
        product(a, whole(n)) == sat(a * n),
{
    let w = whole(n);
    assert(w == n * 1_000_000);
    assert(a * w == (a * n) * 1_000_000) by (nonlinear_arith)
        requires
            w == n * 1_000_000,
    ;
    lemma_product_sign(a * n, SCALE as int);
    assert(magnitude((a * n) * SCALE) == magnitude(a * n) * 1_000_000);
}

/// A quotient by a whole number is the exact part, rounded toward zero:
/// dividing by ten, for one, gives a tenth.
pub proof fn lemma_whole_part_of(a: i64, n: int)
    requires
        1 <= n <= 9_000_000_000_000,
    ensures
        quotient(a, whole(n)) == trunc_div(a as int, n),
{
    let w = whole(n);
    assert(w == n * 1_000_000);
    lemma_product_sign(a as int, SCALE as int);
    let m = magnitude(a as int);
    assert(magnitude(a * SCALE) == m * 1_000_000);
    assert((m * 1_000_000) / (n * 1_000_000) == m / n) by (nonlinear_arith)
        requires
            m >= 0,
            n >= 1,
    ;
    assert(m / n <= m) by (nonlinear_arith)
        requires
            m >= 0,
            n >= 1,
    ;
    assert(m / n >= 0) by (nonlinear_arith)
        requires
            m >= 0,
            n >= 1,
    ;
}

/// At most one integer is the rounded-down square root of `n`.
pub proof fn lemma_root_unique(n: int, r1: int, r2: int)
    requires
        is_root(n, r1),
        is_root(n, r2),
    ensures
        r1 == r2,
{
    assert(r1 < r2 ==> (r1 + 1) * (r1 + 1) <= r2 * r2) by (nonlinear_arith)
        requires
            0 <= r1,
            0 <= r2,
    ;
    assert(r2 < r1 ==> (r2 + 1) * (r2 + 1) <= r1 * r1) by (nonlinear_arith)
        requires
            0 <= r1,
            0 <= r2,
    ;
}

/// Every natural number has a square root rounded down.
pub proof fn lemma_root_exists(n: int)
    requires
        n >= 0,
    ensures
        is_root(n, root(n)),
    decreases n,
{
    if n == 0 {
        assert(is_root(0, 0));
    } else {
        lemma_root_exists(n - 1);
        let r = root(n - 1);
        if (r + 1) * (r + 1) <= n {
            assert((r + 2) * (r + 2) > (r + 1) * (r + 1)) by (nonlinear_arith)
                requires
                    r >= 0,
            ;
            assert(is_root(n, r + 1));
        } else {
            assert(is_root(n, r));
        }
    }
}

} // verus!
