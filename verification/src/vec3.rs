//! Three-component vectors over fixed-point scalars.

use vstd::prelude::*;
use crate::scalar::{
    difference, is_root, isqrt, lemma_product_sign, lemma_root_exists, magnitude, minus, negate,
    negation, over, plus, product, quotient, root, sat, settle, sum, times, trunc_div,
    wide_magnitude, wide_square, with_sign, gather, SCALE,
};

verus! {

/// A displacement, velocity or force in space.
#[derive(Debug, Clone, Copy, PartialEq, Eq, Structural)]
pub struct Vec3 {
    pub x: i64,
    pub y: i64,
    pub z: i64,
}

/// Why a vector operation has no result.
#[derive(Debug, Clone, Copy, PartialEq, Eq, Structural)]
pub enum VecError {
    /// A component other than 0, 1 or 2 was asked for.
    InvalidIndex,
    /// A vector of length zero has no direction.
    ZeroLength,
}

/// The component `x`, magnified by `k`, of a vector of magnified length
/// `len`, once the vector is given the length `amount`: the exact product
/// divided by the length and rounded toward zero once.
pub open spec fn sized_part(x: i64, k: int, len: int, amount: i64) -> i64 {
    sat(trunc_div(x * k * amount, len))
}

/// The exact sum of the squares of three raw components.
pub open spec fn square_sum(x: i64, y: i64, z: i64) -> int {
    x * x + y * y + z * z
}

impl Vec3 {
    /// The vector with all components zero.
    pub open spec fn zero() -> Vec3 {
        Vec3 { x: 0, y: 0, z: 0 }
    }

    /// Componentwise sum.
    pub open spec fn sum(self, rhs: Vec3) -> Vec3 {
        Vec3 { x: sum(self.x, rhs.x), y: sum(self.y, rhs.y), z: sum(self.z, rhs.z) }
    }

    /// Componentwise difference.
    pub open spec fn difference(self, rhs: Vec3) -> Vec3 {
        Vec3 {
            x: difference(self.x, rhs.x),
            y: difference(self.y, rhs.y),
            z: difference(self.z, rhs.z),
        }
    }

    /// Componentwise product.
    pub open spec fn product(self, rhs: Vec3) -> Vec3 {
        Vec3 { x: product(self.x, rhs.x), y: product(self.y, rhs.y), z: product(self.z, rhs.z) }
    }

    /// Componentwise quotient.
    pub open spec fn quotient(self, rhs: Vec3) -> Vec3 {
        Vec3 {
            x: quotient(self.x, rhs.x),
            y: quotient(self.y, rhs.y),
            z: quotient(self.z, rhs.z),
        }
    }

    /// Every component multiplied by the scalar `t`.
    pub open spec fn scaled(self, t: i64) -> Vec3 {
        Vec3 { x: product(self.x, t), y: product(self.y, t), z: product(self.z, t) }
    }

    /// Every component divided by the scalar `t`.
    pub open spec fn shrunk(self, t: i64) -> Vec3 {
        Vec3 { x: quotient(self.x, t), y: quotient(self.y, t), z: quotient(self.z, t) }
    }

    /// Every component negated.
    pub open spec fn negation(self) -> Vec3 {
        Vec3 { x: negation(self.x), y: negation(self.y), z: negation(self.z) }
    }

    /// The squared length, as a scalar: the exact sum of squares, rounded
    /// toward zero once.
    pub open spec fn norm_squared(self) -> i64 {
        sat(trunc_div(square_sum(self.x, self.y, self.z), SCALE as int))
    }

    /// The length: the square root of the exact sum of squares, rounded down
    /// to a raw step and clamped.
    pub open spec fn norm(self) -> i64 {
        sat(root(square_sum(self.x, self.y, self.z)))
    }

    /// The factor by which a vector is magnified before its direction is
    /// taken: one for a vector at least one unit long, and a million for a
    /// shorter one, so that the rounding of the length cannot show.
    pub open spec fn magnifier(self) -> int {
        if root(square_sum(self.x, self.y, self.z)) >= SCALE {
            1
        } else {
            SCALE as int
        }
    }

    /// The length of the magnified vector: the square root of its exact sum
    /// of squares, rounded down and not clamped.
    pub open spec fn fine_norm(self) -> int {
        root(square_sum(self.x, self.y, self.z) * self.magnifier() * self.magnifier())
    }

    /// The vector of the same direction and of length `amount`, or of the
    /// opposite direction where `amount` is negative: every component of the
    /// magnified vector times `amount`, divided by the magnified length.
    pub open spec fn stretched(self, amount: i64) -> Vec3 {
        Vec3 {
            x: sized_part(self.x, self.magnifier(), self.fine_norm(), amount),
            y: sized_part(self.y, self.magnifier(), self.fine_norm(), amount),
            z: sized_part(self.z, self.magnifier(), self.fine_norm(), amount),
        }
    }

    /// The vector of length one with the same direction.
    pub open spec fn direction(self) -> Vec3 {
        self.stretched(SCALE)
    }

    /// The component with index `i`.
    pub open spec fn component(self, i: int) -> i64 {
        if i == 0 {
            self.x
        } else if i == 1 {
            self.y
        } else {
            self.z
        }
    }

    pub fn new(x: i64, y: i64, z: i64) -> (v: Vec3)
        ensures
            v == (Vec3 { x, y, z }),
    {
        Vec3 { x, y, z }
    }

    /// The length of the vector.
    pub fn length(&self) -> (r: i64)
        ensures
            r == self.norm(),
            r >= 0,
            (r == 0) == (*self == Vec3::zero()),
    {
        let n: u128 = wide_square(self.x) + wide_square(self.y) + wide_square(self.z);
        let r: u128 = isqrt(n);
        proof {
            lemma_zero_root(self.x, self.y, self.z, r as int);
        }
        if r > i64::MAX as u128 {
            i64::MAX
        } else {
            r as i64
        }
    }

    /// Rescales the vector to length one and returns the new value. A vector
    /// of length zero has no direction: it is left as it is and the call
    /// fails.
    pub fn make_unit(&mut self) -> (r: Result<Vec3, VecError>)
        ensures
            *old(self) == Vec3::zero() ==> r == Err::<Vec3, VecError>(VecError::ZeroLength)
                && *final(self) == *old(self),
            *old(self) != Vec3::zero() ==> r == Ok::<Vec3, VecError>(old(self).direction())
                && *final(self) == old(self).direction(),
    {
        match self.with_length(SCALE) {
            Ok(unit) => {
                self.x = unit.x;
                self.y = unit.y;
                self.z = unit.z;
                Ok(unit)
            },
            Err(e) => Err(e),
        }
    }

    /// The vector of the same direction whose length is `amount`, to within
    /// the rounding of its components; of the opposite direction where
    /// `amount` is negative. The zero vector has no direction, and the call
    /// fails for it.
    pub fn with_length(&self, amount: i64) -> (r: Result<Vec3, VecError>)
        ensures
            *self == Vec3::zero() ==> r == Err::<Vec3, VecError>(VecError::ZeroLength),
            *self != Vec3::zero() ==> r == Ok::<Vec3, VecError>(self.stretched(amount)),
    {
        let total: u128 = wide_square(self.x) + wide_square(self.y) + wide_square(self.z);
        let coarse: u128 = isqrt(total);
        proof {
            lemma_zero_root(self.x, self.y, self.z, coarse as int);
        }
        if coarse == 0 {
            return Err(VecError::ZeroLength);
        }
        let magnifier: u128 = if coarse >= 1_000_000 {
            1
        } else {
            1_000_000
        };
        let len: u128 = if coarse >= 1_000_000 {
            coarse
        } else {
            assert(total < 1_000_000 * 1_000_000) by (nonlinear_arith)
                requires
                    total < (coarse + 1) * (coarse + 1),
                    coarse < 1_000_000,
            ;
            isqrt(total * 1_000_000_000_000)
        };
        proof {
            let exact = square_sum(self.x, self.y, self.z);
            assert(exact * magnifier * magnifier == if coarse >= 1_000_000 {
                exact
            } else {
                exact * 1_000_000_000_000
            }) by (nonlinear_arith)
                requires
                    magnifier == if coarse >= 1_000_000 { 1int } else { 1_000_000int },
            ;
            assert(len >= 1) by {
                if coarse < 1_000_000 {
                    assert(len * len <= 0 ==> len == 0) by (nonlinear_arith);
                    assert((len + 1) * (len + 1) > total * 1_000_000_000_000);
                    assert(len == 0 ==> (len + 1) * (len + 1) == 1);
                }
            }
            if coarse < 1_000_000 {
                lemma_short_component(self.x, total as int);
                lemma_short_component(self.y, total as int);
                lemma_short_component(self.z, total as int);
            }
        }
        Ok(
            Vec3::new(
                part_of(self.x, magnifier, len, amount),
                part_of(self.y, magnifier, len, amount),
                part_of(self.z, magnifier, len, amount),
            ),
        )
    }

    /// The squared length of the vector.
    pub fn squared_length(&self) -> (r: i64)
        ensures
            r == self.norm_squared(),
    {
        let total: u128 = wide_square(self.x) + wide_square(self.y) + wide_square(self.z);
        settle(total, 0)
    }

    /// The component with index 0, 1 or 2; any other index is an error.
    pub fn index(&self, index: i32) -> (r: Result<i64, VecError>)
        ensures
            0 <= index <= 2 ==> r == Ok::<i64, VecError>(self.component(index as int)),
            !(0 <= index <= 2) ==> r == Err::<i64, VecError>(VecError::InvalidIndex),
    {
        match index {
            0 => Ok(self.x),
            1 => Ok(self.y),
            2 => Ok(self.z),
            _ => Err(VecError::InvalidIndex),
        }
    }

    /// Componentwise sum.
    pub fn add(self, rhs: Vec3) -> (r: Vec3)
        ensures
            r == self.sum(rhs),
    {
        Vec3::new(plus(self.x, rhs.x), plus(self.y, rhs.y), plus(self.z, rhs.z))
    }

    /// Componentwise difference.
    pub fn sub(self, rhs: Vec3) -> (r: Vec3)
        ensures
            r == self.difference(rhs),
    {
        Vec3::new(minus(self.x, rhs.x), minus(self.y, rhs.y), minus(self.z, rhs.z))
    }

    /// Componentwise product.
    pub fn mul(self, rhs: Vec3) -> (r: Vec3)
        ensures
            r == self.product(rhs),
    {
        Vec3::new(times(self.x, rhs.x), times(self.y, rhs.y), times(self.z, rhs.z))
    }

    /// Componentwise quotient.
    pub fn div(self, rhs: Vec3) -> (r: Vec3)
        requires
            rhs.x != 0,
            rhs.y != 0,
            rhs.z != 0,
        ensures
            r == self.quotient(rhs),
    {
        Vec3::new(over(self.x, rhs.x), over(self.y, rhs.y), over(self.z, rhs.z))
    }

    /// The vector times the scalar `t`.
    pub fn mul_scalar(self, t: i64) -> (r: Vec3)
        ensures
            r == self.scaled(t),
    {
        Vec3::new(times(self.x, t), times(self.y, t), times(self.z, t))
    }

    /// The vector divided by the scalar `t`.
    pub fn div_scalar(self, t: i64) -> (r: Vec3)
        requires
            t != 0,
        ensures
            r == self.shrunk(t),
    {
        Vec3::new(over(self.x, t), over(self.y, t), over(self.z, t))
    }

    /// The opposite vector.
    pub fn neg(self) -> (r: Vec3)
        ensures
            r == self.negation(),
    {
        Vec3::new(negate(self.x), negate(self.y), negate(self.z))
    }

    /// Adds `rhs` in place.
    pub fn add_assign(&mut self, rhs: Vec3)
        ensures
            *final(self) == old(self).sum(rhs),
    {
        self.x = plus(self.x, rhs.x);
        self.y = plus(self.y, rhs.y);
        self.z = plus(self.z, rhs.z);
    }

    /// Subtracts `rhs` in place.
    pub fn sub_assign(&mut self, rhs: Vec3)
        ensures
            *final(self) == old(self).difference(rhs),
    {
        self.x = minus(self.x, rhs.x);
        self.y = minus(self.y, rhs.y);
        self.z = minus(self.z, rhs.z);
    }

    /// Multiplies componentwise by `rhs` in place.
    pub fn mul_assign(&mut self, rhs: Vec3)
        ensures
            *final(self) == old(self).product(rhs),
    {
        self.x = times(self.x, rhs.x);
        self.y = times(self.y, rhs.y);
        self.z = times(self.z, rhs.z);
    }

    /// Divides componentwise by `rhs` in place.
    pub fn div_assign(&mut self, rhs: Vec3)
        requires
            rhs.x != 0,
            rhs.y != 0,
            rhs.z != 0,
        ensures
            *final(self) == old(self).quotient(rhs),
    {
        self.x = over(self.x, rhs.x);
        self.y = over(self.y, rhs.y);
        self.z = over(self.z, rhs.z);
    }

    /// Multiplies by the scalar `t` in place.
    pub fn mul_scalar_assign(&mut self, t: i64)
        ensures
            *final(self) == old(self).scaled(t),
    {
        self.x = times(self.x, t);
        self.y = times(self.y, t);
        self.z = times(self.z, t);
    }

    /// Divides by the scalar `t` in place.
    pub fn div_scalar_assign(&mut self, t: i64)
        requires
            t != 0,
        ensures
            *final(self) == old(self).shrunk(t),
    {
        self.x = over(self.x, t);
        self.y = over(self.y, t);
        self.z = over(self.z, t);
    }
}

/// `a + b` is the componentwise sum.
impl core::ops::Add for Vec3 {
    type Output = Vec3;

    fn add(self, rhs: Vec3) -> (r: Vec3) {
        Vec3::add(self, rhs)
    }
}

impl vstd::std_specs::ops::AddSpecImpl for Vec3 {
    open spec fn obeys_add_spec() -> bool {
        true
    }

    open spec fn add_req(self, rhs: Vec3) -> bool {
        true
    }

    open spec fn add_spec(self, rhs: Vec3) -> Vec3 {
        self.sum(rhs)
    }
}

/// `a - b` is the componentwise difference.
impl core::ops::Sub for Vec3 {
    type Output = Vec3;

    fn sub(self, rhs: Vec3) -> (r: Vec3) {
        Vec3::sub(self, rhs)
    }
}

impl vstd::std_specs::ops::SubSpecImpl for Vec3 {
    open spec fn obeys_sub_spec() -> bool {
        true
    }

    open spec fn sub_req(self, rhs: Vec3) -> bool {
        true
    }

    open spec fn sub_spec(self, rhs: Vec3) -> Vec3 {
        self.difference(rhs)
    }
}

/// `a * b` is the componentwise product.
impl core::ops::Mul for Vec3 {
    type Output = Vec3;

    fn mul(self, rhs: Vec3) -> (r: Vec3) {
        Vec3::mul(self, rhs)
    }
}

impl vstd::std_specs::ops::MulSpecImpl for Vec3 {
    open spec fn obeys_mul_spec() -> bool {
        true
    }

    open spec fn mul_req(self, rhs: Vec3) -> bool {
        true
    }

    open spec fn mul_spec(self, rhs: Vec3) -> Vec3 {
        self.product(rhs)
    }
}

/// `a / b` is the componentwise quotient; no component of `b` may be zero.
impl core::ops::Div for Vec3 {
    type Output = Vec3;

    fn div(self, rhs: Vec3) -> (r: Vec3) {
        Vec3::div(self, rhs)
    }
}

impl vstd::std_specs::ops::DivSpecImpl for Vec3 {
    open spec fn obeys_div_spec() -> bool {
        true
    }

    open spec fn div_req(self, rhs: Vec3) -> bool {
        rhs.x != 0 && rhs.y != 0 && rhs.z != 0
    }

    open spec fn div_spec(self, rhs: Vec3) -> Vec3 {
        self.quotient(rhs)
    }
}

/// `a * t` multiplies every component by the scalar `t`.
impl core::ops::Mul<i64> for Vec3 {
    type Output = Vec3;

    fn mul(self, t: i64) -> (r: Vec3) {
        self.mul_scalar(t)
    }
}

impl vstd::std_specs::ops::MulSpecImpl<i64> for Vec3 {
    open spec fn obeys_mul_spec() -> bool {
        true
    }

    open spec fn mul_req(self, t: i64) -> bool {
        true
    }

    open spec fn mul_spec(self, t: i64) -> Vec3 {
        self.scaled(t)
    }
}

/// `a / t` divides every component by the scalar `t`, which may not be zero.
impl core::ops::Div<i64> for Vec3 {
    type Output = Vec3;

    fn div(self, t: i64) -> (r: Vec3) {
        self.div_scalar(t)
    }
}

impl vstd::std_specs::ops::DivSpecImpl<i64> for Vec3 {
    open spec fn obeys_div_spec() -> bool {
        true
    }

    open spec fn div_req(self, t: i64) -> bool {
        t != 0
    }

    open spec fn div_spec(self, t: i64) -> Vec3 {
        self.shrunk(t)
    }
}

/// `t * a` is `a * t`.
impl core::ops::Mul<Vec3> for i64 {
    type Output = Vec3;

    fn mul(self, v: Vec3) -> (r: Vec3) {
        scale(self, v)
    }
}

impl vstd::std_specs::ops::MulSpecImpl<Vec3> for i64 {
    open spec fn obeys_mul_spec() -> bool {
        true
    }

    open spec fn mul_req(self, v: Vec3) -> bool {
        true
    }

    open spec fn mul_spec(self, v: Vec3) -> Vec3 {
        v.scaled(self)
    }
}

/// `-a` negates every component.
impl core::ops::Neg for Vec3 {
    type Output = Vec3;

    fn neg(self) -> (r: Vec3) {
        Vec3::neg(self)
    }
}

impl vstd::std_specs::ops::NegSpecImpl for Vec3 {
    open spec fn obeys_neg_spec() -> bool {
        true
    }

    open spec fn neg_req(self) -> bool {
        true
    }

    open spec fn neg_spec(self) -> Vec3 {
        self.negation()
    }
}

impl Default for Vec3 {
    fn default() -> (v: Vec3)
        ensures
            v == Vec3::zero(),
    {
        Vec3 { x: 0, y: 0, z: 0 }
    }
}

/// The difference of two products, `a * b - c * d`, as a scalar: formed
/// exactly and rounded toward zero once.
pub open spec fn balance(a: i64, b: i64, c: i64, d: i64) -> i64 {
    sat(trunc_div(a * b - c * d, SCALE as int))
}

/// The cross product of `v1` and `v2`.
pub open spec fn cross_product(v1: Vec3, v2: Vec3) -> Vec3 {
    Vec3 {
        x: balance(v1.y, v2.z, v1.z, v2.y),
        y: balance(v1.z, v2.x, v1.x, v2.z),
        z: balance(v1.x, v2.y, v1.y, v2.x),
    }
}

/// The dot product of `v1` and `v2`: the exact sum of the three products,
/// rounded toward zero once.
pub open spec fn dot_product(v1: Vec3, v2: Vec3) -> i64 {
    sat(trunc_div(v1.x * v2.x + v1.y * v2.y + v1.z * v2.z, SCALE as int))
}

/// The cross product of two vectors.
pub fn cross(v1: &Vec3, v2: &Vec3) -> (r: Vec3)
    ensures
        r == cross_product(*v1, *v2),
{
    Vec3::new(
        balance_of(v1.y, v2.z, v1.z, v2.y),
        balance_of(v1.z, v2.x, v1.x, v2.z),
        balance_of(v1.x, v2.y, v1.y, v2.x),
    )
}

/// The difference of two products, `a * b - c * d`, as a scalar.
fn balance_of(a: i64, b: i64, c: i64, d: i64) -> (r: i64)
    ensures
        r == balance(a, b, c, d),
{
    let first: (u128, u128) = gather(0, 0, a, b, false);
    let both: (u128, u128) = gather(first.0, first.1, c, d, true);
    settle(both.0, both.1)
}

/// The dot product of two vectors.
pub fn dot(v1: &Vec3, v2: &Vec3) -> (r: i64)
    ensures
        r == dot_product(*v1, *v2),
{
    let one: (u128, u128) = gather(0, 0, v1.x, v2.x, false);
    let two: (u128, u128) = gather(one.0, one.1, v1.y, v2.y, false);
    let all: (u128, u128) = gather(two.0, two.1, v1.z, v2.z, false);
    settle(all.0, all.1)
}

/// The vector of length one in the direction of `v`; an error for the zero
/// vector.
pub fn unit_vector(v: Vec3) -> (r: Result<Vec3, VecError>)
    ensures
        v == Vec3::zero() ==> r == Err::<Vec3, VecError>(VecError::ZeroLength),
        v != Vec3::zero() ==> r == Ok::<Vec3, VecError>(v.direction()),
{
    let mut tmp: Vec3 = v;
    tmp.make_unit()
}

/// The scalar `t` times the vector `v`.
pub fn scale(t: i64, v: Vec3) -> (r: Vec3)
    ensures
        r == v.scaled(t),
{
    Vec3::new(times(v.x, t), times(v.y, t), times(v.z, t))
}

/// The component `x`, magnified by `k`, of a vector of magnified length
/// `len` that is given the length `amount`.
fn part_of(x: i64, k: u128, len: u128, amount: i64) -> (r: i64)
    requires
        1 <= k <= 1_000_000,
        len >= 1,
        magnitude(x as int) * k <= 0x8000_0000_0000_0000,
    ensures
        r == sized_part(x, k as int, len as int, amount),
{
    let m: u128 = wide_magnitude(x) * k;
    let size: u128 = wide_magnitude(amount);
    proof {
        lemma_product_sign(x as int, k as int);
        lemma_product_sign(x * k, amount as int);
        assert(m * size <= 0x8000_0000_0000_0000 * 0x8000_0000_0000_0000) by (nonlinear_arith)
            requires
                m <= 0x8000_0000_0000_0000,
                size <= 0x8000_0000_0000_0000,
        ;
        assert(magnitude(x * k * amount) == m * size);
        assert(magnitude(len as int) == len);
        assert(x * k < 0 ==> x < 0);
        assert(x < 0 ==> x * k <= 0);
    }
    let q: u128 = m * size / len;
    with_sign(q, (x < 0) != (amount < 0))
}

/// A component of a vector is no longer than the vector: where the sum of
/// squares is below a million squared, so is every component.
proof fn lemma_short_component(x: i64, total: int)
    requires
        x * x <= total,
        total < 1_000_000 * 1_000_000,
    ensures
        magnitude(x as int) * 1_000_000 <= 0x8000_0000_0000_0000,
{
    let m = magnitude(x as int);
    assert(m * m == x * x) by (nonlinear_arith)
        requires
            m == if x < 0 { -x } else { x as int },
    ;
    assert(m < 1_000_000) by (nonlinear_arith)
        requires
            m * m <= total,
            total < 1_000_000 * 1_000_000,
            m >= 0,
    ;
}

/// A sum of squares has root zero only if every term is zero.
proof fn lemma_zero_root(x: i64, y: i64, z: i64, r: int)
    requires
        is_root(square_sum(x, y, z), r),
    ensures
        (r == 0) == (x == 0 && y == 0 && z == 0),
        r >= 0,
{
    assert(x * x >= 0 && (x != 0 ==> x * x >= 1)) by (nonlinear_arith);
    assert(y * y >= 0 && (y != 0 ==> y * y >= 1)) by (nonlinear_arith);
    assert(z * z >= 0 && (z != 0 ==> z * z >= 1)) by (nonlinear_arith);
    assert(r >= 1 ==> r * r >= 1) by (nonlinear_arith);
    assert(r == 0 ==> (r + 1) * (r + 1) == 1) by (nonlinear_arith);
}

/// Of two natural numbers the larger has the larger square.
proof fn lemma_square_order(p: int, q: int)
    requires
        0 <= p,
        0 <= q,
    ensures
        p <= q ==> p * p <= q * q,
        p < q ==> p * p < q * q,
        p * p < q * q ==> p < q,
        p * p <= q * q ==> p <= q,
{
    assert(p <= q ==> p * p <= q * q) by (nonlinear_arith)
        requires
            0 <= p,
            0 <= q,
    ;
    assert(p < q ==> p * p < q * q) by (nonlinear_arith)
        requires
            0 <= p,
            0 <= q,
    ;
    assert(q <= p ==> q * q <= p * p) by (nonlinear_arith)
        requires
            0 <= p,
            0 <= q,
    ;
    assert(q < p ==> q * q < p * p) by (nonlinear_arith)
        requires
            0 <= p,
            0 <= q,
    ;
}

/// The square of a product is the product of the squares.
proof fn lemma_square_of_product(p: int, q: int)
    ensures
        (p * q) * (p * q) == (p * p) * (q * q),
{
    assert((p * q) * (p * q) == (p * p) * (q * q)) by (nonlinear_arith);
}

/// Products distribute over a sum of three terms.
proof fn lemma_distribute(p: int, q: int, r: int, k: int)
    ensures
        (p + q + r) * k == p * k + q * k + r * k,
{
    assert((p + q + r) * k == p * k + q * k + r * k) by (nonlinear_arith);
}

/// One component `x` of a magnified vector of length `len`, as a part of
/// that length: the part `u` lies between minus one and one, has the sign
/// of `x` or is zero, and its size `m` brackets the exact quotient.
proof fn lemma_unit_component(x: int, len: int) -> (m: int)
    requires
        len >= 1,
        x * x < (len + 1) * (len + 1),
    ensures
        0 <= m <= 1_000_000,
        trunc_div(x * SCALE, len) == (if x < 0 { -m } else { m }),
        (m * len) * (m * len) <= (x * x) * (1_000_000 * 1_000_000),
        (x * x) * (1_000_000 * 1_000_000) < ((m + 1) * len) * ((m + 1) * len),
{
    let a = magnitude(x);
    assert(a * a == x * x) by (nonlinear_arith)
        requires
            a == if x < 0 { -x } else { x },
    ;
    lemma_square_order(a, len + 1);
    assert(a <= len);
    lemma_product_sign(x, SCALE as int);
    let n = a * 1_000_000;
    assert(magnitude(x * SCALE) == n);
    let m = n / len;
    assert(m * len <= n < (m + 1) * len && m >= 0) by (nonlinear_arith)
        requires
            n >= 0,
            len >= 1,
            m == n / len,
    ;
    assert(m <= 1_000_000) by (nonlinear_arith)
        requires
            m * len <= n,
            n == a * 1_000_000,
            0 <= a <= len,
            len >= 1,
            m >= 0,
    ;
    assert(magnitude(len) == len);
    lemma_square_order(m * len, n);
    lemma_square_order(n, (m + 1) * len);
    assert(n * n == (x * x) * (1_000_000 * 1_000_000)) by (nonlinear_arith)
        requires
            n == a * 1_000_000,
            a * a == x * x,
    ;
    m
}

/// Every vector but the zero vector is rescaled to a vector whose length is
/// one to within four raw steps, and whose components have the signs they
/// had or are zero.
pub proof fn lemma_unit_length(v: Vec3)
    requires
        v != Vec3::zero(),
    ensures
        SCALE - 4 <= v.direction().norm() <= SCALE,
        v.x >= 0 ==> v.direction().x >= 0,
        v.x <= 0 ==> v.direction().x <= 0,
        v.y >= 0 ==> v.direction().y >= 0,
        v.y <= 0 ==> v.direction().y <= 0,
        v.z >= 0 ==> v.direction().z >= 0,
        v.z <= 0 ==> v.direction().z <= 0,
{
    let k = v.magnifier();
    let px = v.x * k;
    let py = v.y * k;
    let pz = v.z * k;
    let exact = square_sum(v.x, v.y, v.z);
    assert(v.x * v.x >= 0 && v.y * v.y >= 0 && v.z * v.z >= 0) by (nonlinear_arith);
    assert(exact >= 1) by (nonlinear_arith)
        requires
            exact == v.x * v.x + v.y * v.y + v.z * v.z,
            v.x != 0 || v.y != 0 || v.z != 0,
    ;
    let total = exact * k * k;
    assert(total == px * px + py * py + pz * pz && total >= exact) by (nonlinear_arith)
        requires
            total == exact * k * k,
            exact == v.x * v.x + v.y * v.y + v.z * v.z,
            px == v.x * k,
            py == v.y * k,
            pz == v.z * k,
            k >= 1,
            exact >= 1,
    ;
    assert(px * px >= 0 && py * py >= 0 && pz * pz >= 0) by (nonlinear_arith);
    lemma_root_exists(exact);
    lemma_root_exists(total);
    let len = v.fine_norm();
    assert(len == root(total));
    assert(len >= 1_000_000) by {
        if k == 1 {
            assert(total == exact);
        } else {
            assert(total >= 1_000_000 * 1_000_000) by (nonlinear_arith)
                requires
                    total == exact * k * k,
                    k == 1_000_000,
                    exact >= 1,
            ;
            lemma_square_order(len + 1, 1_000_000);
        }
    }
    let a = lemma_unit_component(px, len);
    let b = lemma_unit_component(py, len);
    let c = lemma_unit_component(pz, len);
    let u = v.direction();
    assert(u.x == if px < 0 { -a } else { a });
    assert(u.y == if py < 0 { -b } else { b });
    assert(u.z == if pz < 0 { -c } else { c });
    assert((v.x >= 0 ==> px >= 0) && (v.x <= 0 ==> px <= 0) && (v.y >= 0 ==> py >= 0) && (v.y
        <= 0 ==> py <= 0) && (v.z >= 0 ==> pz >= 0) && (v.z <= 0 ==> pz <= 0)) by (nonlinear_arith)
        requires
            px == v.x * k,
            py == v.y * k,
            pz == v.z * k,
            k >= 1,
    ;
    let t = square_sum(u.x, u.y, u.z);
    assert(t == a * a + b * b + c * c) by (nonlinear_arith)
        requires
            t == u.x * u.x + u.y * u.y + u.z * u.z,
            u.x == a || u.x == -a,
            u.y == b || u.y == -b,
            u.z == c || u.z == -c,
    ;
    assert(0 <= a * a <= 1_000_000 * 1_000_000 && 0 <= b * b <= 1_000_000 * 1_000_000 && 0 <= c
        * c <= 1_000_000 * 1_000_000) by (nonlinear_arith)
        requires
            0 <= a <= 1_000_000,
            0 <= b <= 1_000_000,
            0 <= c <= 1_000_000,
    ;
    lemma_root_exists(t);
    let n = root(t);
    lemma_square_order(n, 2_000_000);
    assert(n < 2_000_000);
    assert(u.norm() == n);
    let big: int = 1_000_000_000_000;
    let ll: int = len * len;
    assert(ll >= 1) by (nonlinear_arith)
        requires
            len >= 1,
            ll == len * len,
    ;
    // The exact squares lie between the squares of the rounded components.
    lemma_square_of_product(a, len);
    lemma_square_of_product(b, len);
    lemma_square_of_product(c, len);
    lemma_distribute(a * a, b * b, c * c, ll);
    lemma_distribute(px * px, py * py, pz * pz, big);
    let w = (a + 1) * (a + 1) + (b + 1) * (b + 1) + (c + 1) * (c + 1);
    lemma_square_of_product(a + 1, len);
    lemma_square_of_product(b + 1, len);
    lemma_square_of_product(c + 1, len);
    lemma_distribute((a + 1) * (a + 1), (b + 1) * (b + 1), (c + 1) * (c + 1), ll);
    assert(t * ll <= total * big);
    assert(total * big < w * ll);
    // Not longer than one.
    assert((n * len) * (n * len) < ((len + 1) * 1_000_000) * ((len + 1) * 1_000_000))
        by (nonlinear_arith)
        requires
            n * n <= t,
            t * ll <= total * big,
            total < (len + 1) * (len + 1),
            ll == len * len,
            big == 1_000_000 * 1_000_000,
            ll >= 1,
    ;
    assert(n * len >= 0 && (len + 1) * 1_000_000 >= 0) by (nonlinear_arith)
        requires
            n >= 0,
            len >= 1,
    ;
    lemma_square_order(n * len, (len + 1) * 1_000_000);
    assert(n <= 1_000_000) by (nonlinear_arith)
        requires
            n * len < (len + 1) * 1_000_000,
            len >= 1_000_000,
            n >= 0,
    ;
    // Not shorter than one by more than four steps.
    assert(big < w) by (nonlinear_arith)
        requires
            ll <= total,
            total * big < w * ll,
            ll >= 1,
            big >= 0,
    ;
    assert(w == t + 2 * (a + b + c) + 3) by (nonlinear_arith)
        requires
            w == (a + 1) * (a + 1) + (b + 1) * (b + 1) + (c + 1) * (c + 1),
            t == a * a + b * b + c * c,
    ;
    assert(t > big - 6_000_003);
    assert(n >= 1_000_000 - 4) by (nonlinear_arith)
        requires
            t < (n + 1) * (n + 1),
            t > 1_000_000 * 1_000_000 - 6_000_003,
            n >= 0,
    ;
}

} // verus!
