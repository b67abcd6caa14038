//! The element type of a matrix.
use rand::Rng;
use vstd::prelude::*;

verus! {

/// What a matrix asks of its elements.
///
/// Each operation is a function of its operands: the value it returns is
/// named by the spec function that stands beside it, and the contracts of the
/// matrix operations are written over those names. The one exception is
/// `sample`, whose result is only known to lie in the unit range.
pub trait Scalar: Copy {
    /// The additive identity.
    spec fn zero_value() -> Self;

    /// The multiplicative identity.
    spec fn one_value() -> Self;

    /// `self + rhs`.
    spec fn sum(self, rhs: Self) -> Self;

    /// `self - rhs`.
    spec fn difference(self, rhs: Self) -> Self;

    /// `self * rhs`.
    spec fn product(self, rhs: Self) -> Self;

    /// Whether `self` is strictly greater than zero.
    spec fn positive(self) -> bool;

    /// Whether `self` lies in the closed range from minus one to one.
    spec fn within_unit(self) -> bool;

    fn zero() -> (r: Self)
        ensures
            r == Self::zero_value(),
    ;

    fn one() -> (r: Self)
        ensures
            r == Self::one_value(),
    ;

    fn plus(self, rhs: Self) -> (r: Self)
        ensures
            r == self.sum(rhs),
    ;

    fn minus(self, rhs: Self) -> (r: Self)
        ensures
            r == self.difference(rhs),
    ;

    fn times(self, rhs: Self) -> (r: Self)
        ensures
            r == self.product(rhs),
    ;

    fn is_positive(self) -> (r: bool)
        ensures
            r == self.positive(),
    ;

    /// A fresh draw from the closed range from minus one to one.
    fn sample() -> (r: Self)
        ensures
            r.within_unit(),
    ;
}

/// Scalars that stand for real numbers, with the operations that only such
/// scalars have.
///
/// These operations are carried out as well as the element type can, and
/// their results are not named: a contract that depends on one of them says
/// that the value is one that the operation may return for its operands.
pub trait Real: Scalar {
    /// `self / rhs`.
    fn quotient(self, rhs: Self) -> Self;

    /// The exponential function at `self`.
    fn exp(self) -> Self;

    /// The hyperbolic tangent of `self`.
    fn tanh(self) -> Self;
}

/// Scalars whose arithmetic is exact, so that the algebraic identities below
/// hold without rounding.
pub trait LawfulScalar: Scalar {
    /// The order of the factors does not matter.
    proof fn product_commutes(a: Self, b: Self)
        ensures
            a.product(b) == b.product(a),
    ;

    /// Subtracting what was added gives the first term back.
    proof fn difference_undoes_sum(a: Self, b: Self)
        ensures
            a.sum(b).difference(b) == a,
    ;

    /// Multiplying by one changes nothing.
    proof fn one_is_right_identity(a: Self)
        ensures
            a.product(Self::one_value()) == a,
    ;

    /// Multiplying by zero gives zero.
    proof fn zero_annihilates(a: Self)
        ensures
            a.product(Self::zero_value()) == Self::zero_value(),
    ;
}

/// The representative of `v` modulo 2^64 that an `i64` holds.
pub open spec fn wrap(v: int) -> i64 {
    let m = v % 0x1_0000_0000_0000_0000;
    if m > i64::MAX {
        (m - 0x1_0000_0000_0000_0000) as i64
    } else {
        m as i64
    }
}

/// `rand::Rng::gen_range` on the generator of `rand::thread_rng`, over the
/// inclusive range from `low` to `high`. The call panics on an empty range,
/// which is left out here. The value drawn lies in the range, both ends
/// included; nothing else is known of it.
#[verifier::external_body]
fn uniform_between(low: i64, high: i64) -> (r: i64)
    requires
        low <= high,
    ensures
        low <= r <= high,
{
    rand::thread_rng().gen_range(low..=high)
}

/// Machine integers with wrapping arithmetic: the integers modulo 2^64.
impl Scalar for i64 {
    open spec fn zero_value() -> i64 {
        0
    }

    open spec fn one_value() -> i64 {
        1
    }

    open spec fn sum(self, rhs: i64) -> i64 {
        wrap(self + rhs)
    }

    open spec fn difference(self, rhs: i64) -> i64 {
        wrap(self - rhs)
    }

    open spec fn product(self, rhs: i64) -> i64 {
        wrap(self * rhs)
    }

    open spec fn positive(self) -> bool {
        self > 0
    }

    open spec fn within_unit(self) -> bool {
        -1 <= self <= 1
    }

    fn zero() -> (r: i64) {
        0
    }

    fn one() -> (r: i64) {
        1
    }

    fn plus(self, rhs: i64) -> (r: i64) {
        self.wrapping_add(rhs)
    }

    fn minus(self, rhs: i64) -> (r: i64) {
        self.wrapping_sub(rhs)
    }

    fn times(self, rhs: i64) -> (r: i64) {
        self.wrapping_mul(rhs)
    }

    fn is_positive(self) -> (r: bool) {
        self > 0
    }

    fn sample() -> (r: i64) {
        uniform_between(-1, 1)
    }
}

impl LawfulScalar for i64 {
    proof fn product_commutes(a: i64, b: i64) {
        assert(a * b == b * a) by (nonlinear_arith);
    }

    proof fn difference_undoes_sum(a: i64, b: i64) {
    }

    proof fn one_is_right_identity(a: i64) {
        assert(a * 1 == a) by (nonlinear_arith);
    }

    proof fn zero_annihilates(a: i64) {
        assert(a * 0 == 0) by (nonlinear_arith);
    }
}

} // verus!
