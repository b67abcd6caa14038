//! Activation functions.
use crate::model::MatrixView;
use crate::scalar::Real;
use vstd::prelude::*;

verus! {

/// A nonlinearity and its slope, one for all layers of a network.
///
/// The slope is taken at the *output* of the nonlinearity, not at its input:
/// `derivative(func(x))` stands for the slope of `func` at `x`.
#[derive(Debug)]
pub enum Activation<T> {
    /// The logistic function, `1 / (1 + exp(-x))`.
    Sigmoid,
    /// The hyperbolic tangent.
    Tanh,
    /// The rectified linear unit: positive values pass, all others become
    /// zero.
    Relu,
    /// The rectified linear unit with a leak: positive values pass, all
    /// others are multiplied by the slope held here.
    LeakyRelu(T),
    /// The exponential function alone. It is the numerator of a softmax:
    /// nothing here divides by the sum over the output vector.
    Softmax,
}

impl<T: Copy> Clone for Activation<T> {
    fn clone(&self) -> (r: Self)
        ensures
            r == *self,
    {
        match self {
            Activation::Sigmoid => Activation::Sigmoid,
            Activation::Tanh => Activation::Tanh,
            Activation::Relu => Activation::Relu,
            Activation::LeakyRelu(leak) => Activation::LeakyRelu(*leak),
            Activation::Softmax => Activation::Softmax,
        }
    }
}

impl<T: Copy> Copy for Activation<T> {

}

/// `1 / (1 + exp(0 - x))`, whatever the exponential and the division return.
pub open spec fn is_sigmoid<T: Real>(x: T, r: T) -> bool {
    exists|e: T|
        {
            &&& #[trigger] call_ensures(T::exp, (T::zero_value().difference(x),), e)
            &&& call_ensures(T::quotient, (T::one_value(), T::one_value().sum(e)), r)
        }
}

impl<T: Real> Activation<T> {
    /// `r` is a value of the nonlinearity at `x`.
    pub open spec fn yields(self, x: T, r: T) -> bool {
        match self {
            Activation::Sigmoid => is_sigmoid(x, r),
            Activation::Tanh => call_ensures(T::tanh, (x,), r),
            Activation::Relu => r == (if x.positive() {
                x
            } else {
                T::zero_value()
            }),
            Activation::LeakyRelu(leak) => r == (if x.positive() {
                x
            } else {
                leak.product(x)
            }),
            Activation::Softmax => call_ensures(T::exp, (x,), r),
        }
    }

    /// The slope of the nonlinearity where its output is `y`.
    pub open spec fn slope_at(self, y: T) -> T {
        match self {
            Activation::Sigmoid => y.product(T::one_value().difference(y)),
            Activation::Tanh => T::one_value().difference(y.product(y)),
            Activation::Relu => if y.positive() {
                T::one_value()
            } else {
                T::zero_value()
            },
            Activation::LeakyRelu(leak) => if y.positive() {
                T::one_value()
            } else {
                leak
            },
            Activation::Softmax => y.product(T::one_value().difference(y)),
        }
    }

    /// `y` has the shape of `x`, and each of its elements is a value of the
    /// nonlinearity at the element of `x` in the same place.
    pub open spec fn maps(self, x: MatrixView<T>, y: MatrixView<T>) -> bool {
        &&& x.same_shape(y)
        &&& y.data.len() == x.data.len()
        &&& forall|i: int| 0 <= i < x.data.len() ==> self.yields(x.data[i], #[trigger] y.data[i])
    }

    /// The slopes at the outputs `y`, element by element.
    pub open spec fn slopes(self, y: MatrixView<T>) -> MatrixView<T> {
        MatrixView { data: Seq::new(y.data.len(), |i: int| self.slope_at(y.data[i])), ..y }
    }

    /// The logistic function.
    pub fn sigmoid() -> (r: Self)
        ensures
            r == Activation::<T>::Sigmoid,
    {
        Activation::Sigmoid
    }

    /// The hyperbolic tangent.
    pub fn tanh() -> (r: Self)
        ensures
            r == Activation::<T>::Tanh,
    {
        Activation::Tanh
    }

    /// The rectified linear unit.
    pub fn relu() -> (r: Self)
        ensures
            r == Activation::<T>::Relu,
    {
        Activation::Relu
    }

    /// The leaky unit whose slope for values that are not positive is `leak`.
    pub fn leaky_relu(leak: T) -> (r: Self)
        ensures
            r == Activation::LeakyRelu(leak),
    {
        Activation::LeakyRelu(leak)
    }

    /// The exponential function, without a division by the sum of the outputs.
    pub fn softmax() -> (r: Self)
        ensures
            r == Activation::<T>::Softmax,
    {
        Activation::Softmax
    }

    /// The nonlinearity at `x`.
    pub fn func(&self, x: T) -> (r: T)
        ensures
            self.yields(x, r),
    {
        match self {
            Activation::Sigmoid => {
                let e = T::zero().minus(x).exp();
                T::one().quotient(T::one().plus(e))
            },
            Activation::Tanh => x.tanh(),
            Activation::Relu => if x.is_positive() {
                x
            } else {
                T::zero()
            },
            Activation::LeakyRelu(leak) => if x.is_positive() {
                x
            } else {
                leak.times(x)
            },
            Activation::Softmax => x.exp(),
        }
    }

    /// The slope of the nonlinearity where its output is `y`.
    pub fn derivative(&self, y: T) -> (r: T)
        ensures
            r == self.slope_at(y),
    {
        match self {
            Activation::Sigmoid => y.times(T::one().minus(y)),
            Activation::Tanh => T::one().minus(y.times(y)),
            Activation::Relu => if y.is_positive() {
                T::one()
            } else {
                T::zero()
            },
            Activation::LeakyRelu(leak) => if y.is_positive() {
                T::one()
            } else {
                *leak
            },
            Activation::Softmax => y.times(T::one().minus(y)),
        }
    }
}

} // verus!
