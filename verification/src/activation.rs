//! The closed set of activation kinds a layer can carry: a name for a pure
//! nonlinearity and its derivative, both maps from one binary64 value to
//! another.
//!
//! The sigmoid is computed through the identity
//! `sigmoid(x) == 0.5 * tanh(0.5 * x) + 0.5`, so that its whole evaluation
//! is pinned to the named scalar operations of [`crate::scalar`].  The
//! rectifier and the identity need no outside arithmetic at all: they are
//! decided by the verified sign test on the bit pattern.

use vstd::prelude::*;
use crate::scalar::{
    gt_zero_bits, prod_bits, sum_bits, diff_bits, tanh_bits, scalar_add, scalar_mul,
    scalar_sub, scalar_tanh, scalar_gt_zero, HALF_BITS, ONE_BITS, ZERO_BITS,
};

verus! {

/// An activation kind: the forward nonlinearity and its derivative attached
/// to a layer.
#[derive(Clone, Copy, Debug, PartialEq, Eq, Structural)]
pub enum Activation {
    /// `f(x) = x`, `f'(x) = 1`.
    Identity,
    /// `f(x) = 1 / (1 + e^-x)`; the derivative is expressed in terms of
    /// the activated value, as `f'(y) = y * (1 - y)`.
    Sigmoid,
    /// `f(x) = max(0, x)`, `f'(x) = 1` for positive `x`, else `0`.
    Relu,
}

/// The sigmoid of the encoded value, as the engine computes it:
/// `0.5 * tanh(0.5 * x) + 0.5`.
pub open spec fn sigmoid_bits(x: u64) -> u64 {
    sum_bits(prod_bits(tanh_bits(prod_bits(x, HALF_BITS)), HALF_BITS), HALF_BITS)
}

/// The rectifier: the value itself when it is strictly positive, else +0.0.
pub open spec fn relu_bits(x: u64) -> u64 {
    if gt_zero_bits(x) {
        x
    } else {
        ZERO_BITS
    }
}

/// What `kind.evaluate(x)` returns.
pub open spec fn apply_bits(kind: Activation, x: u64) -> u64 {
    match kind {
        Activation::Identity => x,
        Activation::Sigmoid => sigmoid_bits(x),
        Activation::Relu => relu_bits(x),
    }
}

/// What `kind.derivative(x)` returns.  The sigmoid's derivative follows
/// the convention of taking the activated value: `x * (1 - x)`.
pub open spec fn derive_bits(kind: Activation, x: u64) -> u64 {
    match kind {
        Activation::Identity => ONE_BITS,
        Activation::Sigmoid => prod_bits(x, diff_bits(ONE_BITS, x)),
        Activation::Relu => if gt_zero_bits(x) {
            ONE_BITS
        } else {
            ZERO_BITS
        },
    }
}

impl Activation {
    /// The forward nonlinearity of this kind at `x`.
    pub fn evaluate(&self, x: u64) -> (r: u64)
        ensures
            r == apply_bits(*self, x),
    {
        match self {
            Activation::Identity => x,
            Activation::Sigmoid => {
                let t = scalar_tanh(scalar_mul(x, HALF_BITS));
                scalar_add(scalar_mul(t, HALF_BITS), HALF_BITS)
            },
            Activation::Relu => {
                if scalar_gt_zero(x) {
                    x
                } else {
                    ZERO_BITS
                }
            },
        }
    }

    /// The derivative of this kind's nonlinearity at `x`.
    pub fn derivative(&self, x: u64) -> (r: u64)
        ensures
            r == derive_bits(*self, x),
    {
        match self {
            Activation::Identity => ONE_BITS,
            Activation::Sigmoid => scalar_mul(x, scalar_sub(ONE_BITS, x)),
            Activation::Relu => {
                if scalar_gt_zero(x) {
                    ONE_BITS
                } else {
                    ZERO_BITS
                }
            },
        }
    }
}

} // verus!
