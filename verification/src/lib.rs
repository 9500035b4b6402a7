//! A minimal dense feedforward neural-network engine: a shape-checked matrix
//! library over IEEE-754 binary64 scalars, and a layered network built on it
//! that performs forward inference, mean-squared-error loss, gradient-descent
//! backpropagation and weight persistence.

pub mod activation;
pub mod error;
pub mod scalar;
pub mod matrix;
pub mod network;
