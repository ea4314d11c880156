//! A feedforward classifier trained by backpropagation in mini-batches, with
//! a cyclical learning rate.
//!
//! The engine is generic over the arithmetic it computes with (see
//! [`scalar::Scalar`]). Every function states, over sequences of scalars,
//! exactly which value it returns.

pub mod activation;
pub mod backprop;
pub mod classify;
pub mod error;
pub mod fixed;
pub mod fixed_laws;
pub mod laws;
pub mod layer;
pub mod model;
pub mod network;
pub mod scalar;
pub mod train;
