//! A small neural-network training engine built as an explicit computation
//! graph of tensor-valued layers.
//!
//! The engine is generic over the scalar type: every layer, optimizer and
//! tensor operation works for any type implementing [`scalar::Scalar`], and
//! the contracts pin each result down through the scalar's own specification
//! functions.

pub mod scalar;
pub mod tensor;
pub mod optimizer;
pub mod activation_functions;
pub mod common;
pub mod loss_functions;
pub mod layer;
pub mod convolution;
pub mod neural_network;
pub mod layers;
pub mod logical_operators;
pub mod batch_norm;
pub mod network;
pub mod persist;
