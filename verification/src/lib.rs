//! Dense matrices over an abstract scalar, and a small fully connected
//! network trained by gradient descent on top of them.
//!
//! Everything here is generic in the element type: the library fixes which
//! elements are combined and in which order, and leaves the arithmetic itself
//! to an implementation of [`Scalar`].
pub mod activation;
pub mod laws;
pub mod matrix;
pub mod model;
pub mod network;
pub mod scalar;
pub mod training;

pub use activation::Activation;
pub use matrix::Matrix;
pub use model::MatrixView;
pub use network::Network;
pub use scalar::{LawfulScalar, Real, Scalar};
