//! Kalman filtering and Rauch-Tung-Striebel smoothing for linear models
//! without control inputs.
//!
//! The crate holds the whole estimation engine: the data model of an
//! estimate, the two model interfaces with their prediction and update, the
//! forward recursion over a time series and the backward smoothing
//! recursion.
//!
//! It holds no arithmetic. Numbers are carried as IEEE 754 bit patterns, and
//! sums, products and inverses of matrices are asked of an implementation of
//! [`LinearAlgebra`] that each model names. Every contract in the crate is
//! therefore exact: it says which operations are applied to which values and
//! in which order, and what becomes of their results.
//!
//! Throughout, `SS` is the size of the state vector and `OS` the size of an
//! observation vector; both are fixed at compile time.
pub mod algebra;
pub mod equations;
pub mod error;
pub mod filter;
pub mod linear;
pub mod matrix;
pub mod model;
pub mod scalar;
pub mod series;
pub mod state_and_covariance;
pub mod theorems;

pub use algebra::LinearAlgebra;
pub use error::{Error, ErrorKind};
pub use filter::KalmanFilterNoControl;
pub use linear::{LinearObservation, LinearTransition};
pub use matrix::{Matrix, Vector};
pub use model::{CoverianceUpdateMethod, ObservationModelLinear, TransitionModelLinearNoControl};
pub use scalar::{is_nan, Binary32, Binary64, Scalar};
pub use state_and_covariance::StateAndCovariance;
