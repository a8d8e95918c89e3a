//! Verified core of a zkVM regression-evaluation guest program.
//!
//! The pipeline runs in stages: a feature matrix is built from nested input,
//! a transform stage produces the matrix handed to the models, each
//! registered model yields a prediction vector, a metrics engine derives
//! MAE/MSE/RMSE/R-squared, and every prediction vector and metric set is
//! appended to an order-sensitive commitment stream and canonically encoded.
//!
//! Every scalar that flows through the core is carried as the 64-bit pattern
//! of an IEEE-754 double. The core never performs floating-point arithmetic
//! itself: it validates shapes and configurations, fixes the commitment
//! order, and encodes the committed values byte-exactly. The host side of
//! the guest performs the floating-point evaluation and hands the resulting
//! bit patterns back to the core.

pub mod error;
pub mod matrix;
pub mod transform;
pub mod model;
pub mod metrics;
pub mod commit;
