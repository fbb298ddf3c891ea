//! Fixed-length sample sequences with circular indexing, slicing, sliding
//! windows, padding, differencing, elementwise and scalar arithmetic and order
//! statistics, verified with Verus.
//!
//! The container is generic over the sample type. What it decides depends on
//! positions and lengths only; where it computes with samples, it uses the
//! sample type's own operators and order.
//!
//! - `inner::base` holds the container, `SignalBase`.
//! - `inner::arithmetic` and `inner::statistics` add the operations that
//!   compute with samples.
//! - `inner::model` says what each operation returns, as a function on
//!   sequences, and `inner::laws` proves what holds of these functions.
//! - `inner` and `errors` hold the error types.

pub mod errors;
pub mod inner;
