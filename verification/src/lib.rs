//! A bounded-history volatility forecaster.
//!
//! The crate keeps the most recent `N` scalar observations in a circular
//! buffer and, once the buffer is full, predicts the next observation as a
//! fixed-coefficient linear combination of the stored history, rescaled by a
//! constant divisor.

pub mod curve;
pub mod laws;
pub mod model;
