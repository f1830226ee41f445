//! Classification and threshold validation for anti-fee-sniping observations.
//!
//! A wallet that guards against fee sniping marks each spend either with an
//! absolute locktime near the chain tip or with a relative locktime on a
//! single input. This library classifies observed transaction records by
//! which mechanism they exhibit, accumulates frequency tables over a run of
//! trials, and checks the accumulated statistics against configurable
//! thresholds.

pub mod classifier;
pub mod record;
pub mod tables;
pub mod validator;
