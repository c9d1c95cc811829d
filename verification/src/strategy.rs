//! Which quotes to place, and what they are worth.

pub mod calibration;
pub mod hedgeability;
pub mod quote_engine;
pub mod score_proxy;
pub mod viability;
