//! Verified decision core of a prediction-market market maker.

pub mod config;
pub mod crypto;
pub mod decimal;
pub mod json;
pub mod keyed;
pub mod models;
pub mod runtime;
pub mod strategy;
pub mod text;
pub mod time;
pub mod trading;
pub mod watchdog;
