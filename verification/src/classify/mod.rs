//! The two classifiers and what they report.

pub mod engine;
pub mod hp_engine;
pub mod outcome;
