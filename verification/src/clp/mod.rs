//! Hazard reference data and the resolution of report rows against it.

pub mod database;
pub mod schema;
pub mod speciation;
