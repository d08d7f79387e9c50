//! Results and parsed reports laid out as text for people to read.

pub mod result;
pub mod table;
