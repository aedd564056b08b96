//! Services and how they are found.
pub mod detector;
pub mod models;
