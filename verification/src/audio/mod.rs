//! Descriptions handed to the Core Audio capture backend.
pub mod tap;
