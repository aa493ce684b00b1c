//! Core logic: network initialization, device management, IP allocation and
//! configuration rendering, over the data that the data file holds.

pub mod types;
pub mod errors;
pub mod render;
pub mod ops;
pub mod range;
pub mod laws;
