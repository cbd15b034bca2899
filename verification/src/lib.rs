//! Core of a `top`-style process monitor: parsing of the kernel's textual
//! counter formats, delta/rate computation over consecutive samples, and
//! assembly of one snapshot per sampling pass.

pub mod parse;
pub mod proc;
pub mod sampler;
pub mod utils;
