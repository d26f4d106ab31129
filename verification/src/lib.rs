//! Computes pi to a requested number of decimal digits with a
//! Ramanujan-type series evaluated in arbitrary-precision arithmetic.
//!
//! The arbitrary-precision numbers come from the `astro_float` crate and are
//! opaque here; every such number is paired with a ghost model of the exact
//! sequence of rounded operations that produced it, so the contracts pin down
//! the whole computation symbolically.

pub mod bignum;
pub mod factorial;
pub mod partition;
pub mod series;
