//! Integer core of a banded escape-time fractal renderer: band geometry,
//! the shared work queue and results table of a render pass, and palette
//! synthesis over 8-bit colors.
use vstd::prelude::*;

pub mod band;
pub mod color;
pub mod palette;
pub mod schedule;
pub mod work;

verus! {

} // verus!
