//! A verified chart-rendering pipeline: a bounded sliding-window sample
//! series, a deterministic integer rasterizer that draws the series as a
//! polyline on an RGB canvas, lossless PNG encoding, base64 data-URI
//! packaging, and a cache that never serves a stale render.

pub mod codec;
pub mod pipeline;
pub mod raster;
pub mod series;
pub mod source;

#[allow(unused_imports)]
use vstd::prelude::*;

verus! {

/// Nominal window length of a series: a full chart has this many vertices.
pub const WINDOW: usize = 50;

/// Fixed-point scale for sample values: a sample `v` stands for the real
/// number `v / SCALE`, so `SCALE` itself is the value 1.0.
pub const SCALE: i64 = 1_000_000;

} // verus!
