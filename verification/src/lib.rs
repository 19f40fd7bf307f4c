//! Interactive editor core for chained cubic Bezier curves.
//!
//! Positions, colors and curve parameters are modelled exactly: coordinates
//! are bounded integers and the curve parameter is a rational `num / den`.
//! Curve evaluation is therefore exact integer arithmetic, which lets the
//! library prove that the two segment evaluators agree, that evaluation at
//! the endpoints returns the anchors, and that tight bounding boxes are
//! contained in the coarse ones.

use vstd::prelude::*;

pub mod eval;
pub mod point;
pub mod solve;
pub mod curve;
pub mod editor;

verus! {

/// Largest magnitude allowed for a control-point coordinate or color channel.
pub const MAX_COORD: i64 = 1_000_000;

/// Largest denominator allowed for a curve parameter.
pub const MAX_DEN: u64 = 100_000_000;

/// Denominator of the fixed sample grid: samples are taken at t = i / SAMPLE_DEN
/// for i = 0 ..= SAMPLE_DEN.
pub const SAMPLE_DEN: u64 = 200;

/// SAMPLE_DEN cubed: the scale of the numerators of sampled curve points.
pub const SAMPLE_SCALE: i64 = 8_000_000;

/// A control point is picked when the pointer is within this distance of it.
pub const CONTROLPOINT_RADIUS: i64 = 10;

} // verus!
