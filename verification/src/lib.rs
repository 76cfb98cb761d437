//! A visually infinite 2D reference grid for an orthographic camera.
//!
//! The grid is not a mesh of fixed extent: it is evaluated procedurally for
//! every covered pixel, so it looks correct at any zoom level and any camera
//! position.  The crate holds the per-frame pipeline (extraction of grid
//! instances into immutable snapshots, per-view preparation, queuing of
//! sorted draw items) and the per-pixel evaluation (multi-level line
//! coverage with anti-aliasing, density fade between levels of detail, and
//! axis highlighting).
//!
//! All quantities are fixed-point integers: one world unit, one pixel, or
//! one unit of color intensity is `SCALE` (= 1_000_000) raw units.  The
//! host engine converts its own floating-point values at the boundary.

pub mod cache;
pub mod config;
pub mod eval;
pub mod extract;
pub mod prepare;
pub mod pipeline;
pub mod queue;
