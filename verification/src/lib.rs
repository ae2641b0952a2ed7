//! Traces of epicycles, drawn on a square canvas.
//!
//! An epicycle is a vector that turns about the origin at a constant angular
//! speed. The tip of a sum of epicycles traces a curve. This library samples
//! that curve at whole time steps, keeps the samples as integer points
//! together with the smallest box around them, and draws them on a canvas
//! into which the box is scaled down by a whole divisor.
//!
//! - [`input`] reads the rows of the text that describes the epicycles.
//! - [`sampler`] schedules the time steps and collects the samples.
//! - [`geometry`] holds points and bounding boxes.
//! - [`raster`] maps samples to pixels and draws them.
//! - [`canvas`] is the image that is drawn on.
//! - [`args`] holds what a run is told on the command line.

pub mod args;
pub mod canvas;
pub mod geometry;
pub mod input;
pub mod raster;
pub mod sampler;
