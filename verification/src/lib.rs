//! An energy-based novelty curve over a sampled mono signal.
//!
//! The pipeline — windowed short-time energy, optional logarithmic
//! compression, first difference, half-wave rectification and normalization —
//! is verified here over an abstract scalar type. The caller supplies the
//! scalar primitives (window generation, convolution, arithmetic and
//! comparison) as closures; every structural property of the pipeline is
//! proved for whatever those primitives return.

pub mod error;
pub mod engine;
pub mod stages;
