//! A small market-data pipeline: a tick generator advances a set of
//! instrument series by bounded perturbations, an aggregator derives a
//! windowed-mean signal from the raw histories on its own cadence, and
//! both sides hand read-only snapshots to a renderer.
//!
//! Values are fixed-point integers in hundredths of a unit, so every
//! quantity the pipeline computes is exact.
pub mod aggregator;
pub mod generator;
pub mod logline;
pub mod series;
