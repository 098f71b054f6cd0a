//! A quantitative-trading analytics core: streaming bar aggregation under
//! session schedules, layered price transforms with finished-bar masks, a
//! cached indicator graph, and projection of reduced-grid results back
//! onto the base grid.
//!
//! Prices, volumes and amounts are fixed-point integers: the caller picks
//! a scale (for example hundredths of a quote unit) and every series
//! keeps it.  Data flows from ticks or sub-bars through the aggregator
//! into a raw series, through the transform stack into published
//! read-only series, and through the indicator dispatcher into cached
//! derived columns; the forecast aligner projects columns computed on a
//! reduced grid back onto the base grid through the recorded masks.

pub mod clock;
pub mod dcon;
pub mod di;
pub mod fore;
pub mod idx;
pub mod inter;
pub mod price;
pub mod roll;
pub mod ta;
pub mod ticker;
pub mod util;
