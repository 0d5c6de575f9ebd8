//! A registry of bounded-bucket histograms, keyed by metric.
//!
//! Samples and bucket bounds are IEEE 754 binary64 numbers, carried by their
//! bit patterns. Each histogram keeps cumulative bucket counts, a running sum
//! and a sample count; the registry renders them as log lines and as an
//! exposition text appended to a byte buffer.

pub mod binary64;
pub mod metrics_key;
pub mod render;
pub mod model;
pub mod sink;
pub mod histogram;
