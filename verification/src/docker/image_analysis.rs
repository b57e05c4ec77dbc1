//! Image size estimation from the instruction count.

use vstd::prelude::*;

verus! {

/// Estimated image metrics.
#[derive(Debug, Clone, PartialEq, Eq)]
pub struct ImageMetricsReport {
    /// Estimated layer count.
    pub total_layers: usize,
    /// Size class.
    pub estimated_size_class: String,
}

impl Default for ImageMetricsReport {
    fn default() -> (r: Self)
        ensures
            r.total_layers == 0,
            r.estimated_size_class@ == Seq::<char>::empty(),
    {
        ImageMetricsReport { total_layers: 0, estimated_size_class: String::new() }
    }
}

/// The size class of an image built from `n` instructions.
pub open spec fn size_class(n: usize) -> Seq<char> {
    if n > 15 {
        "Large (>500MB)"@
    } else if n > 5 {
        "Medium (100MB-500MB)"@
    } else {
        "Small (<100MB)"@
    }
}

/// Image size estimator.
#[derive(Debug, Clone, Copy, Default)]
pub struct ImageAnalyzer;

impl ImageAnalyzer {
    /// Creates an estimator.
    pub fn new() -> (r: Self) {
        ImageAnalyzer
    }

    /// Estimates the metrics of an image built from `instruction_count` instructions.
    pub fn estimate_metrics(&self, instruction_count: usize) -> (r: ImageMetricsReport)
        ensures
            r.total_layers == instruction_count,
            r.estimated_size_class@ == size_class(instruction_count),
    {
        let size_class = if instruction_count > 15 {
            "Large (>500MB)".to_owned()
        } else if instruction_count > 5 {
            "Medium (100MB-500MB)".to_owned()
        } else {
            "Small (<100MB)".to_owned()
        };
        ImageMetricsReport { total_layers: instruction_count, estimated_size_class: size_class }
    }
}

} // verus!
