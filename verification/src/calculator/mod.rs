//! Progress calculations: percentages, byte aggregation, display formatting and
//! quantization analysis.

pub mod formatter;
pub mod progress_calculator;
pub mod progress_core;
pub mod quantization_analyzer;
pub mod snapshot;
pub mod types;
