//! Progress tracking, quantization analysis and download bookkeeping for
//! HuggingFace model downloads, with every computation stated and proved.

pub mod builder;
pub mod calculator;
pub mod debounced;
pub mod debounced_progress;
pub mod events;
pub mod central_dispatcher;
pub mod channel;
pub mod filesystem_evaluator;
pub mod hub;
pub mod laws;
pub mod manifest;
pub mod memory_ordering;
pub mod orchestration;
pub mod results;
pub mod sorting;
pub mod std_types;
pub mod text;
