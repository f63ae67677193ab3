//! The compile pipeline.
pub mod pipeline;
