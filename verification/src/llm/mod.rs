//! Language-model side of the assistant: prompt templates, clients and the
//! meeting-processing pipeline.
pub mod template;
pub mod client;
pub mod mock_client;
pub mod pipeline;
