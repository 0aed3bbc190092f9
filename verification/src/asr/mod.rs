//! Speech recognition: transcript segments, the providers' pure logic and the
//! merging of batch and streaming results.
pub mod transcript;
pub mod streaming;
pub mod provider;
pub mod whisper;
pub mod aliyun;
pub mod funasr;
pub mod qwen3asr;
