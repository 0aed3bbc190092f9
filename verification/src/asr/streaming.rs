//! Realtime (streaming) recognition.
use vstd::prelude::*;
use crate::error::AppError;

verus! {

/// A result of the streaming recogniser: interim or final text.
#[derive(Debug)]
pub struct StreamingSegment {
    pub text: String,
    pub is_final: bool,
    pub segment_id: u32,
    /// Sentence start (milliseconds); `None` for interim results.
    pub start_ms: Option<u32>,
    /// Sentence end (milliseconds); `None` for interim results.
    pub end_ms: Option<u32>,
}

/// A running realtime recognition session.
pub trait StreamingAsrSession {
    /// Sends a chunk of 16-bit 16 kHz mono PCM audio (about 160 ms each).
    fn send_audio_chunk(&mut self, pcm: &[i16]) -> Result<(), AppError>;

    /// Tells the server that recording ended and waits for all final
    /// results (at most 8 seconds).
    fn finish(&mut self) -> Result<Vec<StreamingSegment>, AppError>;
}

} // verus!
