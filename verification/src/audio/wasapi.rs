//! Windows WASAPI loopback capture (system audio). Capture of the system
//! mix is not implemented; the microphone is recorded on every platform.
use vstd::prelude::*;

verus! {

/// Handle for loopback capture of the system audio mix.
#[derive(Debug)]
pub struct WasapiLoopback;

impl WasapiLoopback {
    /// A loopback capture handle.
    pub fn new() -> (r: Self)
        ensures
            r == WasapiLoopback,
    {
        WasapiLoopback
    }

    /// Whether loopback capture is available: it is not yet.
    pub fn is_supported() -> (r: bool)
        ensures
            !r,
    {
        false
    }
}

} // verus!
