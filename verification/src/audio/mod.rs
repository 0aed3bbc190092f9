//! Audio: encoding recorded samples and the platform capture stubs.
pub mod encoder;
pub mod wasapi;
