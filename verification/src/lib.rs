//! Encode-and-synchronize stage of a live audio/video mixing engine.
//!
//! Raw interleaved audio samples and raw video frames arrive independently,
//! at different rates and with imprecise timestamps.  This crate buffers and
//! encodes both tracks (AAC for audio, H.264 for video), keeps one exact
//! rational clock per track, and hands out a single, globally time-ordered
//! sequence of compressed segments for an external muxer to consume.

pub mod time;
pub mod audio;
pub mod video;
pub mod stream;
