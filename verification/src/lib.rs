//! A pull-based audio container decoding library.
//!
//! The library turns WAV/RIFF and FLAC byte streams held in memory into a
//! lazy, channel-interleaved sequence of numeric PCM samples.  MP3 support
//! covers frame-header and side-information parsing only.

pub mod audio;
pub mod bits;
pub mod bytes;
pub mod codecs;
pub mod crc;
pub mod errors;
pub mod flac;
pub mod mp3;
pub mod sample;
pub mod utils;
pub mod wav;
