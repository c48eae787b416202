//! MP3 container decoding: frame-header and side-information parsing.
//! The synthesis filter bank is absent, so no samples are produced.

pub mod frame;
pub mod types;

use vstd::prelude::*;

use crate::audio::{AudioInfo, AudioReader, AudioSamplesIterator, ChannelLayout};
use crate::bytes::ByteReader;
use crate::codecs::CodecType;
use crate::errors::{unsupported_error, Error};
use crate::mp3::frame::{decode_next_frame, Block, DecoderState};
use crate::sample::Sample;

verus! {

/// Pull-based reader for an MP3 stream.
pub struct Mp3Reader {
    /// The byte stream.
    pub reader: ByteReader,
}

impl Mp3Reader {
    /// Wraps a byte stream in an MP3 reader.
    pub fn new(reader: ByteReader) -> (r: Result<Box<Mp3Reader>, Error>)
        requires
            reader.wf(),
        ensures
            r matches Ok(mr) && mr.reader == reader && mr.reader.wf(),
    {
        Ok(Box::new(Mp3Reader { reader }))
    }

    /// MP3 streams carry no global header; the descriptor only names
    /// the codec.
    pub fn read_header(&mut self) -> (r: Result<AudioInfo, Error>)
        ensures
            *final(self) == *old(self),
            r matches Ok(info) && info.codec_type == CodecType::CODEC_TYPE_MP3,
    {
        let channels = ChannelLayout::Mono.into_channels();
        Ok(
            AudioInfo {
                codec_type: CodecType::CODEC_TYPE_MP3,
                sample_rate: 0,
                total_samples: 0,
                bits_per_sample: 0,
                channels,
                channel_layout: ChannelLayout::Mono,
            },
        )
    }
}

/// A lazy iterator over an MP3 stream.  Frames are parsed, but with the
/// synthesis filter absent no numeric target can represent the output,
/// so every in-frame position yields an unsupported-format error.
pub struct Mp3SamplesIterator<S: Sample> {
    /// The byte stream, taken over from the segment.
    pub reader: ByteReader,
    /// The bit reservoir carried between frames.
    pub decoder_state: DecoderState,
    /// The dimensions of the most recently parsed frame.
    pub current_block: Block,
    /// Index of the last yielded position within the block.
    pub samples_read: u32,
    /// Channel of the last yielded position.
    pub current_channel: u32,
    /// Set when parsing has failed; the iterator then stays exhausted.
    pub has_failed: bool,
    /// The output sample type.
    pub marker: core::marker::PhantomData<S>,
}

impl<S: Sample> Mp3SamplesIterator<S> {
    /// The iterator's cursors stay inside the current block.
    pub open spec fn wf(self) -> bool {
        &&& self.reader.wf()
        &&& self.decoder_state.wf()
        &&& (self.current_block.no_channels > 0 ==> self.current_channel
            < self.current_block.no_channels && self.samples_read < self.current_block.block_size)
        &&& (self.current_block.no_channels == 0 ==> self.current_channel == 0
            && self.samples_read == 0 && self.current_block.block_size == 0)
    }

    /// Builds the iterator over a byte stream positioned at the first
    /// frame.
    pub fn new(reader: ByteReader) -> (r: Mp3SamplesIterator<S>)
        requires
            reader.wf(),
        ensures
            r.wf(),
            !r.has_failed,
            r.reader == reader,
            r.current_block.no_channels == 0,
            r.samples_read == 0,
            r.current_channel == 0,
    {
        Mp3SamplesIterator {
            reader,
            decoder_state: DecoderState::new(),
            current_block: Block::empty(),
            samples_read: 0,
            current_channel: 0,
            has_failed: false,
            marker: core::marker::PhantomData,
        }
    }

    /// Advances to the next position, parsing a new frame when the
    /// current one is exhausted.
    pub fn next(&mut self) -> (r: Option<Result<S, Error>>)
        requires
            old(self).wf(),
        ensures
            final(self).wf(),
            old(self).has_failed ==> r is None && *final(self) == *old(self),
            !old(self).has_failed && old(self).current_block.no_channels > 0 && old(
                self,
            ).current_channel + 1 < old(self).current_block.no_channels ==> {
                &&& final(self).current_channel == old(self).current_channel + 1
                &&& final(self).samples_read == old(self).samples_read
                &&& final(self).current_block == old(self).current_block
                &&& (r matches Some(res) && res matches Err(e) && e.is_unsupported())
            },
            !old(self).has_failed && old(self).current_block.no_channels > 0 && old(
                self,
            ).current_channel + 1 >= old(self).current_block.no_channels && old(self).samples_read
                + 1 < old(self).current_block.block_size ==> {
                &&& final(self).current_channel == 0
                &&& final(self).samples_read == old(self).samples_read + 1
                &&& final(self).current_block == old(self).current_block
                &&& (r matches Some(res) && res matches Err(e) && e.is_unsupported())
            },
    {
        if self.has_failed {
            return None;
        }
        self.current_channel = self.current_channel + 1;
        if self.current_channel >= self.current_block.num_channels() {
            self.current_channel = 0;
            self.samples_read = self.samples_read + 1;
            if self.samples_read >= self.current_block.total_samples() {
                self.samples_read = 0;
                match decode_next_frame(&mut self.reader, &mut self.decoder_state) {
                    Some(Ok(next_block)) => {
                        self.current_block = next_block;
                    },
                    Some(Err(error)) => {
                        self.has_failed = true;
                        return Some(Err(error));
                    },
                    None => {
                        return None;
                    },
                }
            }
        }
        Some(unsupported_error("unsupported sample format"))
    }
}

impl AudioReader for Mp3Reader {
    open spec fn reader_wf(&self) -> bool {
        self.reader.wf()
    }

    fn read_header(&mut self) -> (r: Result<AudioInfo, Error>) {
        Mp3Reader::read_header(self)
    }
}

impl<S: Sample> AudioSamplesIterator<S> for Mp3SamplesIterator<S> {
    open spec fn iter_wf(&self) -> bool {
        self.wf()
    }

    fn next(&mut self) -> (r: Option<Result<S, Error>>) {
        Mp3SamplesIterator::next(self)
    }
}

} // verus!
