//! FLAC container decoding.

pub mod decoder;
pub mod frame;

use vstd::prelude::*;

use crate::audio::{
    popcount, spec_channel_count, spec_layout_mask, AudioInfo, AudioReader, AudioSamplesIterator,
    ChannelLayout,
};
use crate::bytes::{spec_be16, spec_be24, spec_be32, ByteReader};
use crate::codecs::CodecType;
use crate::errors::{parse_error, Error};
use crate::flac::frame::{decode_next_frame, Block};
use crate::sample::Sample;

verus! {

/// The layout the stream-info channel count maps to.
pub open spec fn spec_layout_of_channels(n: int) -> ChannelLayout {
    if n == 1 {
        ChannelLayout::Mono
    } else if n == 2 {
        ChannelLayout::Stereo
    } else if n == 3 {
        ChannelLayout::ThreePointZero
    } else if n == 4 {
        ChannelLayout::Quad
    } else if n == 5 {
        ChannelLayout::FivePointZero
    } else if n == 6 {
        ChannelLayout::FivePointOne
    } else if n == 7 {
        ChannelLayout::SixPointOneBack
    } else {
        ChannelLayout::SevenPointOne
    }
}

/// Maps a FLAC channel count to its layout mnemonic.
pub fn num_channels_to_channel_layout(channels: u8) -> (r: ChannelLayout)
    requires
        1 <= channels <= 8,
    ensures
        r == spec_layout_of_channels(channels as int),
        spec_channel_count(r) == channels,
{
    if channels == 1 {
        ChannelLayout::Mono
    } else if channels == 2 {
        ChannelLayout::Stereo
    } else if channels == 3 {
        ChannelLayout::ThreePointZero
    } else if channels == 4 {
        ChannelLayout::Quad
    } else if channels == 5 {
        ChannelLayout::FivePointZero
    } else if channels == 6 {
        ChannelLayout::FivePointOne
    } else if channels == 7 {
        ChannelLayout::SixPointOneBack
    } else {
        ChannelLayout::SevenPointOne
    }
}

/// A descriptor that came out of a FLAC stream-info block: the codec is
/// FLAC, the rates and widths are within the format's hard bounds, and
/// the channel mask agrees with the layout.
pub open spec fn flac_info_wf(info: AudioInfo) -> bool {
    &&& info.codec_type == CodecType::CODEC_TYPE_FLAC
    &&& 1 <= info.sample_rate <= 655350
    &&& 1 <= info.bits_per_sample <= 32
    &&& info.channels.bits == spec_layout_mask(info.channel_layout)
    &&& popcount(info.channels.bits as nat) == spec_channel_count(info.channel_layout)
}

/// Pull-based reader for a FLAC container stream.
pub struct FlacReader {
    /// The byte stream.
    pub reader: ByteReader,
    /// Minimum and maximum block size from the stream-info block.
    pub block_size: (u16, u16),
    /// Minimum and maximum frame size from the stream-info block.
    pub frame_size: (u32, u32),
    /// The stream's MD5 signature.
    pub md5: Vec<u8>,
}

impl FlacReader {
    /// Wraps a byte stream in a FLAC reader.
    pub fn new(reader: ByteReader) -> (r: Result<Box<FlacReader>, Error>)
        requires
            reader.wf(),
        ensures
            r matches Ok(fr) && fr.reader == reader && fr.reader.wf(),
    {
        Ok(
            Box::new(
                FlacReader {
                    reader,
                    block_size: (0, 0),
                    frame_size: (0, 0),
                    md5: Vec::new(),
                },
            ),
        )
    }

    /// Parses the mandatory 34-byte stream-info metadata block.
    pub fn read_stream_info(&mut self, length: u32) -> (r: Result<AudioInfo, Error>)
        requires
            old(self).reader.wf(),
        ensures
            final(self).reader.wf(),
            final(self).reader.data@ == old(self).reader.data@,
            final(self).reader.pos >= old(self).reader.pos,
            length != 34 ==> r == Result::<AudioInfo, Error>::Err(
                Error::ParseError("stream_info block should have fixed length of 34 bytes"),
            ),
            r matches Err(e) ==> e.is_io() || e == Error::ParseError(
                "stream_info block should have fixed length of 34 bytes",
            ) || e == Error::ParseError("block size must be at least 16") || e
                == Error::ParseError(
                "inconsistent block size, min block size > max block size",
            ) || e == Error::ParseError(
                "inconsistent frame size, max frame size < min frame size",
            ) || e == Error::ParseError("sampling rate must be less than 655350"),
            length == 34 && old(self).reader.remaining() >= 34 ==> ({
                let d = old(self).reader.data@;
                let p = old(self).reader.pos as int;
                let minbs = spec_be16(d[p], d[p + 1]);
                let maxbs = spec_be16(d[p + 2], d[p + 3]);
                let minfs = spec_be24(d[p + 4], d[p + 5], d[p + 6]);
                let maxfs = spec_be24(d[p + 7], d[p + 8], d[p + 9]);
                let sr = spec_be16(d[p + 10], d[p + 11]) * 16 + d[p + 12] / 16;
                &&& (minbs < 16 ==> r == Result::<AudioInfo, Error>::Err(
                    Error::ParseError("block size must be at least 16"),
                ))
                &&& (minbs >= 16 && minbs > maxbs ==> r == Result::<AudioInfo, Error>::Err(
                    Error::ParseError("inconsistent block size, min block size > max block size"),
                ))
                &&& (minbs >= 16 && minbs <= maxbs && minfs > 0 && maxfs > 0 && maxfs < minfs
                    ==> r == Result::<AudioInfo, Error>::Err(
                    Error::ParseError("inconsistent frame size, max frame size < min frame size"),
                ))
                &&& (minbs >= 16 && minbs <= maxbs && !(minfs > 0 && maxfs > 0 && maxfs < minfs)
                    && (sr == 0 || sr > 655350) ==> r == Result::<AudioInfo, Error>::Err(
                    Error::ParseError("sampling rate must be less than 655350"),
                ))
                &&& (minbs >= 16 && minbs <= maxbs && !(minfs > 0 && maxfs > 0 && maxfs < minfs)
                    && 1 <= sr <= 655350 ==> r is Ok)
            }),
            r matches Ok(info) ==> ({
                let d = old(self).reader.data@;
                let p = old(self).reader.pos as int;
                let lsbb = d[p + 12];
                let bpsb = d[p + 13];
                let nch = (lsbb / 2) % 8 + 1;
                &&& flac_info_wf(info)
                &&& info.sample_rate == spec_be16(d[p + 10], d[p + 11]) * 16 + lsbb / 16
                &&& info.bits_per_sample == (lsbb % 2) * 16 + bpsb / 16 + 1
                &&& info.channel_layout == spec_layout_of_channels(nch as int)
                &&& info.total_samples == ((bpsb % 16) * 0x1_0000_0000 + spec_be32(
                    d[p + 14],
                    d[p + 15],
                    d[p + 16],
                    d[p + 17],
                )) * nch
                &&& final(self).reader.pos == old(self).reader.pos + 34
            }),
    {
        if length != 34 {
            return parse_error("stream_info block should have fixed length of 34 bytes");
        }
        let min_bs = self.reader.read_be_u16()?;
        let max_bs = self.reader.read_be_u16()?;
        self.block_size = (min_bs, max_bs);
        if min_bs < 16 {
            return parse_error("block size must be at least 16");
        }
        if min_bs > max_bs {
            return parse_error("inconsistent block size, min block size > max block size");
        }
        let min_fs = self.reader.read_be_u24()?;
        let max_fs = self.reader.read_be_u24()?;
        self.frame_size = (min_fs, max_fs);
        if min_fs > 0 && max_fs > 0 && max_fs < min_fs {
            return parse_error("inconsistent frame size, max frame size < min frame size");
        }
        let sample_rate_msb = self.reader.read_be_u16()?;
        let sample_rate_lsb = self.reader.read_u8()?;
        // The 20-bit sample rate: sixteen bits, then the top four bits of
        // the next byte.
        let sample_rate: u32 = (sample_rate_msb as u32) * 16 + (sample_rate_lsb as u32) / 16;
        if sample_rate == 0 || sample_rate > 655350 {
            return parse_error("sampling rate must be less than 655350");
        }
        // Channel count, three bits.
        let no_channels: u8 = (sample_rate_lsb / 2) % 8 + 1;
        if no_channels < 1 || no_channels > 8 {
            return parse_error("number of channels must be between 1 and 8");
        }
        let channel_layout = num_channels_to_channel_layout(no_channels);
        // Bits per sample, five bits straddling two bytes.
        let bps_bits = self.reader.read_u8()?;
        let bits_per_sample: u32 = (sample_rate_lsb as u32 % 2) * 16 + (bps_bits as u32) / 16 + 1;
        // Total inter-channel frames, 36 bits.
        let total_lo = self.reader.read_be_u32()?;
        let total_frames: u64 = (bps_bits as u64 % 16) * 0x1_0000_0000 + total_lo as u64;
        let md5 = self.reader.read_bytes(16)?;
        self.md5 = md5;
        proof {
            assert(total_frames as int * no_channels as int <= 0x10_0000_0000 * 8)
                by (nonlinear_arith)
                requires
                    total_frames <= 0x10_0000_0000,
                    no_channels <= 8,
            ;
        }
        let channels = channel_layout.into_channels();
        Ok(
            AudioInfo {
                codec_type: CodecType::CODEC_TYPE_FLAC,
                sample_rate,
                total_samples: total_frames * no_channels as u64,
                bits_per_sample,
                channels,
                channel_layout,
            },
        )
    }

    /// Reads the `fLaC` magic and the metadata blocks, and returns the
    /// descriptor from the stream-info block.
    #[verifier::loop_isolation(false)]
    pub fn read_header(&mut self) -> (r: Result<AudioInfo, Error>)
        requires
            old(self).reader.wf(),
        ensures
            final(self).reader.wf(),
            final(self).reader.data@ == old(self).reader.data@,
            r matches Ok(info) ==> flac_info_wf(info),
            ({
                let d = old(self).reader.data@;
                let p = old(self).reader.pos as int;
                let magic_ok = d[p] == 0x66 && d[p + 1] == 0x4c && d[p + 2] == 0x61 && d[p + 3]
                    == 0x43;
                &&& (old(self).reader.remaining() >= 4 && !magic_ok ==> r == Result::<
                    AudioInfo,
                    Error,
                >::Err(Error::ParseError("no fLaC tag Found")))
                &&& (r is Ok ==> old(self).reader.remaining() >= 4 && magic_ok)
            }),
    {
        let magic = self.reader.read_bytes(4)?;
        if !(magic[0] == 0x66 && magic[1] == 0x4c && magic[2] == 0x61 && magic[3] == 0x43) {
            return parse_error("no fLaC tag Found");
        }
        let mut is_last = false;
        let mut info: Result<AudioInfo, Error> = parse_error("no stream_info block found");
        while !is_last
            invariant
                self.reader.wf(),
                self.reader.data@ == old(self).reader.data@,
                info matches Ok(i) ==> flac_info_wf(i),
            decreases self.reader.data@.len() - self.reader.pos, (if is_last {
                0int
            } else {
                1int
            }),
        {
            let ghost pos0 = self.reader.pos;
            let header_byte = self.reader.read_u8()?;
            // The first bit says whether this is the last block; the low
            // seven bits give the block type.
            is_last = header_byte / 128 == 1;
            let block_type = header_byte % 128;
            let metadata_length = self.reader.read_be_u24()?;
            if block_type == 0 {
                info = self.read_stream_info(metadata_length);
            } else if block_type == 127 {
                info = parse_error("invalid metadata block");
            } else {
                self.reader.skip_bytes(metadata_length as usize)?;
            }
            proof {
                if !is_last {
                    assert(self.reader.pos > pos0);
                }
            }
        }
        info
    }
}

/// A lazy, channel-interleaved iterator over a FLAC stream's samples.
pub struct FlacSamplesIterator<S: Sample> {
    /// The byte stream, taken over from the segment.
    pub reader: ByteReader,
    /// The stream descriptor the header produced.
    pub audio_info: AudioInfo,
    /// The most recently decoded block.
    pub current_block: Block,
    /// Index of the last yielded sample within the block.
    pub samples_read: u32,
    /// Channel of the last yielded sample.
    pub current_channel: u32,
    /// Set when decoding has failed; the iterator then stays exhausted.
    pub has_failed: bool,
    /// The output sample type.
    pub marker: core::marker::PhantomData<S>,
}

impl<S: Sample> FlacSamplesIterator<S> {
    /// The iterator's cursors stay inside the current block.
    pub open spec fn wf(self) -> bool {
        &&& self.reader.wf()
        &&& self.current_block.wf()
        &&& 1 <= self.audio_info.bits_per_sample <= 32
        &&& (self.current_block.no_channels > 0 ==> self.current_channel
            < self.current_block.no_channels && self.samples_read < self.current_block.block_size)
        &&& (self.current_block.no_channels == 0 ==> self.current_channel == 0
            && self.samples_read == 0 && self.current_block.block_size == 0)
    }

    /// Builds the iterator over a byte stream positioned at the first
    /// frame.
    pub fn new(reader: ByteReader, info: &AudioInfo) -> (r: FlacSamplesIterator<S>)
        requires
            reader.wf(),
            1 <= info.bits_per_sample <= 32,
        ensures
            r.wf(),
            !r.has_failed,
            r.reader == reader,
            r.audio_info == *info,
            r.current_block.no_channels == 0,
            r.samples_read == 0,
            r.current_channel == 0,
    {
        FlacSamplesIterator {
            reader,
            audio_info: *info,
            current_block: Block::empty(),
            samples_read: 0,
            current_channel: 0,
            has_failed: false,
            marker: core::marker::PhantomData,
        }
    }

    /// Yields the next channel-interleaved sample, `None` at the end of
    /// the stream.  After a decoding failure is reported once, the
    /// iterator reports end of stream forever.
    pub fn next(&mut self) -> (r: Option<Result<S, Error>>)
        requires
            old(self).wf(),
        ensures
            final(self).wf(),
            old(self).has_failed ==> r is None && *final(self) == *old(self),
            r matches Some(res) ==> (res matches Ok(v) ==> final(self).current_block.no_channels
                > 0 && v == S::of_i32(
                final(self).current_block.buffer@[final(self).current_channel
                    * final(self).current_block.block_size + final(self).samples_read],
            )),
            r matches Some(res) ==> (res matches Err(e) ==> final(self).has_failed
                || e.is_unsupported()),
            !old(self).has_failed && old(self).current_block.no_channels > 0 && old(
                self,
            ).current_channel + 1 < old(self).current_block.no_channels ==> {
                &&& final(self).current_channel == old(self).current_channel + 1
                &&& final(self).samples_read == old(self).samples_read
                &&& final(self).current_block == old(self).current_block
                &&& final(self).reader == old(self).reader
                &&& r is Some
            },
            !old(self).has_failed && old(self).current_block.no_channels > 0 && old(
                self,
            ).current_channel + 1 >= old(self).current_block.no_channels && old(self).samples_read
                + 1 < old(self).current_block.block_size ==> {
                &&& final(self).current_channel == 0
                &&& final(self).samples_read == old(self).samples_read + 1
                &&& final(self).current_block == old(self).current_block
                &&& final(self).reader == old(self).reader
                &&& r is Some
            },
            !old(self).has_failed && (old(self).current_block.no_channels == 0 || (old(
                self,
            ).current_channel + 1 >= old(self).current_block.no_channels && old(self).samples_read
                + 1 >= old(self).current_block.block_size)) && old(self).reader.remaining() < 2
                ==> r is None,
    {
        if self.has_failed {
            return None;
        }
        self.current_channel = self.current_channel + 1;
        if self.current_channel >= self.current_block.num_channels() {
            self.current_channel = 0;
            self.samples_read = self.samples_read + 1;
            if self.samples_read >= self.current_block.total_samples() {
                self.samples_read = 0;
                // Move the finished block's buffer into the next decode.
                let mut taken = Block::empty();
                core::mem::swap(&mut taken, &mut self.current_block);
                match decode_next_frame(&mut self.reader, taken.into_buffer(), &self.audio_info) {
                    Some(Ok(next_block)) => {
                        self.current_block = next_block;
                    },
                    Some(Err(error)) => {
                        self.has_failed = true;
                        return Some(Err(error));
                    },
                    None => {
                        return None;
                    },
                }
            }
        }
        Some(
            S::from_i32(
                self.current_block.get_sample(self.current_channel, self.samples_read),
                self.current_block.bits_per_sample(),
            ),
        )
    }
}

impl AudioReader for FlacReader {
    open spec fn reader_wf(&self) -> bool {
        self.reader.wf()
    }

    fn read_header(&mut self) -> (r: Result<AudioInfo, Error>) {
        FlacReader::read_header(self)
    }
}

impl<S: Sample> AudioSamplesIterator<S> for FlacSamplesIterator<S> {
    open spec fn iter_wf(&self) -> bool {
        self.wf()
    }

    fn next(&mut self) -> (r: Option<Result<S, Error>>) {
        FlacSamplesIterator::next(self)
    }
}

} // verus!
