//! Audio descriptors: channel masks, layouts and stream information.

use vstd::prelude::*;
use vstd::string::StringSliceAdditionalSpecFns;

use crate::bytes::{ByteReader, MAX_STREAM_LEN};
use crate::codecs::{CodecType, FormatFlag};
use crate::errors::{unsupported_error, Error};
use crate::flac::{flac_info_wf, FlacReader, FlacSamplesIterator};
use crate::mp3::{Mp3Reader, Mp3SamplesIterator};
use crate::sample::Sample;
use crate::wav::{wav_info_consistent, WavReader, WavSamplesIterator};

verus! {

/// The number of set bits in a value.
pub open spec fn popcount(x: nat) -> nat
    decreases x,
{
    if x == 0 {
        0
    } else {
        x % 2 + popcount(x / 2)
    }
}

/// Channels is a bit mask of all channels contained in a signal.
#[derive(PartialEq, Eq, Structural, Debug, Clone, Copy)]
pub struct Channels {
    /// The raw channel bit mask.
    pub bits: u32,
}

/// Mono channel.
pub const CHANNEL_FRONT_LEFT: u32 = 0x0000_0001;

/// Stereo channel.
pub const CHANNEL_FRONT_RIGHT: u32 = 0x0000_0002;

pub const CHANNEL_FRONT_CENTRE: u32 = 0x0000_0004;

pub const CHANNEL_BACK_LEFT: u32 = 0x0000_0008;

pub const CHANNEL_BACK_CENTRE: u32 = 0x0000_0010;

pub const CHANNEL_BACK_RIGHT: u32 = 0x0000_0020;

/// Low frequency channel 1.
pub const CHANNEL_LFE1: u32 = 0x0000_0040;

pub const CHANNEL_FRONT_LEFT_CENTRE: u32 = 0x0000_0080;

pub const CHANNEL_FRONT_RIGHT_CENTRE: u32 = 0x0000_0100;

pub const CHANNEL_BACK_LEFT_CENTRE: u32 = 0x0000_0200;

pub const CHANNEL_BACK_RIGHT_CENTRE: u32 = 0x0000_0400;

pub const CHANNEL_FRONT_LEFT_WIDE: u32 = 0x0000_0800;

pub const CHANNEL_FRONT_RIGHT_WIDE: u32 = 0x0000_1000;

pub const CHANNEL_FRONT_LEFT_HIGH: u32 = 0x0000_2000;

pub const CHANNEL_FRONT_CENTRE_HIGH: u32 = 0x0000_4000;

pub const CHANNEL_FRONT_RIGHT_HIGH: u32 = 0x0000_8000;

/// Low frequency channel 2.
pub const CHANNEL_LFE2: u32 = 0x0001_0000;

pub const CHANNEL_SIDE_LEFT: u32 = 0x0002_0000;

pub const CHANNEL_SIDE_RIGHT: u32 = 0x0004_0000;

pub const CHANNEL_TOP_CENTRE: u32 = 0x0008_0000;

pub const CHANNEL_TOP_FRONT_LEFT: u32 = 0x0010_0000;

pub const CHANNEL_TOP_FRONT_CENTRE: u32 = 0x0020_0000;

pub const CHANNEL_TOP_FRONT_RIGHT: u32 = 0x0040_0000;

pub const CHANNEL_TOP_BACK_LEFT: u32 = 0x0080_0000;

pub const CHANNEL_TOP_BACK_CENTRE: u32 = 0x0100_0000;

pub const CHANNEL_TOP_BACK_RIGHT: u32 = 0x0200_0000;

impl Channels {
    /// The empty channel mask.
    pub fn empty() -> (r: Channels)
        ensures
            r.bits == 0,
    {
        Channels { bits: 0 }
    }

    /// Builds a mask from its raw bits.
    pub fn from_bits(bits: u32) -> (r: Channels)
        ensures
            r.bits == bits,
    {
        Channels { bits }
    }

    /// Gets the number of channels.
    pub fn count(self) -> (r: usize)
        ensures
            r == popcount(self.bits as nat),
            r <= 32,
    {
        let mut v: u32 = self.bits;
        let mut c: usize = 0;
        proof {
            vstd::arithmetic::power2::lemma2_to64();
            vstd::arithmetic::power2::lemma2_to64_rest();
            lemma_popcount_bound(self.bits as nat, 32);
        }
        while v > 0
            invariant
                c + popcount(v as nat) == popcount(self.bits as nat),
                c <= 32,
                popcount(v as nat) + c <= 32,
            decreases v,
        {
            c = c + (v % 2) as usize;
            v = v / 2;
        }
        c
    }
}

/// The set bits of an `n`-bit value number at most `n`.
pub proof fn lemma_popcount_bound(x: nat, n: nat)
    requires
        x < vstd::arithmetic::power2::pow2(n),
    ensures
        popcount(x) <= n,
    decreases n,
{
    vstd::arithmetic::power2::lemma2_to64();
    if n == 0 {
        assert(x == 0);
    } else if x == 0 {
    } else {
        vstd::arithmetic::power2::lemma_pow2_unfold(n);
        lemma_popcount_bound(x / 2, (n - 1) as nat);
    }
}

/// `ChannelLayout` describes common audio channel configurations.
#[derive(PartialEq, Eq, Structural, Debug, Clone, Copy)]
pub enum ChannelLayout {
    /// single channel stream
    Mono,
    /// dual channel stream, corresponds with Left and Right
    Stereo,
    /// apart from dual channel, also contains LFE channel for bass effects
    TwoPointOne,
    /// front channel sound - FL + FR + FC
    ThreePointZero,
    /// four channel sound, uses four surrounding directions for speakers
    Quad,
    /// full surround sound
    FivePointZero,
    /// 5.1 surround sound with one LFE Channel
    FivePointOne,
    /// surround sound with more focus on front speakers
    SixPointOne,
    /// surround sound with more focus on back speakers
    SixPointOneBack,
    /// 7.1 surround sound - for theaters and home cinema
    SevenPointOne,
}

/// The channel mask a layout stands for.
pub open spec fn spec_layout_mask(layout: ChannelLayout) -> u32 {
    match layout {
        ChannelLayout::Mono => 0x0000_0001,
        ChannelLayout::Stereo => 0x0000_0003,
        ChannelLayout::TwoPointOne => 0x0000_0043,
        ChannelLayout::ThreePointZero => 0x0000_0007,
        ChannelLayout::Quad => 0x0000_002b,
        ChannelLayout::FivePointZero => 0x0000_002f,
        ChannelLayout::FivePointOne => 0x0000_006f,
        ChannelLayout::SixPointOne => 0x0006_0057,
        ChannelLayout::SixPointOneBack => 0x0000_007f,
        ChannelLayout::SevenPointOne => 0x0006_006f,
    }
}

/// How many channels a layout names.
pub open spec fn spec_channel_count(layout: ChannelLayout) -> nat {
    match layout {
        ChannelLayout::Mono => 1,
        ChannelLayout::Stereo => 2,
        ChannelLayout::TwoPointOne => 3,
        ChannelLayout::ThreePointZero => 3,
        ChannelLayout::Quad => 4,
        ChannelLayout::FivePointZero => 5,
        ChannelLayout::FivePointOne => 6,
        ChannelLayout::SixPointOne => 7,
        ChannelLayout::SixPointOneBack => 7,
        ChannelLayout::SevenPointOne => 8,
    }
}

/// A layout's mask has exactly as many set bits as the layout names
/// channels.
#[verifier::rlimit(100)]
#[verifier::spinoff_prover]
pub proof fn lemma_layout_popcount(layout: ChannelLayout)
    ensures
        popcount(spec_layout_mask(layout) as nat) == spec_channel_count(layout),
{
    match layout {
        ChannelLayout::Mono => {
            assert(popcount(0x0000_0001 as nat) == 1) by {
                reveal_with_fuel(popcount, 34);
            }
        },
        ChannelLayout::Stereo => {
            assert(popcount(0x0000_0003 as nat) == 2) by {
                reveal_with_fuel(popcount, 34);
            }
        },
        ChannelLayout::TwoPointOne => {
            assert(popcount(0x0000_0043 as nat) == 3) by {
                reveal_with_fuel(popcount, 34);
            }
        },
        ChannelLayout::ThreePointZero => {
            assert(popcount(0x0000_0007 as nat) == 3) by {
                reveal_with_fuel(popcount, 34);
            }
        },
        ChannelLayout::Quad => {
            assert(popcount(0x0000_002b as nat) == 4) by {
                reveal_with_fuel(popcount, 34);
            }
        },
        ChannelLayout::FivePointZero => {
            assert(popcount(0x0000_002f as nat) == 5) by {
                reveal_with_fuel(popcount, 34);
            }
        },
        ChannelLayout::FivePointOne => {
            assert(popcount(0x0000_006f as nat) == 6) by {
                reveal_with_fuel(popcount, 34);
            }
        },
        ChannelLayout::SixPointOne => {
            assert(popcount(0x0006_0057 as nat) == 7) by {
                reveal_with_fuel(popcount, 34);
            }
        },
        ChannelLayout::SixPointOneBack => {
            assert(popcount(0x0000_007f as nat) == 7) by {
                reveal_with_fuel(popcount, 34);
            }
        },
        ChannelLayout::SevenPointOne => {
            assert(popcount(0x0006_006f as nat) == 8) by {
                reveal_with_fuel(popcount, 34);
            }
        },
    }
}

impl ChannelLayout {
    /// Converts a `ChannelLayout` into a `Channels` bit mask.
    pub fn into_channels(self) -> (r: Channels)
        ensures
            r.bits == spec_layout_mask(self),
            popcount(r.bits as nat) == spec_channel_count(self),
    {
        proof {
            lemma_layout_popcount(self);
            assert(0x0000_0001u32 | 0x0000_0002 == 0x0000_0003) by (bit_vector);
            assert(0x0000_0001u32 | 0x0000_0002 | 0x0000_0040 == 0x0000_0043) by (bit_vector);
            assert(0x0000_0001u32 | 0x0000_0002 | 0x0000_0004 == 0x0000_0007) by (bit_vector);
            assert(0x0000_0001u32 | 0x0000_0002 | 0x0000_0008 | 0x0000_0020
                == 0x0000_002b) by (bit_vector);
            assert(0x0000_0001u32 | 0x0000_0002 | 0x0000_0004 | 0x0000_0008 | 0x0000_0020
                == 0x0000_002f) by (bit_vector);
            assert(0x0000_0001u32 | 0x0000_0002 | 0x0000_0004 | 0x0000_0040 | 0x0000_0008
                | 0x0000_0020 == 0x0000_006f) by (bit_vector);
            assert(0x0000_0001u32 | 0x0000_0002 | 0x0000_0004 | 0x0000_0040 | 0x0000_0010
                | 0x0002_0000 | 0x0004_0000 == 0x0006_0057) by (bit_vector);
            assert(0x0000_0001u32 | 0x0000_0002 | 0x0000_0004 | 0x0000_0040 | 0x0000_0010
                | 0x0000_0008 | 0x0000_0020 == 0x0000_007f) by (bit_vector);
            assert(0x0000_0001u32 | 0x0000_0002 | 0x0000_0004 | 0x0000_0040 | 0x0000_0008
                | 0x0000_0020 | 0x0002_0000 | 0x0004_0000 == 0x0006_006f) by (bit_vector);
        }
        match self {
            ChannelLayout::Mono => Channels { bits: CHANNEL_FRONT_LEFT },
            ChannelLayout::Stereo => Channels { bits: CHANNEL_FRONT_LEFT | CHANNEL_FRONT_RIGHT },
            ChannelLayout::TwoPointOne => Channels {
                bits: CHANNEL_FRONT_LEFT | CHANNEL_FRONT_RIGHT | CHANNEL_LFE1,
            },
            ChannelLayout::ThreePointZero => Channels {
                bits: CHANNEL_FRONT_LEFT | CHANNEL_FRONT_RIGHT | CHANNEL_FRONT_CENTRE,
            },
            ChannelLayout::Quad => Channels {
                bits: CHANNEL_FRONT_LEFT | CHANNEL_FRONT_RIGHT | CHANNEL_BACK_LEFT
                    | CHANNEL_BACK_RIGHT,
            },
            ChannelLayout::FivePointZero => Channels {
                bits: CHANNEL_FRONT_LEFT | CHANNEL_FRONT_RIGHT | CHANNEL_FRONT_CENTRE
                    | CHANNEL_BACK_LEFT | CHANNEL_BACK_RIGHT,
            },
            ChannelLayout::FivePointOne => Channels {
                bits: CHANNEL_FRONT_LEFT | CHANNEL_FRONT_RIGHT | CHANNEL_FRONT_CENTRE
                    | CHANNEL_LFE1 | CHANNEL_BACK_LEFT | CHANNEL_BACK_RIGHT,
            },
            ChannelLayout::SixPointOne => Channels {
                bits: CHANNEL_FRONT_LEFT | CHANNEL_FRONT_RIGHT | CHANNEL_FRONT_CENTRE
                    | CHANNEL_LFE1 | CHANNEL_BACK_CENTRE | CHANNEL_SIDE_LEFT
                    | CHANNEL_SIDE_RIGHT,
            },
            ChannelLayout::SixPointOneBack => Channels {
                bits: CHANNEL_FRONT_LEFT | CHANNEL_FRONT_RIGHT | CHANNEL_FRONT_CENTRE
                    | CHANNEL_LFE1 | CHANNEL_BACK_CENTRE | CHANNEL_BACK_LEFT
                    | CHANNEL_BACK_RIGHT,
            },
            ChannelLayout::SevenPointOne => Channels {
                bits: CHANNEL_FRONT_LEFT | CHANNEL_FRONT_RIGHT | CHANNEL_FRONT_CENTRE
                    | CHANNEL_LFE1 | CHANNEL_BACK_LEFT | CHANNEL_BACK_RIGHT
                    | CHANNEL_SIDE_LEFT | CHANNEL_SIDE_RIGHT,
            },
        }
    }
}

/// A container demuxer: something that can read its container's header
/// into a stream descriptor.
pub trait AudioReader {
    /// The reader's input stream is in a usable state.
    spec fn reader_wf(&self) -> bool;

    /// Reads the container header and builds the stream descriptor.
    fn read_header(&mut self) -> (r: Result<AudioInfo, Error>)
        requires
            old(self).reader_wf(),
        ensures
            final(self).reader_wf(),
    ;
}

/// A lazy iterator over decoded samples.
pub trait AudioSamplesIterator<S: Sample> {
    /// The iterator's cursors are in a usable state.
    spec fn iter_wf(&self) -> bool;

    /// Yields the next sample, or `None` at the end of the stream.
    fn next(&mut self) -> (r: Option<Result<S, Error>>)
        requires
            old(self).iter_wf(),
        ensures
            final(self).iter_wf(),
    ;
}

/// AudioInfo stored in a container format's headers and metadata.
#[derive(Debug, Clone, Copy)]
pub struct AudioInfo {
    /// Codec of the audio.
    pub codec_type: CodecType,
    /// The sample rate of the audio in Hz.
    pub sample_rate: u32,
    /// The length of the encoded stream in number of samples, counted
    /// over all channels.
    pub total_samples: u64,
    /// The number of bits per one decoded audio sample.
    pub bits_per_sample: u32,
    /// A bit mask of the channels present.
    pub channels: Channels,
    /// The channel layout.
    pub channel_layout: ChannelLayout,
}

/// The container reader a segment drives.
pub enum ContainerReader {
    /// A WAV/RIFF reader.
    Wav(Box<WavReader>),
    /// A FLAC reader.
    Flac(Box<FlacReader>),
    /// An MP3 reader.
    Mp3(Box<Mp3Reader>),
}

/// The single-use sample iterator a segment hands out.
pub enum SampleIterator<S: Sample> {
    /// Direct PCM streaming out of a WAV data chunk.
    Wav(WavSamplesIterator<S>),
    /// Frame-by-frame FLAC decoding.
    Flac(FlacSamplesIterator<S>),
    /// MP3 frame parsing without synthesis.
    Mp3(Mp3SamplesIterator<S>),
}

impl<S: Sample> SampleIterator<S> {
    /// The wrapped iterator is in a usable state.
    pub open spec fn wf(self) -> bool {
        match self {
            SampleIterator::Wav(it) => it.reader.wf(),
            SampleIterator::Flac(it) => it.wf(),
            SampleIterator::Mp3(it) => it.wf(),
        }
    }

    /// Yields the next channel-interleaved sample, or `None` at the end
    /// of the stream.
    pub fn next(&mut self) -> (r: Option<Result<S, Error>>)
        requires
            old(self).wf(),
        ensures
            final(self).wf(),
            *old(self) matches SampleIterator::Wav(w0) ==> (*final(self) matches
                SampleIterator::Wav(w1) && {
                &&& (w0.samples_left == 0 ==> r is None && w1 == w0)
                &&& (w0.samples_left > 0 ==> {
                    &&& w1.samples_left == w0.samples_left - 1
                    &&& w1.codec == w0.codec
                    &&& (S::readable_codec(w0.codec) && w0.reader.remaining() >= S::codec_width(
                        w0.codec,
                    ) ==> r == Some(
                        Result::<S, Error>::Ok(
                            S::decode_codec(
                                w0.codec,
                                w0.reader.data@.subrange(
                                    w0.reader.pos as int,
                                    w0.reader.pos + S::codec_width(w0.codec),
                                ),
                            ),
                        ),
                    ))
                    &&& (!S::readable_codec(w0.codec) ==> (r matches Some(res)
                        && res matches Err(e) && e.is_unsupported()))
                    &&& (S::readable_codec(w0.codec) && w0.reader.remaining() < S::codec_width(
                        w0.codec,
                    ) ==> (r matches Some(res) && res matches Err(e) && e.is_io()))
                })
            }),
            *old(self) matches SampleIterator::Flac(f0) ==> (*final(self) matches
                SampleIterator::Flac(f1) && (f0.has_failed ==> r is None && f1 == f0)),
            *old(self) matches SampleIterator::Mp3(m0) ==> (*final(self) matches
                SampleIterator::Mp3(m1) && (m0.has_failed ==> r is None && m1 == m0)),
    {
        match self {
            SampleIterator::Wav(it) => it.next(),
            SampleIterator::Flac(it) => it.next(),
            SampleIterator::Mp3(it) => it.next(),
        }
    }
}

/// Where the extension of a file name starts: just after the last dot,
/// or the name's beginning when it holds no dot.
pub open spec fn spec_ext_start(s: Seq<u8>) -> int
    decreases s.len(),
{
    if s.len() == 0 {
        0
    } else if s[s.len() - 1] == 0x2e {
        s.len() as int
    } else {
        spec_ext_start(s.drop_last())
    }
}

/// The extension of a file name, in bytes.
pub open spec fn spec_extension(s: Seq<u8>) -> Seq<u8> {
    s.subrange(spec_ext_start(s), s.len() as int)
}

/// The extension's start lies inside the name.
pub proof fn lemma_ext_start_bounds(s: Seq<u8>)
    ensures
        0 <= spec_ext_start(s) <= s.len(),
    decreases s.len(),
{
    if s.len() > 0 && s[s.len() - 1] != 0x2e {
        lemma_ext_start_bounds(s.drop_last());
    }
}

/// The format flag a file extension names, if any.
pub open spec fn spec_flag_of_extension(e: Seq<u8>) -> Option<FormatFlag> {
    if e == seq![0x77u8, 0x61u8, 0x76u8] {
        Some(FormatFlag::WAV)
    } else if e == seq![0x66u8, 0x6cu8, 0x61u8, 0x63u8] {
        Some(FormatFlag::FLAC)
    } else if e == seq![0x6du8, 0x70u8, 0x33u8] {
        Some(FormatFlag::MP3)
    } else if e == seq![0x61u8, 0x61u8, 0x63u8] {
        Some(FormatFlag::AAC)
    } else if e == seq![0x6fu8, 0x67u8, 0x67u8] {
        Some(FormatFlag::VORBIS)
    } else if e == seq![0x72u8, 0x61u8, 0x77u8] {
        Some(FormatFlag::PCM)
    } else if e == seq![0x70u8, 0x63u8, 0x6du8] {
        Some(FormatFlag::PCM)
    } else {
        None
    }
}

/// `AudioSegment` is handed to the user to inspect a stream and pull
/// its decoded samples.
pub struct AudioSegment {
    /// The format the segment was opened as.
    pub codec_flag: FormatFlag,
    /// The descriptor the container header produced.
    pub info: AudioInfo,
    /// The container reader.
    pub reader: ContainerReader,
    /// Set once a sample iterator has been handed out.
    pub is_buffer_used: bool,
}

impl AudioSegment {
    /// The reader matches the flag, its stream is usable, and a FLAC
    /// descriptor keeps the format's bounds.
    pub open spec fn wf(self) -> bool {
        &&& (self.codec_flag == FormatFlag::WAV <==> self.reader is Wav)
        &&& (self.codec_flag == FormatFlag::FLAC <==> self.reader is Flac)
        &&& (self.codec_flag == FormatFlag::MP3 <==> self.reader is Mp3)
        &&& (match self.reader {
            ContainerReader::Wav(w) => w.reader.wf(),
            ContainerReader::Flac(f) => f.reader.wf(),
            ContainerReader::Mp3(m) => m.reader.wf(),
        })
        &&& (self.codec_flag == FormatFlag::WAV ==> wav_info_consistent(self.info)
            && self.info.bits_per_sample >= 8)
        &&& (self.codec_flag == FormatFlag::FLAC ==> flac_info_wf(self.info))
        &&& (self.codec_flag == FormatFlag::FLAC ==> 1 <= self.info.bits_per_sample <= 32)
        &&& (self.codec_flag == FormatFlag::MP3 ==> self.info.codec_type
            == CodecType::CODEC_TYPE_MP3)
    }

    /// Derives the format flag from a file name's extension.
    #[verifier::loop_isolation(false)]
    pub fn get_format_flag(filename: &str) -> (r: Result<FormatFlag, Error>)
        ensures
            r == (match spec_flag_of_extension(spec_extension(filename.spec_bytes())) {
                Some(f) => Result::<FormatFlag, Error>::Ok(f),
                None => Result::<FormatFlag, Error>::Err(
                    Error::Unsupported("no decoder flag found for given file"),
                ),
            }),
    {
        let bytes = filename.as_bytes();
        let ghost s = filename.spec_bytes();
        let n = bytes.len();
        proof {
            lemma_ext_start_bounds(s);
        }
        let mut i: usize = n;
        let mut es: usize = 0;
        proof {
            assert(s.take(n as int) =~= s);
        }
        loop
            invariant
                i <= n,
                n == s.len(),
                bytes@ == s,
                spec_ext_start(s) == spec_ext_start(s.take(i as int)),
            decreases i,
        {
            if i == 0 {
                proof {
                    assert(s.take(0) =~= Seq::<u8>::empty());
                }
                es = 0;
                break;
            }
            if bytes[i - 1] == 0x2e {
                proof {
                    assert(s.take(i as int).len() == i);
                    assert(s.take(i as int)[i - 1] == s[i - 1]);
                }
                es = i;
                break;
            }
            proof {
                assert(s.take(i as int)[i - 1] == s[i - 1]);
                assert(s.take(i as int).drop_last() =~= s.take(i - 1));
            }
            i = i - 1;
        }
        let ext_len = n - es;
        let ghost e = spec_extension(s);
        proof {
            assert(e.len() == n - es);
        }
        if ext_len == 3 {
            let b0 = bytes[es];
            let b1 = bytes[es + 1];
            let b2 = bytes[es + 2];
            proof {
                assert(e[0] == s[es as int] && e[1] == s[es + 1] && e[2] == s[es + 2]);
            }
            if b0 == 0x77 && b1 == 0x61 && b2 == 0x76 {
                proof {
                    assert(e =~= seq![0x77u8, 0x61u8, 0x76u8]);
                }
                return Ok(FormatFlag::WAV);
            }
            if b0 == 0x6d && b1 == 0x70 && b2 == 0x33 {
                proof {
                    assert(e =~= seq![0x6du8, 0x70u8, 0x33u8]);
                }
                return Ok(FormatFlag::MP3);
            }
            if b0 == 0x61 && b1 == 0x61 && b2 == 0x63 {
                proof {
                    assert(e =~= seq![0x61u8, 0x61u8, 0x63u8]);
                }
                return Ok(FormatFlag::AAC);
            }
            if b0 == 0x6f && b1 == 0x67 && b2 == 0x67 {
                proof {
                    assert(e =~= seq![0x6fu8, 0x67u8, 0x67u8]);
                }
                return Ok(FormatFlag::VORBIS);
            }
            if b0 == 0x72 && b1 == 0x61 && b2 == 0x77 {
                proof {
                    assert(e =~= seq![0x72u8, 0x61u8, 0x77u8]);
                }
                return Ok(FormatFlag::PCM);
            }
            if b0 == 0x70 && b1 == 0x63 && b2 == 0x6d {
                proof {
                    assert(e =~= seq![0x70u8, 0x63u8, 0x6du8]);
                }
                return Ok(FormatFlag::PCM);
            }
            return unsupported_error("no decoder flag found for given file");
        }
        if ext_len == 4 {
            let b0 = bytes[es];
            let b1 = bytes[es + 1];
            let b2 = bytes[es + 2];
            let b3 = bytes[es + 3];
            proof {
                assert(e[0] == s[es as int] && e[1] == s[es + 1] && e[2] == s[es + 2] && e[3]
                    == s[es + 3]);
            }
            if b0 == 0x66 && b1 == 0x6c && b2 == 0x61 && b3 == 0x63 {
                proof {
                    assert(e =~= seq![0x66u8, 0x6cu8, 0x61u8, 0x63u8]);
                }
                return Ok(FormatFlag::FLAC);
            }
            return unsupported_error("no decoder flag found for given file");
        }
        unsupported_error("no decoder flag found for given file")
    }

    /// Opens a stream of known format.
    fn create_audio_segment(input: ByteReader, format_flag: FormatFlag) -> (r: Result<
        AudioSegment,
        Error,
    >)
        requires
            input.wf(),
        ensures
            !(format_flag == FormatFlag::WAV || format_flag == FormatFlag::FLAC || format_flag
                == FormatFlag::MP3) ==> r == Result::<AudioSegment, Error>::Err(
                Error::Unsupported("Codec flag not supported"),
            ),
            r matches Ok(s) ==> s.wf() && !s.is_buffer_used && s.codec_flag == format_flag,
    {
        if format_flag == FormatFlag::WAV {
            let mut reader = WavReader::new(input)?;
            let info = reader.read_header()?;
            Ok(
                AudioSegment {
                    codec_flag: format_flag,
                    info,
                    reader: ContainerReader::Wav(reader),
                    is_buffer_used: false,
                },
            )
        } else if format_flag == FormatFlag::FLAC {
            let mut reader = FlacReader::new(input)?;
            let info = reader.read_header()?;
            Ok(
                AudioSegment {
                    codec_flag: format_flag,
                    info,
                    reader: ContainerReader::Flac(reader),
                    is_buffer_used: false,
                },
            )
        } else if format_flag == FormatFlag::MP3 {
            let mut reader = Mp3Reader::new(input)?;
            let info = reader.read_header()?;
            Ok(
                AudioSegment {
                    codec_flag: format_flag,
                    info,
                    reader: ContainerReader::Mp3(reader),
                    is_buffer_used: false,
                },
            )
        } else {
            unsupported_error("Codec flag not supported")
        }
    }

    /// Opens an audio stream held in memory, using the given format
    /// flag irrespective of any file name.
    pub fn read_with_format(data: Vec<u8>, flag: FormatFlag) -> (r: Result<AudioSegment, Error>)
        ensures
            data@.len() > MAX_STREAM_LEN ==> (r matches Err(e) && e.is_unsupported()),
            data@.len() <= MAX_STREAM_LEN && !(flag == FormatFlag::WAV || flag == FormatFlag::FLAC
                || flag == FormatFlag::MP3) ==> r == Result::<AudioSegment, Error>::Err(
                Error::Unsupported("Codec flag not supported"),
            ),
            r matches Ok(s) ==> s.wf() && !s.is_buffer_used && s.codec_flag == flag,
    {
        let input = ByteReader::new(data)?;
        AudioSegment::create_audio_segment(input, flag)
    }

    /// Opens an audio stream held in memory, deriving the format from
    /// the file name's extension.
    pub fn read(filename: &str, data: Vec<u8>) -> (r: Result<AudioSegment, Error>)
        ensures
            spec_flag_of_extension(spec_extension(filename.spec_bytes())) is None ==> r
                == Result::<AudioSegment, Error>::Err(
                Error::Unsupported("no decoder flag found for given file"),
            ),
            r matches Ok(s) ==> s.wf() && !s.is_buffer_used && Some(s.codec_flag)
                == spec_flag_of_extension(spec_extension(filename.spec_bytes())),
    {
        let flag = AudioSegment::get_format_flag(filename)?;
        AudioSegment::read_with_format(data, flag)
    }

    /// Returns the stream descriptor.
    pub fn info(&self) -> (r: &AudioInfo)
        ensures
            *r == self.info,
    {
        &self.info
    }

    /// Returns the number of channels in the audio.
    pub fn number_channels(&self) -> (r: usize)
        ensures
            r == popcount(self.info.channels.bits as nat),
            r <= 32,
    {
        self.info.channels.count()
    }

    /// Returns the bit rate of the audio in kbps, wrapped to 32 bits.
    pub fn bitrate(&self) -> (r: u32)
        ensures
            r == ((self.info.sample_rate / 1000) * self.info.bits_per_sample * popcount(
                self.info.channels.bits as nat,
            )) % 0x1_0000_0000,
    {
        let nch = self.number_channels() as u64;
        proof {
            let q = (self.info.sample_rate / 1000) as int;
            let b = self.info.bits_per_sample as int;
            assert(0 <= q * b < 0x1_0000_0000_0000_0000) by (nonlinear_arith)
                requires
                    0 <= q < 0x1_0000_0000,
                    0 <= b < 0x1_0000_0000,
            ;
        }
        let p: u64 = (self.info.sample_rate / 1000) as u64 * self.info.bits_per_sample as u64;
        proof {
            let pm = (p as int) % 0x1_0000_0000;
            let n = nch as int;
            assert(0 <= pm * n < 0x1_0000_0000_0000_0000) by (nonlinear_arith)
                requires
                    0 <= pm < 0x1_0000_0000,
                    0 <= n <= 32,
            ;
            vstd::arithmetic::div_mod::lemma_mod_bound(p as int, 0x1_0000_0000);
            vstd::arithmetic::div_mod::lemma_mul_mod_noop_left(p as int, n, 0x1_0000_0000);
        }
        let p2: u64 = (p % 0x1_0000_0000) * nch;
        (p2 % 0x1_0000_0000) as u32
    }

    /// Returns the single-use channel-interleaved sample iterator.
    /// Asking a second time is refused.
    pub fn samples<S: Sample>(&mut self) -> (r: Result<SampleIterator<S>, Error>)
        requires
            old(self).wf(),
        ensures
            final(self).wf(),
            old(self).is_buffer_used ==> r == Result::<SampleIterator<S>, Error>::Err(
                Error::Unsupported("requesting iterator again"),
            ) && *final(self) == *old(self),
            !old(self).is_buffer_used ==> final(self).is_buffer_used && (r matches Ok(it)
                && it.wf()),
    {
        if self.is_buffer_used {
            return unsupported_error("requesting iterator again");
        }
        self.is_buffer_used = true;
        let mut taken = ByteReader { data: Vec::new(), pos: 0, crc8: 0, crc16: 0 };
        match &mut self.reader {
            ContainerReader::Wav(w) => {
                core::mem::swap(&mut taken, &mut w.reader);
                Ok(SampleIterator::Wav(WavSamplesIterator::new(taken, &self.info)))
            },
            ContainerReader::Flac(f) => {
                core::mem::swap(&mut taken, &mut f.reader);
                Ok(SampleIterator::Flac(FlacSamplesIterator::new(taken, &self.info)))
            },
            ContainerReader::Mp3(m) => {
                core::mem::swap(&mut taken, &mut m.reader);
                Ok(SampleIterator::Mp3(Mp3SamplesIterator::new(taken)))
            },
        }
    }
}

} // verus!
