//! MP3 frame-header and side-information data types.

use vstd::prelude::*;

verus! {

/// The MPEG audio version.
#[derive(PartialEq, Eq, Structural, Copy, Clone, Debug)]
pub enum MPEGVersion {
    /// Version 2.5
    MPEG2p5,
    /// Version 2
    MPEG2,
    /// Version 1
    MPEG1,
}

/// The channel mode.
#[derive(PartialEq, Eq, Structural, Copy, Clone, Debug)]
pub enum ChannelMode {
    /// Single mono audio channel.
    Mono,
    /// Dual mono audio channels.
    DualMono,
    /// Stereo channels.
    Stereo,
    /// Joint stereo encoded channels (decodes to stereo).
    JointStereo {
        /// Mid-side coding present.
        mid_side: bool,
        /// Intensity coding present.
        intensity: bool,
    },
}

/// The emphasis applied during encoding.
#[derive(PartialEq, Eq, Structural, Copy, Clone, Debug)]
pub enum Emphasis {
    /// No emphasis
    NoEmphasis,
    /// 50/15us
    Fifty15,
    /// CCIT J.17
    CcitJ17,
}

/// A parsed MP3 frame header.
pub struct FrameHeader {
    /// MPEG version of this frame.
    pub version: MPEGVersion,
    /// Number of bits per second.
    pub bitrate: u32,
    /// Number of decoded samples per second.
    pub sample_rate: u32,
    /// The channel mode.
    pub channel_mode: ChannelMode,
    /// The emphasis applied while encoding.
    pub emphasis: Emphasis,
    /// Whether one padding byte follows the header.
    pub has_padding: bool,
    /// Size of the compressed frame data in bytes.
    pub frame_size: usize,
    /// The frame CRC, when present.
    pub crc: Option<u16>,
}

impl FrameHeader {
    /// The number of channels this frame decodes to.
    pub fn num_channels(&self) -> (r: usize)
        ensures
            self.channel_mode == ChannelMode::Mono ==> r == 1,
            self.channel_mode != ChannelMode::Mono ==> r == 2,
    {
        if self.channel_mode == ChannelMode::Mono {
            1
        } else {
            2
        }
    }

    /// How many bytes of side information follow the header.
    pub fn side_data_len(&self) -> (r: usize)
        ensures
            self.channel_mode == ChannelMode::Mono && self.version != MPEGVersion::MPEG1 ==> r
                == 9,
            self.channel_mode != ChannelMode::Mono && self.version == MPEGVersion::MPEG1 ==> r
                == 32,
            (self.channel_mode == ChannelMode::Mono) == (self.version == MPEGVersion::MPEG1)
                ==> r == 17,
    {
        if self.channel_mode == ChannelMode::Mono && self.version != MPEGVersion::MPEG1 {
            9
        } else if self.channel_mode != ChannelMode::Mono && self.version == MPEGVersion::MPEG1 {
            32
        } else {
            17
        }
    }

    /// How many granules the frame carries.
    pub fn num_granules(&self) -> (r: usize)
        ensures
            self.version == MPEGVersion::MPEG1 ==> r == 2,
            self.version != MPEGVersion::MPEG1 ==> r == 1,
    {
        if self.version == MPEGVersion::MPEG1 {
            2
        } else {
            1
        }
    }

    /// Whether the joint stereo mode carries intensity coding.
    pub fn is_intensity_stereo(&self) -> (r: bool)
        ensures
            r == (self.channel_mode matches ChannelMode::JointStereo { intensity: true, .. }),
    {
        match self.channel_mode {
            ChannelMode::JointStereo { intensity: true, .. } => true,
            _ => false,
        }
    }
}

/// The window type of a granule.
#[derive(PartialEq, Eq, Structural, Debug, Copy, Clone)]
pub enum BlockType {
    /// A long block.
    Long,
    /// A long-to-short transition block.
    Start,
    /// Three short blocks; when mixed, the two lowest sub-bands keep
    /// the long window.
    Short {
        /// Whether the lowest sub-bands stay long.
        is_mixed: bool,
    },
    /// A short-to-long transition block.
    End,
}

/// Side information of one channel within one granule.
pub struct GranuleChannel {
    /// Bits used for scale factors and Huffman data.
    pub part2_3_length: u16,
    /// The number of samples in the big-values partition, at most 288.
    pub big_values: u16,
    /// Logarithmic quantization step size.
    pub global_gain: u8,
    /// Bits used for the transmission of scale factors.
    pub scalefac_compress_len: u16,
    /// The window type of this granule.
    pub block_type: BlockType,
    /// Gain offsets from the global gain for each short block.
    pub subblock_gain: [u8; 3],
    /// The Huffman table for each region of the big-values partition.
    pub table_select: [u8; 3],
    /// The number of scale-factor bands in region 0.
    pub region0_count: u8,
    /// The number of scale-factor bands in region 1.
    pub region1_count: u8,
    /// Whether pre-emphasis is added before re-quantization.
    pub preflag: bool,
    /// A 0.5x (false) or 1x (true) multiplier for scale factors.
    pub scalefac_scale: bool,
    /// Which of two Huffman tables decodes the count1 region.
    pub count1table_select: bool,
    /// Long and short window scale factor bands.
    pub scalefacs: [u8; 39],
    /// The starting sample index of the rzero partition.
    pub rzero: usize,
}

impl Default for GranuleChannel {
    /// The all-zero side information of a silent channel.
    fn default() -> (r: GranuleChannel)
        ensures
            r.part2_3_length == 0,
            r.big_values == 0,
            r.block_type == BlockType::Long,
            r.rzero == 0,
    {
        GranuleChannel {
            part2_3_length: 0,
            big_values: 0,
            global_gain: 0,
            scalefac_compress_len: 0,
            block_type: BlockType::Long,
            subblock_gain: [0;3],
            table_select: [0;3],
            region0_count: 0,
            region1_count: 0,
            preflag: false,
            scalefac_scale: false,
            count1table_select: false,
            scalefacs: [0;39],
            rzero: 0,
        }
    }
}

/// Side information of one granule.
pub struct Granule {
    /// Per-channel side information.
    pub channels: [GranuleChannel; 2],
}

/// The decoded side information of one frame.
pub struct FrameInfo {
    /// Offset from which main data starts, possibly in earlier frames.
    pub main_data_begin: u16,
    /// Scale factor selection information.
    pub scfsi: [[bool; 4]; 2],
    /// The frame's granules.
    pub granules: [Granule; 2],
}

} // verus!
