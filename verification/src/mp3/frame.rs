//! MP3 frame parsing: synchronization, the frame header, and the
//! side-information section.  The synthesis filter bank is absent, so
//! frames carry no sample data.

use vstd::prelude::*;
use vstd::arithmetic::div_mod::{lemma_div_is_ordered, lemma_div_multiples_vanish};

use crate::bits::BitStream;
use crate::bytes::ByteReader;
use crate::errors::{parse_error, unsupported_error, Error};
use crate::mp3::types::{
    BlockType, ChannelMode, Emphasis, FrameHeader, FrameInfo, Granule, GranuleChannel, MPEGVersion,
};

verus! {

/// A decoded frame's shape.  With no synthesis filter there are no
/// samples to carry; the block only records its dimensions.
pub struct Block {
    /// Number of channel-independent samples in this block.
    pub block_size: u32,
    /// Number of channels in this block.
    pub no_channels: u32,
    /// Bits per sample of the would-be decoded output.
    pub bits_per_sample: u32,
}

impl Block {
    /// The empty block, used before the first frame is decoded.
    pub fn empty() -> (r: Block)
        ensures
            r.block_size == 0,
            r.no_channels == 0,
    {
        Block { block_size: 0, no_channels: 0, bits_per_sample: 0 }
    }

    /// The number of samples per channel in this block.
    pub fn total_samples(&self) -> (r: u32)
        ensures
            r == self.block_size,
    {
        self.block_size
    }

    /// The number of channels in this block.
    pub fn num_channels(&self) -> (r: u32)
        ensures
            r == self.no_channels,
    {
        self.no_channels
    }

    /// The bits per sample of this block.
    pub fn bits_per_sample(&self) -> (r: u32)
        ensures
            r == self.bits_per_sample,
    {
        self.bits_per_sample
    }
}

/// The bit reservoir carried between frames.
pub struct DecoderState {
    /// The reservoir buffer; always 2048 bytes.
    pub frame_buffer: Vec<u8>,
    /// How many bytes of the buffer are filled.
    pub frame_buffer_len: usize,
}

impl DecoderState {
    /// The reservoir keeps its fixed capacity.
    pub open spec fn wf(self) -> bool {
        self.frame_buffer@.len() == 2048 && self.frame_buffer_len <= 2048
    }

    /// An empty bit reservoir.
    pub fn new() -> (r: DecoderState)
        ensures
            r.wf(),
            r.frame_buffer_len == 0,
    {
        let mut buffer: Vec<u8> = Vec::new();
        let mut i: usize = 0;
        while i < 2048
            invariant
                buffer@.len() == i,
                i <= 2048,
            decreases 2048 - i,
        {
            buffer.push(0);
            i = i + 1;
        }
        DecoderState { frame_buffer: buffer, frame_buffer_len: 0 }
    }

    /// Slides the still-needed reservoir bytes to the front and appends
    /// this frame's main-data bytes.
    #[verifier::loop_isolation(false)]
    pub fn fill_reservoir_buffer(
        &mut self,
        input: &mut ByteReader,
        main_data_begin: usize,
        main_data_size: usize,
    ) -> (r: Result<(), Error>)
        requires
            old(self).wf(),
            old(input).wf(),
        ensures
            final(self).wf(),
            final(input).wf(),
            final(input).data@ == old(input).data@,
            main_data_begin + main_data_size > 2048 ==> r == Result::<(), Error>::Err(
                Error::ParseError("main_data length greater than reservoir buffer"),
            ),
            main_data_begin + main_data_size <= 2048 && main_data_begin > old(
                self,
            ).frame_buffer_len ==> r == Result::<(), Error>::Err(
                Error::ParseError("invalid main data begin offset"),
            ),
            r is Ok ==> final(self).frame_buffer_len == main_data_begin + main_data_size,
    {
        if main_data_begin > 2048 || main_data_size > 2048 {
            return parse_error("main_data length greater than reservoir buffer");
        }
        let main_data_actual_size = main_data_begin + main_data_size;
        if main_data_actual_size > 2048 {
            return parse_error("main_data length greater than reservoir buffer");
        }
        if main_data_begin > self.frame_buffer_len {
            return parse_error("invalid main data begin offset");
        }
        // Slide the last `main_data_begin` filled bytes to the front.
        let src_start = self.frame_buffer_len - main_data_begin;
        let mut i: usize = 0;
        while i < main_data_begin
            invariant
                i <= main_data_begin,
                main_data_begin <= self.frame_buffer_len <= 2048,
                src_start == self.frame_buffer_len - main_data_begin,
                self.frame_buffer@.len() == 2048,
            decreases main_data_begin - i,
        {
            let b = self.frame_buffer[src_start + i];
            self.frame_buffer[i] = b;
            i = i + 1;
        }
        // Append the main-data bytes of this frame.
        let bytes = input.read_bytes(main_data_size)?;
        let mut k: usize = 0;
        while k < main_data_size
            invariant
                k <= main_data_size,
                main_data_begin + main_data_size <= 2048,
                bytes@.len() == main_data_size,
                self.frame_buffer@.len() == 2048,
            decreases main_data_size - k,
        {
            let b = bytes[k];
            self.frame_buffer[main_data_begin + k] = b;
            k = k + 1;
        }
        self.frame_buffer_len = main_data_actual_size;
        Ok(())
    }
}

/// Scans the stream for the next frame sync word and returns the four
/// header bytes, the sync bits included.
#[verifier::loop_isolation(false)]
pub fn sync_frame(input: &mut ByteReader) -> (r: Result<u32, Error>)
    requires
        old(input).wf(),
    ensures
        final(input).wf(),
        final(input).data@ == old(input).data@,
        r matches Err(e) ==> e.is_io(),
{
    let mut sync: u32 = 0;
    loop
        invariant
            input.wf(),
            input.data@ == old(input).data@,
        decreases 2 * input.data@.len() - input.pos - (if (sync & 0xffe0_0000) == 0xffe0_0000 {
            input.data@.len() as int
        } else {
            0int
        }),
    {
        if (sync & 0xffe0_0000) == 0xffe0_0000 {
            return Ok(sync);
        }
        let b = input.read_u8()?;
        sync = sync.wrapping_shl(8) | b as u32;
    }
}

/// The per-frame constant of the frame-size formula: the sample count
/// of a granule pair divided by eight.
pub open spec fn spec_size_constant(version: MPEGVersion) -> int {
    if version == MPEGVersion::MPEG1 {
        144
    } else {
        72
    }
}

/// Looks up the bit rate for an MPEG version 1 layer 3 frame.
fn bitrate_mpeg1_l3(idx: u32) -> (r: u32)
    requires
        1 <= idx <= 14,
    ensures
        32_000 <= r <= 320_000,
{
    if idx == 1 {
        32_000
    } else if idx == 2 {
        40_000
    } else if idx == 3 {
        48_000
    } else if idx == 4 {
        56_000
    } else if idx == 5 {
        64_000
    } else if idx == 6 {
        80_000
    } else if idx == 7 {
        96_000
    } else if idx == 8 {
        112_000
    } else if idx == 9 {
        128_000
    } else if idx == 10 {
        160_000
    } else if idx == 11 {
        192_000
    } else if idx == 12 {
        224_000
    } else if idx == 13 {
        256_000
    } else {
        320_000
    }
}

/// Looks up the bit rate for an MPEG version 2 or 2.5 layer 3 frame.
fn bitrate_mpeg2_l3(idx: u32) -> (r: u32)
    requires
        1 <= idx <= 14,
    ensures
        8_000 <= r <= 160_000,
{
    if idx == 1 {
        8_000
    } else if idx == 2 {
        16_000
    } else if idx == 3 {
        24_000
    } else if idx == 4 {
        32_000
    } else if idx == 5 {
        40_000
    } else if idx == 6 {
        48_000
    } else if idx == 7 {
        56_000
    } else if idx == 8 {
        64_000
    } else if idx == 9 {
        80_000
    } else if idx == 10 {
        96_000
    } else if idx == 11 {
        112_000
    } else if idx == 12 {
        128_000
    } else if idx == 13 {
        144_000
    } else {
        160_000
    }
}

/// Parses the four header bytes of a frame and computes the frame
/// size.  The returned size excludes the header and CRC bytes.
pub fn read_header(input: &mut ByteReader, header: u32) -> (r: Result<FrameHeader, Error>)
    requires
        old(input).wf(),
    ensures
        final(input).wf(),
        final(input).data@ == old(input).data@,
        r matches Ok(h) ==> {
            &&& 8_000 <= h.bitrate <= 320_000
            &&& 8_000 <= h.sample_rate <= 48_000
            &&& h.frame_size + 4 + (if h.crc is Some {
                2int
            } else {
                0int
            }) == spec_size_constant(h.version) * h.bitrate / (h.sample_rate as int) + (
            if h.has_padding {
                1int
            } else {
                0int
            })
        },
{
    let version = {
        let bits = (header & 0x0018_0000) >> 19u32;
        if bits == 0 {
            MPEGVersion::MPEG2p5
        } else if bits == 2 {
            MPEGVersion::MPEG2
        } else if bits == 3 {
            MPEGVersion::MPEG1
        } else {
            return parse_error("invalid MPEG version");
        }
    };
    if (header & 0x6_0000) >> 17u32 != 1 {
        return unsupported_error("only layer 3 is supported");
    }
    let bitrate_idx = (header & 0x0_f000) >> 12u32;
    proof {
        assert((header & 0x0_f000) >> 12u32 <= 15) by (bit_vector);
    }
    if bitrate_idx == 0 {
        return unsupported_error("free bitrate is not supported");
    }
    if bitrate_idx == 15 {
        return parse_error("unsupported bitrate");
    }
    let bitrate = if version == MPEGVersion::MPEG1 {
        bitrate_mpeg1_l3(bitrate_idx)
    } else {
        bitrate_mpeg2_l3(bitrate_idx)
    };
    let sr_bits = (header & 0x0_0c00) >> 10u32;
    let sample_rate: u32 = if sr_bits == 0 && version == MPEGVersion::MPEG1 {
        44_100
    } else if sr_bits == 1 && version == MPEGVersion::MPEG1 {
        48_000
    } else if sr_bits == 2 && version == MPEGVersion::MPEG1 {
        32_000
    } else if sr_bits == 0 && version == MPEGVersion::MPEG2 {
        22_050
    } else if sr_bits == 1 && version == MPEGVersion::MPEG2 {
        24_000
    } else if sr_bits == 2 && version == MPEGVersion::MPEG2 {
        16_000
    } else if sr_bits == 0 && version == MPEGVersion::MPEG2p5 {
        11_025
    } else if sr_bits == 1 && version == MPEGVersion::MPEG2p5 {
        12_000
    } else if sr_bits == 2 && version == MPEGVersion::MPEG2p5 {
        8_000
    } else {
        return parse_error("Invalid sample rate.");
    };
    let channel_mode = {
        let bits = (header & 0x0_00c0) >> 6u32;
        if bits == 0 {
            ChannelMode::Stereo
        } else if bits == 2 {
            ChannelMode::DualMono
        } else if bits == 3 {
            ChannelMode::Mono
        } else {
            ChannelMode::JointStereo { mid_side: false, intensity: false }
        }
    };
    let emphasis = {
        let bits = header & 0x0_0003;
        if bits == 0 {
            Emphasis::NoEmphasis
        } else if bits == 1 {
            Emphasis::Fifty15
        } else if bits == 3 {
            Emphasis::CcitJ17
        } else {
            return parse_error("invalid emphasis, found reserved bits");
        }
    };
    let has_padding = (header & 0x0_0200) >> 9u32 == 1;
    // When the CRC bit is clear the header is followed by a big-endian
    // 16-bit CRC.
    let crc: Option<u16> = if (header & 0x1_0000) == 0 {
        let c = input.read_be_u16()?;
        Some(c)
    } else {
        None
    };
    let size_constant: u32 = if version == MPEGVersion::MPEG1 {
        144
    } else {
        72
    };
    proof {
        let c = size_constant as int;
        let br = bitrate as int;
        let sr = sample_rate as int;
        assert(c * br >= 6 * sr) by (nonlinear_arith)
            requires
                (c == 144 && br >= 32_000 && sr <= 48_000) || (c == 72 && br >= 8_000 && sr
                    <= 24_000),
        ;
        lemma_div_is_ordered(6 * sr, c * br, sr);
        lemma_div_multiples_vanish(6, sr);
        assert(c * br <= 144 * 320_000) by (nonlinear_arith)
            requires
                0 <= c <= 144,
                0 <= br <= 320_000,
        ;
    }
    let base = (size_constant * bitrate) / sample_rate;
    let with_pad = base + if has_padding {
        1u32
    } else {
        0u32
    };
    let minus_crc = with_pad - if crc.is_some() {
        2u32
    } else {
        0u32
    };
    let frame_size = (minus_crc - 4) as usize;
    Ok(
        FrameHeader {
            version,
            bitrate,
            sample_rate,
            channel_mode,
            emphasis,
            has_padding,
            frame_size,
            crc,
        },
    )
}

/// Reads the side information of one channel within one granule.
pub fn read_granule_channel_side_info(
    bs: &mut BitStream,
    rdr: &mut ByteReader,
    is_mpeg1: bool,
) -> (r: Result<GranuleChannel, Error>)
    requires
        old(bs).wf(*old(rdr)),
        old(rdr).wf(),
    ensures
        final(bs).wf(*final(rdr)),
        final(rdr).wf(),
        final(rdr).data@ == old(rdr).data@,
{
    let mut gc = GranuleChannel::default();
    gc.part2_3_length = bs.read_len_u16(rdr, 12)?;
    gc.big_values = bs.read_len_u16(rdr, 9)?;
    if gc.big_values > 288 {
        return parse_error("Granules big values > 288");
    }
    gc.global_gain = bs.read_len_u8(rdr, 8)?;
    gc.scalefac_compress_len = if is_mpeg1 {
        bs.read_len_u16(rdr, 4)?
    } else {
        bs.read_len_u16(rdr, 9)?
    };
    let window_switching = bs.read_bit(rdr)?;
    if window_switching {
        let block_type_enc = bs.read_len_u8(rdr, 2)?;
        let is_mixed = bs.read_bit(rdr)?;
        gc.block_type = if block_type_enc == 1 {
            BlockType::Start
        } else if block_type_enc == 2 {
            BlockType::Short { is_mixed }
        } else if block_type_enc == 3 {
            BlockType::End
        } else {
            // A long block is not allowed together with window switching.
            return parse_error("Invalid block_type");
        };
        let t0 = bs.read_len_u8(rdr, 5)?;
        let t1 = bs.read_len_u8(rdr, 5)?;
        let mut table_select: [u8; 3] = [0;3];
        table_select[0] = t0;
        table_select[1] = t1;
        gc.table_select = table_select;
        let g0 = bs.read_len_u8(rdr, 3)?;
        let g1 = bs.read_len_u8(rdr, 3)?;
        let g2 = bs.read_len_u8(rdr, 3)?;
        let mut subblock_gain: [u8; 3] = [0;3];
        subblock_gain[0] = g0;
        subblock_gain[1] = g1;
        subblock_gain[2] = g2;
        gc.subblock_gain = subblock_gain;
        // Region counts are implied: region 0 and 1 together cover the
        // 21 long bands.
        gc.region0_count = if is_mpeg1 {
            7
        } else {
            match gc.block_type {
                BlockType::Short { is_mixed: false } => 5,
                _ => 7,
            }
        };
        gc.region1_count = 20 - gc.region0_count;
    } else {
        // Without window switching the block is always long.
        gc.block_type = BlockType::Long;
        let t0 = bs.read_len_u8(rdr, 5)?;
        let t1 = bs.read_len_u8(rdr, 5)?;
        let t2 = bs.read_len_u8(rdr, 5)?;
        let mut table_select: [u8; 3] = [0;3];
        table_select[0] = t0;
        table_select[1] = t1;
        table_select[2] = t2;
        gc.table_select = table_select;
        gc.region0_count = bs.read_len_u8(rdr, 4)?;
        gc.region1_count = bs.read_len_u8(rdr, 3)?;
    }
    gc.preflag = if is_mpeg1 {
        bs.read_bit(rdr)?
    } else {
        // Implicit for MPEG2: large scale-factor tables force it.
        gc.scalefac_compress_len >= 500
    };
    gc.scalefac_scale = bs.read_bit(rdr)?;
    gc.count1table_select = bs.read_bit(rdr)?;
    Ok(gc)
}

/// Reads the side-information section that follows a frame header.
pub fn read_side_info(input: &mut ByteReader, frame_header: &FrameHeader) -> (r: Result<
    FrameInfo,
    Error,
>)
    requires
        old(input).wf(),
    ensures
        final(input).wf(),
        final(input).data@ == old(input).data@,
{
    let mut bs = BitStream::new();
    let num_channels = frame_header.num_channels();
    let is_mpeg1 = frame_header.version == MPEGVersion::MPEG1;
    let mut scfsi: [[bool; 4]; 2] = [[false;4];2];
    let main_data_begin: u16;
    if is_mpeg1 {
        main_data_begin = bs.read_len_u16(input, 9)?;
        if num_channels == 1 {
            bs.skip_len_u8(input, 5)?;
        } else {
            bs.skip_len_u8(input, 3)?;
        }
        let mut ch: usize = 0;
        while ch < num_channels
            invariant
                num_channels <= 2,
                ch <= num_channels,
                bs.wf(*input),
                input.wf(),
                input.data@ == old(input).data@,
            decreases num_channels - ch,
        {
            let b0 = bs.read_bit(input)?;
            let b1 = bs.read_bit(input)?;
            let b2 = bs.read_bit(input)?;
            let b3 = bs.read_bit(input)?;
            let mut row: [bool; 4] = [false;4];
            row[0] = b0;
            row[1] = b1;
            row[2] = b2;
            row[3] = b3;
            scfsi[ch] = row;
            ch = ch + 1;
        }
    } else {
        main_data_begin = bs.read_len_u16(input, 8)?;
        if num_channels == 1 {
            bs.skip_len_u8(input, 1)?;
        } else {
            bs.skip_len_u8(input, 2)?;
        }
    }
    let num_granules = frame_header.num_granules();
    let mut granules: [Granule; 2] = [
        Granule { channels: [GranuleChannel::default(), GranuleChannel::default()] },
        Granule { channels: [GranuleChannel::default(), GranuleChannel::default()] },
    ];
    let mut g: usize = 0;
    while g < num_granules
        invariant
            num_granules <= 2,
            num_channels <= 2,
            bs.wf(*input),
            input.wf(),
            input.data@ == old(input).data@,
        decreases num_granules - g,
    {
        let mut c: usize = 0;
        while c < num_channels
            invariant
                num_channels <= 2,
                c <= num_channels,
                g < 2,
                bs.wf(*input),
                input.wf(),
                input.data@ == old(input).data@,
            decreases num_channels - c,
        {
            let gc = read_granule_channel_side_info(&mut bs, input, is_mpeg1)?;
            granules[g].channels[c] = gc;
            c = c + 1;
        }
        g = g + 1;
    }
    if !bs.is_aligned() {
        return parse_error("unable to read side info properly");
    }
    Ok(FrameInfo { main_data_begin, scfsi, granules })
}

/// Refills the bit reservoir with this frame's main data and reads the
/// scale factors of every granule and channel.
pub fn read_main_data(
    input: &mut ByteReader,
    decoder_state: &mut DecoderState,
    frame_header: &FrameHeader,
    frame_info: &mut FrameInfo,
) -> (r: Result<(), Error>)
    requires
        old(input).wf(),
        old(decoder_state).wf(),
    ensures
        final(input).wf(),
        final(input).data@ == old(input).data@,
        final(decoder_state).wf(),
{
    let side_len = frame_header.side_data_len();
    if frame_header.frame_size < side_len {
        return parse_error("invalid main data begin offset");
    }
    let main_data_size = frame_header.frame_size - side_len;
    decoder_state.fill_reservoir_buffer(
        input,
        frame_info.main_data_begin as usize,
        main_data_size,
    )?;
    let num_granules = frame_header.num_granules();
    let num_channels = frame_header.num_channels();
    let mut g: usize = 0;
    while g < num_granules
        invariant
            num_granules <= 2,
            num_channels <= 2,
        decreases num_granules - g,
    {
        let mut c: usize = 0;
        while c < num_channels
            invariant
                num_channels <= 2,
                c <= num_channels,
                g < 2,
            decreases num_channels - c,
        {
            if frame_header.version == MPEGVersion::MPEG1 {
                read_mpeg1_scale_factors(&mut frame_info.granules[g].channels[c])?;
            } else {
                let intensity = c == 1 && frame_header.is_intensity_stereo();
                read_mpeg2_scale_factors(intensity, &mut frame_info.granules[g].channels[c])?;
            }
            c = c + 1;
        }
        g = g + 1;
    }
    Ok(())
}

/// Hook for MPEG 1 scale-factor reading.  Scale factors feed only the
/// absent synthesis stage, so every input is accepted.
pub fn read_mpeg1_scale_factors(channel_info: &mut GranuleChannel) -> (r: Result<(), Error>)
    ensures
        r is Ok,
{
    Ok(())
}

/// Hook for MPEG 2 scale-factor reading.  Scale factors feed only the
/// absent synthesis stage, so every input is accepted.
pub fn read_mpeg2_scale_factors(
    intensity_stereo_channel: bool,
    channel_info: &mut GranuleChannel,
) -> (r: Result<(), Error>)
    ensures
        r is Ok,
{
    Ok(())
}

/// Parses the next frame: sync word, header, side information and
/// main-data bookkeeping.  Returns `None` at a clean end of stream.
/// With the synthesis filter absent, the returned block names its
/// dimensions only.
pub fn decode_next_frame(input: &mut ByteReader, decoder_state: &mut DecoderState) -> (r: Option<
    Result<Block, Error>,
>)
    requires
        old(input).wf(),
        old(decoder_state).wf(),
    ensures
        final(input).wf(),
        final(input).data@ == old(input).data@,
        final(decoder_state).wf(),
        r matches Some(res) ==> (res matches Ok(b) ==> 1 <= b.no_channels <= 2 && b.block_size
            >= 576),
{
    let header = match sync_frame(input) {
        Ok(h) => h,
        Err(_) => {
            return None;
        },
    };
    let frame_header = match read_header(input, header) {
        Ok(h) => h,
        Err(e) => {
            return Some(Err(e));
        },
    };
    let mut frame_info = match read_side_info(input, &frame_header) {
        Ok(i) => i,
        Err(e) => {
            return Some(Err(e));
        },
    };
    match read_main_data(input, decoder_state, &frame_header, &mut frame_info) {
        Ok(()) => (),
        Err(e) => {
            return Some(Err(e));
        },
    }
    let granules = frame_header.num_granules();
    let channels = frame_header.num_channels();
    Some(
        Ok(
            Block {
                block_size: 576 * granules as u32,
                no_channels: channels as u32,
                bits_per_sample: 32,
            },
        ),
    )
}

} // verus!
