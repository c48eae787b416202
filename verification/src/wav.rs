//! WAV/RIFF container decoding: the chunk walk, the `fmt ` dialects and
//! direct PCM sample iteration.

use vstd::prelude::*;

use crate::audio::{
    popcount, spec_channel_count, spec_layout_mask, AudioInfo, AudioReader, AudioSamplesIterator,
    ChannelLayout, Channels,
};
use crate::bytes::{spec_le16, spec_le32, ByteReader};
use crate::codecs::CodecType;
use crate::errors::{parse_error, unsupported_error, Error};
use crate::sample::Sample;

verus! {

/// A chunk in a RIFF wave file.
pub enum Chunk {
    /// A format chunk, fully parsed into an `AudioInfo`.
    Fmt(AudioInfo),
    /// A data chunk, where the samples are actually stored.
    Data(u32),
    /// Any other RIFF chunk.
    Unknown([u8; 4], u32),
}

/// The channel mask a WAVEFORMATEXTENSIBLE descriptor's mask bits
/// decode to, translating each speaker-position bit to the library's
/// channel bit.
pub open spec fn spec_decode_channel_mask(m: u32) -> u32 {
    let c = 0u32;
    let c = if m & 0x1 != 0 { c | 0x0000_0001u32 } else { c };
    let c = if m & 0x2 != 0 { c | 0x0000_0002u32 } else { c };
    let c = if m & 0x4 != 0 { c | 0x0000_0004u32 } else { c };
    let c = if m & 0x8 != 0 { c | 0x0000_0040u32 } else { c };
    let c = if m & 0x10 != 0 { c | 0x0000_0008u32 } else { c };
    let c = if m & 0x20 != 0 { c | 0x0000_0020u32 } else { c };
    let c = if m & 0x40 != 0 { c | 0x0000_0080u32 } else { c };
    let c = if m & 0x80 != 0 { c | 0x0000_0100u32 } else { c };
    let c = if m & 0x100 != 0 { c | 0x0000_0010u32 } else { c };
    let c = if m & 0x200 != 0 { c | 0x0002_0000u32 } else { c };
    let c = if m & 0x400 != 0 { c | 0x0004_0000u32 } else { c };
    let c = if m & 0x800 != 0 { c | 0x0008_0000u32 } else { c };
    let c = if m & 0x1000 != 0 { c | 0x0010_0000u32 } else { c };
    let c = if m & 0x2000 != 0 { c | 0x0020_0000u32 } else { c };
    let c = if m & 0x4000 != 0 { c | 0x0040_0000u32 } else { c };
    let c = if m & 0x8000 != 0 { c | 0x0080_0000u32 } else { c };
    let c = if m & 0x10000 != 0 { c | 0x0100_0000u32 } else { c };
    let c = if m & 0x20000 != 0 { c | 0x0200_0000u32 } else { c };
    c
}

/// Translates a WAVEFORMATEXTENSIBLE channel mask into the library's
/// channel bits.
#[verifier::rlimit(100)]
pub fn decode_channel_mask(channel_mask: u32) -> (r: Channels)
    ensures
        r.bits == spec_decode_channel_mask(channel_mask),
{
    let m = channel_mask;
    let mut c: u32 = 0;
    if m & 0x1 != 0 {
        c = c | 0x0000_0001;
    }
    if m & 0x2 != 0 {
        c = c | 0x0000_0002;
    }
    if m & 0x4 != 0 {
        c = c | 0x0000_0004;
    }
    if m & 0x8 != 0 {
        c = c | 0x0000_0040;
    }
    if m & 0x10 != 0 {
        c = c | 0x0000_0008;
    }
    if m & 0x20 != 0 {
        c = c | 0x0000_0020;
    }
    if m & 0x40 != 0 {
        c = c | 0x0000_0080;
    }
    if m & 0x80 != 0 {
        c = c | 0x0000_0100;
    }
    if m & 0x100 != 0 {
        c = c | 0x0000_0010;
    }
    if m & 0x200 != 0 {
        c = c | 0x0002_0000;
    }
    if m & 0x400 != 0 {
        c = c | 0x0004_0000;
    }
    if m & 0x800 != 0 {
        c = c | 0x0008_0000;
    }
    if m & 0x1000 != 0 {
        c = c | 0x0010_0000;
    }
    if m & 0x2000 != 0 {
        c = c | 0x0020_0000;
    }
    if m & 0x4000 != 0 {
        c = c | 0x0040_0000;
    }
    if m & 0x8000 != 0 {
        c = c | 0x0080_0000;
    }
    if m & 0x10000 != 0 {
        c = c | 0x0100_0000;
    }
    if m & 0x20000 != 0 {
        c = c | 0x0200_0000;
    }
    Channels { bits: c }
}

/// The layout the extensible descriptor derives from a channel count;
/// counts without a mnemonic fall back to mono.
pub open spec fn spec_layout_of_mask_count(n: nat) -> ChannelLayout {
    if n == 2 {
        ChannelLayout::Stereo
    } else if n == 3 {
        ChannelLayout::ThreePointZero
    } else if n == 4 {
        ChannelLayout::Quad
    } else if n == 6 {
        ChannelLayout::FivePointOne
    } else if n == 8 {
        ChannelLayout::SevenPointOne
    } else {
        ChannelLayout::Mono
    }
}

/// Whenever an extensible channel mask's popcount names one of the
/// layouts the parser derives, the derived layout counts exactly that
/// many channels.
pub proof fn lemma_mask_count_layout_consistency(n: nat)
    requires
        n == 1 || n == 2 || n == 3 || n == 4 || n == 6 || n == 8,
    ensures
        spec_channel_count(spec_layout_of_mask_count(n)) == n,
{
}

/// A WAV descriptor built by the fmt parser for the one- and
/// two-channel dialects: the channel mask always agrees with the
/// layout.
pub open spec fn wav_info_channels_wf(info: AudioInfo) -> bool {
    &&& info.channels.bits == spec_layout_mask(info.channel_layout)
    &&& popcount(info.channels.bits as nat) == spec_channel_count(info.channel_layout)
}

/// Every descriptor the fmt parser builds: either the mask is the
/// layout's own, or (for the extensible dialect) the layout was derived
/// from the mask's popcount.
pub open spec fn wav_info_consistent(info: AudioInfo) -> bool {
    ||| wav_info_channels_wf(info)
    ||| info.channel_layout == spec_layout_of_mask_count(popcount(info.channels.bits as nat))
}

/// For every descriptor the WAV parser builds, the number of channels
/// in the mask equals the channel count of the derived layout — except
/// when an extensible mask's popcount names no layout and the parser
/// falls back to mono.
pub proof fn lemma_wav_channel_count_consistency(info: AudioInfo)
    requires
        wav_info_consistent(info),
        popcount(info.channels.bits as nat) == 1 || popcount(info.channels.bits as nat) == 2
            || popcount(info.channels.bits as nat) == 3 || popcount(info.channels.bits as nat)
            == 4 || popcount(info.channels.bits as nat) == 6 || popcount(
            info.channels.bits as nat,
        ) == 8,
    ensures
        popcount(info.channels.bits as nat) == spec_channel_count(info.channel_layout),
{
    if !wav_info_channels_wf(info) {
        lemma_mask_count_layout_consistency(popcount(info.channels.bits as nat));
    }
}

/// Whether the sixteen GUID bytes at `q` carry the shared tail of the
/// four recognized sub-format GUIDs.
pub open spec fn spec_ext_guid_tail_ok(d: Seq<u8>, q: int) -> bool {
    &&& d[q + 1] == 0x00 && d[q + 2] == 0x00 && d[q + 3] == 0x00 && d[q + 4] == 0x00
    &&& d[q + 5] == 0x00 && d[q + 6] == 0x10 && d[q + 7] == 0x00 && d[q + 8] == 0x80
    &&& d[q + 9] == 0x00 && d[q + 10] == 0x00 && d[q + 11] == 0xaa && d[q + 12] == 0x00
    &&& d[q + 13] == 0x38 && d[q + 14] == 0x9b && d[q + 15] == 0x71
}

/// A plain-PCM `fmt ` chunk sits at byte `q` (its chunk header
/// included): the tag is 0x0001, the redundant fields agree, and bit
/// depth and channel count are in the supported sets.
pub open spec fn spec_pcm_fmt_chunk_at(d: Seq<u8>, q: int) -> bool {
    let l = spec_le32(d[q + 4], d[q + 5], d[q + 6], d[q + 7]);
    let tag = spec_le16(d[q + 8], d[q + 9]);
    let nch = spec_le16(d[q + 10], d[q + 11]);
    let sr = spec_le32(d[q + 12], d[q + 13], d[q + 14], d[q + 15]);
    let nbps = spec_le32(d[q + 16], d[q + 17], d[q + 18], d[q + 19]);
    let ba = spec_le16(d[q + 20], d[q + 21]);
    let bits = spec_le16(d[q + 22], d[q + 23]);
    &&& d[q] == 0x66 && d[q + 1] == 0x6d && d[q + 2] == 0x74 && d[q + 3] == 0x20
    &&& l >= 16
    &&& q + 8 + l <= d.len()
    &&& tag == 0x0001
    &&& nch != 0
    &&& bits as int == (ba as int / nch as int) * 8
    &&& nbps as int == ba as int * sr as int
    &&& (bits == 8 || bits == 16 || bits == 24 || bits == 32)
    &&& (nch == 1 || nch == 2)
}

/// The canonical WAV layout: RIFF/WAVE magic, then a plain-PCM `fmt `
/// chunk, then a `data` chunk header, all present in the stream.
pub open spec fn spec_wav_pcm_canonical(d: Seq<u8>, p: int) -> bool {
    let l = spec_le32(d[p + 16], d[p + 17], d[p + 18], d[p + 19]);
    &&& p + 28 + l <= d.len()
    &&& d[p] == 0x52 && d[p + 1] == 0x49 && d[p + 2] == 0x46 && d[p + 3] == 0x46
    &&& d[p + 8] == 0x57 && d[p + 9] == 0x41 && d[p + 10] == 0x56 && d[p + 11] == 0x45
    &&& spec_pcm_fmt_chunk_at(d, p + 12)
    &&& d[p + 20 + l] == 0x64 && d[p + 21 + l] == 0x61 && d[p + 22 + l] == 0x74 && d[p + 23 + l]
        == 0x61
}

/// Parses the next chunk from the reader; `None` at end of file.
pub fn read_next_chunk(reader: &mut ByteReader) -> (r: Result<Option<Chunk>, Error>)
    requires
        old(reader).wf(),
    ensures
        final(reader).wf(),
        final(reader).data@ == old(reader).data@,
        final(reader).pos >= old(reader).pos,
        old(reader).remaining() < 4 ==> r == Result::<Option<Chunk>, Error>::Ok(None),
        r == Result::<Option<Chunk>, Error>::Ok(None) ==> old(reader).remaining() < 4,
        r matches Ok(c) ==> (c matches Some(k) ==> final(reader).pos > old(reader).pos),
        r matches Ok(c) ==> (c matches Some(k) ==> (k matches Chunk::Fmt(info)
            ==> wav_info_consistent(info) && old(reader).data@[old(reader).pos as int] == 0x66
            && old(reader).data@[old(reader).pos + 1] == 0x6d && old(reader).data@[old(
            reader,
        ).pos + 2] == 0x74 && old(reader).data@[old(reader).pos + 3] == 0x20)),
        r matches Ok(c) ==> (c matches Some(k) ==> (k matches Chunk::Data(len) ==> ({
            let d = old(reader).data@;
            let p = old(reader).pos as int;
            &&& d[p] == 0x64 && d[p + 1] == 0x61 && d[p + 2] == 0x74 && d[p + 3] == 0x61
            &&& len == spec_le32(d[p + 4], d[p + 5], d[p + 6], d[p + 7])
            &&& final(reader).pos == old(reader).pos + 8
        }))),
        ({
            let d = old(reader).data@;
            let p = old(reader).pos as int;
            old(reader).remaining() >= 8 && d[p] == 0x64 && d[p + 1] == 0x61 && d[p + 2] == 0x74
                && d[p + 3] == 0x61
        }) ==> r == Result::<Option<Chunk>, Error>::Ok(
            Some(
                Chunk::Data(
                    spec_le32(
                        old(reader).data@[old(reader).pos + 4],
                        old(reader).data@[old(reader).pos + 5],
                        old(reader).data@[old(reader).pos + 6],
                        old(reader).data@[old(reader).pos + 7],
                    ),
                ),
            ),
        ),
        spec_pcm_fmt_chunk_at(old(reader).data@, old(reader).pos as int) ==> (r matches Ok(c) && (
        c matches Some(k) && (k matches Chunk::Fmt(info) && ({
            let d = old(reader).data@;
            let p = old(reader).pos as int;
            let l = spec_le32(d[p + 4], d[p + 5], d[p + 6], d[p + 7]);
            let nch = spec_le16(d[p + 10], d[p + 11]);
            let bits = spec_le16(d[p + 22], d[p + 23]);
            &&& final(reader).pos == old(reader).pos + 8 + l
            &&& info.sample_rate == spec_le32(d[p + 12], d[p + 13], d[p + 14], d[p + 15])
            &&& info.bits_per_sample == bits
            &&& (bits == 8 ==> info.codec_type == CodecType::CODEC_TYPE_PCM_U8)
            &&& (bits == 16 ==> info.codec_type == CodecType::CODEC_TYPE_PCM_S16LE)
            &&& (bits == 24 ==> info.codec_type == CodecType::CODEC_TYPE_PCM_S24LE)
            &&& (bits == 32 ==> info.codec_type == CodecType::CODEC_TYPE_PCM_S32LE)
            &&& (nch == 1 ==> info.channel_layout == ChannelLayout::Mono)
            &&& (nch == 2 ==> info.channel_layout == ChannelLayout::Stereo)
            &&& wav_info_channels_wf(info)
        })))),
    {
    let chunk_type = match reader.read_bytes(4) {
        Ok(v) => v,
        Err(_) => {
            return Ok(None);
        },
    };
    let len = reader.read_le_u32()?;
    let t0 = chunk_type[0];
    let t1 = chunk_type[1];
    let t2 = chunk_type[2];
    let t3 = chunk_type[3];
    if t0 == 0x66 && t1 == 0x6d && t2 == 0x74 && t3 == 0x20 {
        // "fmt "
        let info = read_fmt_chunk(reader, len)?;
        Ok(Some(Chunk::Fmt(info)))
    } else if t0 == 0x64 && t1 == 0x61 && t2 == 0x74 && t3 == 0x61 {
        // "data"
        Ok(Some(Chunk::Data(len)))
    } else {
        reader.skip_bytes(len as usize)?;
        Ok(Some(Chunk::Unknown([t0, t1, t2, t3], len)))
    }
}

/// Parses the `fmt ` chunk into a descriptor, dispatching on the format
/// tag.
pub fn read_fmt_chunk(reader: &mut ByteReader, chunk_len: u32) -> (r: Result<AudioInfo, Error>)
    requires
        old(reader).wf(),
    ensures
        final(reader).wf(),
        final(reader).data@ == old(reader).data@,
        final(reader).pos >= old(reader).pos,
        chunk_len < 16 ==> r == Result::<AudioInfo, Error>::Err(
            Error::ParseError("invalid fmt chunk size"),
        ),
        r matches Ok(info) ==> ({
            let d = old(reader).data@;
            let p = old(reader).pos as int;
            let tag = spec_le16(d[p], d[p + 1]);
            let nch = spec_le16(d[p + 2], d[p + 3]);
            let bits = spec_le16(d[p + 14], d[p + 15]);
            &&& wav_info_consistent(info)
            &&& info.total_samples == 0
            &&& info.sample_rate == spec_le32(d[p + 4], d[p + 5], d[p + 6], d[p + 7])
            &&& (tag == 0x0001 ==> {
                &&& wav_info_channels_wf(info)
                &&& info.bits_per_sample == bits
                &&& (bits == 8 ==> info.codec_type == CodecType::CODEC_TYPE_PCM_U8)
                &&& (bits == 16 ==> info.codec_type == CodecType::CODEC_TYPE_PCM_S16LE)
                &&& (bits == 24 ==> info.codec_type == CodecType::CODEC_TYPE_PCM_S24LE)
                &&& (bits == 32 ==> info.codec_type == CodecType::CODEC_TYPE_PCM_S32LE)
                &&& (nch == 1 ==> info.channel_layout == ChannelLayout::Mono)
                &&& (nch == 2 ==> info.channel_layout == ChannelLayout::Stereo)
            })
            &&& (tag == 0x0003 ==> info.codec_type == CodecType::CODEC_TYPE_PCM_F32LE
                || info.codec_type == CodecType::CODEC_TYPE_PCM_F64LE)
            &&& (tag == 0x0006 ==> info.codec_type == CodecType::CODEC_TYPE_PCM_ALAW)
            &&& (tag == 0x0007 ==> info.codec_type == CodecType::CODEC_TYPE_PCM_MULAW)
            &&& (tag == 0xfffe ==> {
                &&& info.channels.bits == spec_decode_channel_mask(
                    spec_le32(d[p + 20], d[p + 21], d[p + 22], d[p + 23]),
                )
                &&& info.channel_layout == spec_layout_of_mask_count(
                    popcount(info.channels.bits as nat),
                )
                &&& info.bits_per_sample == spec_le16(d[p + 18], d[p + 19])
                &&& ({
                    let g0 = d[p + 24];
                    let vbits = spec_le16(d[p + 18], d[p + 19]);
                    &&& (g0 == 0x01 && vbits == 24 ==> info.codec_type
                        == CodecType::CODEC_TYPE_PCM_S24LE)
                    &&& (g0 == 0x01 && vbits == 8 ==> info.codec_type
                        == CodecType::CODEC_TYPE_PCM_U8)
                    &&& (g0 == 0x01 && vbits == 16 ==> info.codec_type
                        == CodecType::CODEC_TYPE_PCM_S16LE)
                    &&& (g0 == 0x01 && vbits == 32 ==> info.codec_type
                        == CodecType::CODEC_TYPE_PCM_S32LE)
                    &&& (g0 == 0x06 ==> info.codec_type == CodecType::CODEC_TYPE_PCM_ALAW)
                    &&& (g0 == 0x07 ==> info.codec_type == CodecType::CODEC_TYPE_PCM_MULAW)
                })
            })
        }),
        chunk_len >= 16 && old(reader).remaining() < 16 ==> (r matches Err(e) && e.is_io()),
        chunk_len >= 16 && old(reader).remaining() >= 16 ==> ({
            let d = old(reader).data@;
            let p = old(reader).pos as int;
            let tag = spec_le16(d[p], d[p + 1]);
            let nch = spec_le16(d[p + 2], d[p + 3]);
            let sr = spec_le32(d[p + 4], d[p + 5], d[p + 6], d[p + 7]);
            let nbps = spec_le32(d[p + 8], d[p + 9], d[p + 10], d[p + 11]);
            let ba = spec_le16(d[p + 12], d[p + 13]);
            let bits = spec_le16(d[p + 14], d[p + 15]);
            let fields_ok = nch != 0 && bits as int == (ba as int / nch as int) * 8 && nbps as int
                == ba as int * sr as int;
            &&& (nch == 0 ==> r == Result::<AudioInfo, Error>::Err(
                Error::ParseError("number channels is 0"),
            ))
            &&& (nch != 0 && bits as int != (ba as int / nch as int) * 8 ==> r == Result::<
                AudioInfo,
                Error,
            >::Err(Error::ParseError("inconsistent fmt chunk")))
            &&& (nch != 0 && bits as int == (ba as int / nch as int) * 8 && nbps as int != ba as int
                * sr as int ==> r == Result::<AudioInfo, Error>::Err(
                Error::ParseError("inconsistent fmt chunk"),
            ))
            &&& (fields_ok && !(tag == 0x0001 || tag == 0x0003 || tag == 0x0006 || tag == 0x0007
                || tag == 0xfffe) ==> r == Result::<AudioInfo, Error>::Err(
                Error::Unsupported("encoding format not supported"),
            ))
            &&& (fields_ok && tag == 0x0001 && old(reader).remaining() >= chunk_len && (bits == 8
                || bits == 16 || bits == 24 || bits == 32) && (nch == 1 || nch == 2) ==> r is Ok
                && final(reader).pos == old(reader).pos + chunk_len)
            &&& (fields_ok && tag == 0x0006 && old(reader).remaining() >= chunk_len && (nch == 1
                || nch == 2) ==> r is Ok)
            &&& (fields_ok && tag == 0x0007 && old(reader).remaining() >= chunk_len && (nch == 1
                || nch == 2) ==> r is Ok)
        }),
{
    if chunk_len < 16 {
        return parse_error("invalid fmt chunk size");
    }
    let format_tag = reader.read_le_u16()?;
    let n_channels = reader.read_le_u16()?;
    let sample_rate = reader.read_le_u32()?;
    let n_bytes_per_sec = reader.read_le_u32()?;
    let block_align = reader.read_le_u16()?;
    let bits_per_sample = reader.read_le_u16()?;
    if n_channels == 0 {
        return parse_error("number channels is 0");
    }
    // Two of the stored fields are redundant; validate them to reject
    // ill-formed files early:
    //   block_align == bits_per_sample / 8 * n_channels
    //   n_bytes_per_sec == sample_rate * block_align
    let expected_bits = (block_align / n_channels) as u32 * 8;
    if bits_per_sample as u32 != expected_bits {
        return parse_error("inconsistent fmt chunk");
    }
    proof {
        assert((block_align as int) * (sample_rate as int) < 0x1_0000_0000_0000) by (nonlinear_arith);
    }
    let expected_rate = (block_align as u64) * (sample_rate as u64);
    if n_bytes_per_sec as u64 != expected_rate {
        return parse_error("inconsistent fmt chunk");
    }
    let audio_info = AudioInfo {
        codec_type: CodecType::CODEC_TYPE_NULL,
        sample_rate,
        total_samples: 0,
        bits_per_sample: bits_per_sample as u32,
        channels: Channels { bits: 0x0000_0001 },
        channel_layout: ChannelLayout::Mono,
    };
    if format_tag == 0x0001 {
        read_wave_format_pcm(reader, chunk_len, n_channels, audio_info)
    } else if format_tag == 0x0003 {
        read_wave_format_ieee(reader, chunk_len, n_channels, audio_info)
    } else if format_tag == 0x0006 {
        read_wave_format_alaw(reader, chunk_len, n_channels, audio_info)
    } else if format_tag == 0x0007 {
        read_wave_format_mulaw(reader, chunk_len, n_channels, audio_info)
    } else if format_tag == 0xfffe {
        read_wave_format_ext(reader, chunk_len, audio_info)
    } else {
        unsupported_error("encoding format not supported")
    }
}

/// Finishes a plain PCM descriptor.
fn read_wave_format_pcm(
    reader: &mut ByteReader,
    chunk_len: u32,
    n_channels: u16,
    audio_info: AudioInfo,
) -> (r: Result<AudioInfo, Error>)
    requires
        old(reader).wf(),
        chunk_len >= 16,
    ensures
        final(reader).wf(),
        final(reader).data@ == old(reader).data@,
        final(reader).pos >= old(reader).pos,
        r matches Ok(info) ==> {
            &&& wav_info_channels_wf(info)
            &&& (info.bits_per_sample == 8 ==> info.codec_type
                == CodecType::CODEC_TYPE_PCM_U8)
            &&& (info.bits_per_sample == 16 ==> info.codec_type
                == CodecType::CODEC_TYPE_PCM_S16LE)
            &&& (info.bits_per_sample == 24 ==> info.codec_type
                == CodecType::CODEC_TYPE_PCM_S24LE)
            &&& (info.bits_per_sample == 32 ==> info.codec_type
                == CodecType::CODEC_TYPE_PCM_S32LE)
            &&& (info.bits_per_sample == 8 || info.bits_per_sample == 16
                || info.bits_per_sample == 24 || info.bits_per_sample == 32)
            &&& (n_channels == 1 ==> info.channel_layout == ChannelLayout::Mono)
            &&& (n_channels == 2 ==> info.channel_layout == ChannelLayout::Stereo)
            &&& (n_channels == 1 || n_channels == 2)
            &&& info.sample_rate == audio_info.sample_rate
            &&& info.total_samples == audio_info.total_samples
            &&& info.bits_per_sample == audio_info.bits_per_sample
        },
        old(reader).remaining() >= chunk_len - 16 ==> ({
            let bits = audio_info.bits_per_sample;
            let bits_ok = bits == 8 || bits == 16 || bits == 24 || bits == 32;
            &&& (!bits_ok ==> r == Result::<AudioInfo, Error>::Err(
                Error::Unsupported("Bits per sample for fmt_pcm must be 8, 16, 24 or 32 bits."),
            ))
            &&& (bits_ok && !(n_channels == 1 || n_channels == 2) ==> r == Result::<
                AudioInfo,
                Error,
            >::Err(Error::ParseError("Only max two channels supported for fmt_pcm.")))
            &&& (bits_ok && (n_channels == 1 || n_channels == 2) ==> r is Ok
                && final(reader).pos == old(reader).pos + (chunk_len - 16))
        }),
        old(reader).remaining() < chunk_len - 16 ==> (r matches Err(e) && e.is_io()),
{
    let mut audio_info = audio_info;
    // Extra bytes appended to the plain PCM format are skipped.
    if chunk_len > 16 {
        reader.skip_bytes((chunk_len - 16) as usize)?;
    }
    audio_info.codec_type = if audio_info.bits_per_sample == 8 {
        CodecType::CODEC_TYPE_PCM_U8
    } else if audio_info.bits_per_sample == 16 {
        CodecType::CODEC_TYPE_PCM_S16LE
    } else if audio_info.bits_per_sample == 24 {
        CodecType::CODEC_TYPE_PCM_S24LE
    } else if audio_info.bits_per_sample == 32 {
        CodecType::CODEC_TYPE_PCM_S32LE
    } else {
        return unsupported_error("Bits per sample for fmt_pcm must be 8, 16, 24 or 32 bits.");
    };
    audio_info.channel_layout = if n_channels == 1 {
        ChannelLayout::Mono
    } else if n_channels == 2 {
        ChannelLayout::Stereo
    } else {
        return parse_error("Only max two channels supported for fmt_pcm.");
    };
    audio_info.channels = audio_info.channel_layout.into_channels();
    Ok(audio_info)
}

/// Finishes an IEEE float descriptor.
fn read_wave_format_ieee(
    reader: &mut ByteReader,
    chunk_len: u32,
    n_channels: u16,
    audio_info: AudioInfo,
) -> (r: Result<AudioInfo, Error>)
    requires
        old(reader).wf(),
        chunk_len >= 16,
    ensures
        final(reader).wf(),
        final(reader).data@ == old(reader).data@,
        final(reader).pos >= old(reader).pos,
        r matches Ok(info) ==> {
            &&& wav_info_channels_wf(info)
            &&& (info.codec_type == CodecType::CODEC_TYPE_PCM_F32LE || info.codec_type
                == CodecType::CODEC_TYPE_PCM_F64LE)
            &&& (info.bits_per_sample == 32 || info.bits_per_sample == 64)
            &&& (n_channels == 1 || n_channels == 2)
            &&& info.bits_per_sample == audio_info.bits_per_sample
            &&& info.sample_rate == audio_info.sample_rate
            &&& info.total_samples == audio_info.total_samples
        },
        chunk_len == 18 && old(reader).remaining() < 2 ==> (r matches Err(e) && e.is_io()),
        (chunk_len == 16 || (chunk_len == 18 && old(reader).remaining() >= 2)) ==> ({
            let d = old(reader).data@;
            let p = old(reader).pos as int;
            let extra_bad = chunk_len == 18 && spec_le16(d[p], d[p + 1]) != 0;
            let bits = audio_info.bits_per_sample;
            let bits_ok = bits == 32 || bits == 64;
            &&& (extra_bad ==> r == Result::<AudioInfo, Error>::Err(
                Error::ParseError("Malformed fmt_ieee chunk."),
            ))
            &&& (!extra_bad && !bits_ok ==> r == Result::<AudioInfo, Error>::Err(
                Error::ParseError("Bits per sample for fmt_ieee must be 32 or 64 bits."),
            ))
            &&& (!extra_bad && bits_ok && !(n_channels == 1 || n_channels == 2) ==> r == Result::<
                AudioInfo,
                Error,
            >::Err(Error::ParseError("Max two channels supported for fmt_ieee.")))
            &&& (!extra_bad && bits_ok && (n_channels == 1 || n_channels == 2) ==> r is Ok)
        }),
        chunk_len > 18 ==> r == Result::<AudioInfo, Error>::Err(
            Error::ParseError("Malformed fmt_ieee chunk."),
        ),
{
    let mut audio_info = audio_info;
    // An IEEE descriptor may carry an extra-size field, which must then
    // be zero.
    let mut extra_size: u16 = 0;
    if chunk_len == 18 {
        extra_size = reader.read_le_u16()?;
    }
    if extra_size != 0 || chunk_len > 18 {
        return parse_error("Malformed fmt_ieee chunk.");
    }
    audio_info.codec_type = if audio_info.bits_per_sample == 32 {
        CodecType::CODEC_TYPE_PCM_F32LE
    } else if audio_info.bits_per_sample == 64 {
        CodecType::CODEC_TYPE_PCM_F64LE
    } else {
        return parse_error("Bits per sample for fmt_ieee must be 32 or 64 bits.");
    };
    audio_info.channel_layout = if n_channels == 1 {
        ChannelLayout::Mono
    } else if n_channels == 2 {
        ChannelLayout::Stereo
    } else {
        return parse_error("Max two channels supported for fmt_ieee.");
    };
    audio_info.channels = audio_info.channel_layout.into_channels();
    Ok(audio_info)
}

/// Finishes an A-law descriptor.
fn read_wave_format_alaw(
    reader: &mut ByteReader,
    chunk_len: u32,
    n_channels: u16,
    audio_info: AudioInfo,
) -> (r: Result<AudioInfo, Error>)
    requires
        old(reader).wf(),
        chunk_len >= 16,
    ensures
        final(reader).wf(),
        final(reader).data@ == old(reader).data@,
        final(reader).pos >= old(reader).pos,
        r matches Ok(info) ==> {
            &&& wav_info_channels_wf(info)
            &&& info.codec_type == CodecType::CODEC_TYPE_PCM_ALAW
            &&& (n_channels == 1 || n_channels == 2)
            &&& info.bits_per_sample == audio_info.bits_per_sample
            &&& info.sample_rate == audio_info.sample_rate
            &&& info.total_samples == audio_info.total_samples
        },
        old(reader).remaining() >= chunk_len - 16 ==> ({
            &&& (!(n_channels == 1 || n_channels == 2) ==> r == Result::<AudioInfo, Error>::Err(
                Error::ParseError("Only max two channels supported for fmt_alaw."),
            ))
            &&& ((n_channels == 1 || n_channels == 2) ==> r is Ok)
        }),
        old(reader).remaining() < chunk_len - 16 ==> (r matches Err(e) && e.is_io()),
{
    let mut audio_info = audio_info;
    if chunk_len > 16 {
        reader.skip_bytes((chunk_len - 16) as usize)?;
    }
    audio_info.codec_type = CodecType::CODEC_TYPE_PCM_ALAW;
    audio_info.channel_layout = if n_channels == 1 {
        ChannelLayout::Mono
    } else if n_channels == 2 {
        ChannelLayout::Stereo
    } else {
        return parse_error("Only max two channels supported for fmt_alaw.");
    };
    audio_info.channels = audio_info.channel_layout.into_channels();
    Ok(audio_info)
}

/// Finishes a Mu-law descriptor.
fn read_wave_format_mulaw(
    reader: &mut ByteReader,
    chunk_len: u32,
    n_channels: u16,
    audio_info: AudioInfo,
) -> (r: Result<AudioInfo, Error>)
    requires
        old(reader).wf(),
        chunk_len >= 16,
    ensures
        final(reader).wf(),
        final(reader).data@ == old(reader).data@,
        final(reader).pos >= old(reader).pos,
        r matches Ok(info) ==> {
            &&& wav_info_channels_wf(info)
            &&& info.codec_type == CodecType::CODEC_TYPE_PCM_MULAW
            &&& (n_channels == 1 || n_channels == 2)
            &&& info.bits_per_sample == audio_info.bits_per_sample
            &&& info.sample_rate == audio_info.sample_rate
            &&& info.total_samples == audio_info.total_samples
        },
        old(reader).remaining() >= chunk_len - 16 ==> ({
            &&& (!(n_channels == 1 || n_channels == 2) ==> r == Result::<AudioInfo, Error>::Err(
                Error::ParseError("Only max two channels supported for fmt_mulaw."),
            ))
            &&& ((n_channels == 1 || n_channels == 2) ==> r is Ok)
        }),
        old(reader).remaining() < chunk_len - 16 ==> (r matches Err(e) && e.is_io()),
{
    let mut audio_info = audio_info;
    if chunk_len > 16 {
        reader.skip_bytes((chunk_len - 16) as usize)?;
    }
    audio_info.codec_type = CodecType::CODEC_TYPE_PCM_MULAW;
    audio_info.channel_layout = if n_channels == 1 {
        ChannelLayout::Mono
    } else if n_channels == 2 {
        ChannelLayout::Stereo
    } else {
        return parse_error("Only max two channels supported for fmt_mulaw.");
    };
    audio_info.channels = audio_info.channel_layout.into_channels();
    Ok(audio_info)
}

/// Finishes a WAVEFORMATEXTENSIBLE descriptor: the valid-bits field,
/// the channel mask, and the sub-format GUID.
fn read_wave_format_ext(reader: &mut ByteReader, chunk_len: u32, audio_info: AudioInfo) -> (r:
    Result<AudioInfo, Error>)
    requires
        old(reader).wf(),
    ensures
        final(reader).wf(),
        final(reader).data@ == old(reader).data@,
        final(reader).pos >= old(reader).pos,
        chunk_len < 40 ==> r == Result::<AudioInfo, Error>::Err(
            Error::ParseError("Malformed fmt_ext chunk."),
        ),
        r matches Ok(info) ==> {
            &&& info.channels.bits == spec_decode_channel_mask(
                spec_le32(
                    old(reader).data@[old(reader).pos + 4],
                    old(reader).data@[old(reader).pos + 5],
                    old(reader).data@[old(reader).pos + 6],
                    old(reader).data@[old(reader).pos + 7],
                ),
            )
            &&& info.channel_layout == spec_layout_of_mask_count(
                popcount(info.channels.bits as nat),
            )
            &&& info.bits_per_sample == spec_le16(
                old(reader).data@[old(reader).pos + 2],
                old(reader).data@[old(reader).pos + 3],
            )
            &&& info.sample_rate == audio_info.sample_rate
            &&& info.total_samples == audio_info.total_samples
            &&& ({
                let g0 = old(reader).data@[old(reader).pos + 8];
                let bits = info.bits_per_sample;
                &&& (g0 == 0x01 && bits == 8 ==> info.codec_type == CodecType::CODEC_TYPE_PCM_U8)
                &&& (g0 == 0x01 && bits == 16 ==> info.codec_type
                    == CodecType::CODEC_TYPE_PCM_S16LE)
                &&& (g0 == 0x01 && bits == 24 ==> info.codec_type
                    == CodecType::CODEC_TYPE_PCM_S24LE)
                &&& (g0 == 0x01 && bits == 32 ==> info.codec_type
                    == CodecType::CODEC_TYPE_PCM_S32LE)
                &&& (g0 == 0x03 && bits == 32 ==> info.codec_type
                    == CodecType::CODEC_TYPE_PCM_F32LE)
                &&& (g0 == 0x03 && bits == 64 ==> info.codec_type
                    == CodecType::CODEC_TYPE_PCM_F64LE)
                &&& (g0 == 0x06 ==> info.codec_type == CodecType::CODEC_TYPE_PCM_ALAW)
                &&& (g0 == 0x07 ==> info.codec_type == CodecType::CODEC_TYPE_PCM_MULAW)
            })
        },
        r matches Err(e) ==> e.is_io() || e == Error::ParseError("Malformed fmt_ext chunk.") || e
            == Error::ParseError("Extra data size not 22 bytes for fmt_ext chunk.") || e
            == Error::ParseError(
            "Bits per encoded sample for fmt_ext must be a multiple of 8 bits.",
        ) || e == Error::Unsupported("Unsupported fmt_ext sub-type.") || e == Error::ParseError(
            "Bits per sample for fmt_ext PCM sub-type must be <= 32 bits.",
        ) || e == Error::Unsupported(
            "Bits per sample for fmt_ext PCM sub-type must be 8, 16, 24 or 32 bits.",
        ) || e == Error::ParseError(
            "Bits per sample for fmt_ext IEEE sub-type must be 32 or 64 bits.",
        ),
        chunk_len >= 40 && old(reader).remaining() >= 24 ==> ({
            let d = old(reader).data@;
            let p = old(reader).pos as int;
            let extra = spec_le16(d[p], d[p + 1]);
            let vbits = spec_le16(d[p + 2], d[p + 3]);
            let g0 = d[p + 8];
            let guid_ok = spec_ext_guid_tail_ok(d, p + 8) && (g0 == 0x01 || g0 == 0x03 || g0
                == 0x06 || g0 == 0x07);
            &&& (extra != 22 ==> r == Result::<AudioInfo, Error>::Err(
                Error::ParseError("Extra data size not 22 bytes for fmt_ext chunk."),
            ))
            &&& (extra == 22 && audio_info.bits_per_sample % 8 != 0 ==> r == Result::<
                AudioInfo,
                Error,
            >::Err(
                Error::ParseError(
                    "Bits per encoded sample for fmt_ext must be a multiple of 8 bits.",
                ),
            ))
            &&& (extra == 22 && audio_info.bits_per_sample % 8 == 0 && vbits % 8 != 0 ==> r
                == Result::<AudioInfo, Error>::Err(
                Error::ParseError(
                    "Bits per encoded sample for fmt_ext must be a multiple of 8 bits.",
                ),
            ))
            &&& (extra == 22 && audio_info.bits_per_sample % 8 == 0 && vbits % 8 == 0 && !guid_ok
                ==> r == Result::<AudioInfo, Error>::Err(
                Error::Unsupported("Unsupported fmt_ext sub-type."),
            ))
            &&& (extra == 22 && audio_info.bits_per_sample % 8 == 0 && vbits % 8 == 0 && guid_ok
                ==> {
                &&& (g0 == 0x01 && vbits > 32 ==> r == Result::<AudioInfo, Error>::Err(
                    Error::ParseError(
                        "Bits per sample for fmt_ext PCM sub-type must be <= 32 bits.",
                    ),
                ))
                &&& (g0 == 0x01 && vbits <= 32 && !(vbits == 8 || vbits == 16 || vbits == 24
                    || vbits == 32) ==> r == Result::<AudioInfo, Error>::Err(
                    Error::Unsupported(
                        "Bits per sample for fmt_ext PCM sub-type must be 8, 16, 24 or 32 bits.",
                    ),
                ))
                &&& (g0 == 0x01 && (vbits == 8 || vbits == 16 || vbits == 24 || vbits == 32)
                    ==> r is Ok)
                &&& (g0 == 0x03 && !(vbits == 32 || vbits == 64) ==> r == Result::<
                    AudioInfo,
                    Error,
                >::Err(
                    Error::ParseError(
                        "Bits per sample for fmt_ext IEEE sub-type must be 32 or 64 bits.",
                    ),
                ))
                &&& (g0 == 0x03 && (vbits == 32 || vbits == 64) ==> r is Ok)
                &&& (g0 == 0x06 ==> r is Ok)
                &&& (g0 == 0x07 ==> r is Ok)
            })
        }),
{
    let mut audio_info = audio_info;
    // An extensible descriptor is at least 40 bytes with exactly 22
    // bytes of extra data.
    if chunk_len < 40 {
        return parse_error("Malformed fmt_ext chunk.");
    }
    let extra_size = reader.read_le_u16()?;
    if extra_size != 22 {
        return parse_error("Extra data size not 22 bytes for fmt_ext chunk.");
    }
    // The container width must be a whole number of bytes.
    if audio_info.bits_per_sample % 8 != 0 {
        return parse_error("Bits per encoded sample for fmt_ext must be a multiple of 8 bits.");
    }
    let valid_bits = reader.read_le_u16()?;
    // The valid-bits field must itself be a whole number of bytes.
    if valid_bits % 8 != 0 {
        return parse_error("Bits per encoded sample for fmt_ext must be a multiple of 8 bits.");
    }
    audio_info.bits_per_sample = valid_bits as u32;
    let channel_mask = reader.read_le_u32()?;
    let guid = reader.read_bytes(16)?;
    // The four recognized sub-format GUIDs share all bytes but the
    // first; 0x01 PCM, 0x03 IEEE float, 0x06 A-law, 0x07 Mu-law.
    let tail_ok = guid[1] == 0x00 && guid[2] == 0x00 && guid[3] == 0x00 && guid[4] == 0x00
        && guid[5] == 0x00 && guid[6] == 0x10 && guid[7] == 0x00 && guid[8] == 0x80 && guid[9]
        == 0x00 && guid[10] == 0x00 && guid[11] == 0xaa && guid[12] == 0x00 && guid[13] == 0x38
        && guid[14] == 0x9b && guid[15] == 0x71;
    if !tail_ok {
        return unsupported_error("Unsupported fmt_ext sub-type.");
    }
    if guid[0] == 0x01 {
        if audio_info.bits_per_sample > 32 {
            return parse_error("Bits per sample for fmt_ext PCM sub-type must be <= 32 bits.");
        }
        audio_info.codec_type = if audio_info.bits_per_sample == 8 {
            CodecType::CODEC_TYPE_PCM_U8
        } else if audio_info.bits_per_sample == 16 {
            CodecType::CODEC_TYPE_PCM_S16LE
        } else if audio_info.bits_per_sample == 24 {
            CodecType::CODEC_TYPE_PCM_S24LE
        } else if audio_info.bits_per_sample == 32 {
            CodecType::CODEC_TYPE_PCM_S32LE
        } else {
            return unsupported_error(
                "Bits per sample for fmt_ext PCM sub-type must be 8, 16, 24 or 32 bits.",
            );
        };
    } else if guid[0] == 0x03 {
        audio_info.codec_type = if audio_info.bits_per_sample == 32 {
            CodecType::CODEC_TYPE_PCM_F32LE
        } else if audio_info.bits_per_sample == 64 {
            CodecType::CODEC_TYPE_PCM_F64LE
        } else {
            return parse_error("Bits per sample for fmt_ext IEEE sub-type must be 32 or 64 bits.");
        };
    } else if guid[0] == 0x06 {
        audio_info.codec_type = CodecType::CODEC_TYPE_PCM_ALAW;
    } else if guid[0] == 0x07 {
        audio_info.codec_type = CodecType::CODEC_TYPE_PCM_MULAW;
    } else {
        return unsupported_error("Unsupported fmt_ext sub-type.");
    }
    audio_info.channels = decode_channel_mask(channel_mask);
    let count = audio_info.channels.count();
    audio_info.channel_layout = if count == 2 {
        ChannelLayout::Stereo
    } else if count == 3 {
        ChannelLayout::ThreePointZero
    } else if count == 4 {
        ChannelLayout::Quad
    } else if count == 6 {
        ChannelLayout::FivePointOne
    } else if count == 8 {
        ChannelLayout::SevenPointOne
    } else {
        ChannelLayout::Mono
    };
    Ok(audio_info)
}

/// Pull-based reader for a WAV container stream.
pub struct WavReader {
    /// The byte stream.
    pub reader: ByteReader,
}

impl WavReader {
    /// Wraps a byte stream in a WAV reader.
    pub fn new(reader: ByteReader) -> (r: Result<Box<WavReader>, Error>)
        requires
            reader.wf(),
        ensures
            r matches Ok(wr) && wr.reader == reader && wr.reader.wf(),
    {
        Ok(Box::new(WavReader { reader }))
    }

    /// Walks the RIFF structure up to the data chunk and returns the
    /// assembled descriptor.
    #[verifier::loop_isolation(false)]
    pub fn read_header(&mut self) -> (r: Result<AudioInfo, Error>)
        requires
            old(self).reader.wf(),
        ensures
            final(self).reader.wf(),
            final(self).reader.data@ == old(self).reader.data@,
            r matches Ok(info) ==> wav_info_consistent(info) && info.bits_per_sample >= 8,
            ({
                let d = old(self).reader.data@;
                let p = old(self).reader.pos as int;
                &&& (old(self).reader.remaining() >= 4 && !(d[p] == 0x52 && d[p + 1] == 0x49
                    && d[p + 2] == 0x46 && d[p + 3] == 0x46) ==> r == Result::<
                    AudioInfo,
                    Error,
                >::Err(Error::ParseError("no RIFF tag Found")))
                &&& (old(self).reader.remaining() >= 12 && d[p] == 0x52 && d[p + 1] == 0x49 && d[p
                    + 2] == 0x46 && d[p + 3] == 0x46 && !(d[p + 8] == 0x57 && d[p + 9] == 0x41
                    && d[p + 10] == 0x56 && d[p + 11] == 0x45) ==> r == Result::<
                    AudioInfo,
                    Error,
                >::Err(Error::ParseError("no WAVE tag found")))
                &&& (r is Ok ==> old(self).reader.remaining() >= 12 && d[p] == 0x52 && d[p + 1]
                    == 0x49 && d[p + 2] == 0x46 && d[p + 3] == 0x46 && d[p + 8] == 0x57 && d[p + 9]
                    == 0x41 && d[p + 10] == 0x56 && d[p + 11] == 0x45)
                &&& (spec_wav_pcm_canonical(d, p) ==> (r matches Ok(info) && ({
                    let l = spec_le32(d[p + 16], d[p + 17], d[p + 18], d[p + 19]);
                    let nch = spec_le16(d[p + 22], d[p + 23]);
                    let bits = spec_le16(d[p + 34], d[p + 35]);
                    &&& info.sample_rate == spec_le32(d[p + 24], d[p + 25], d[p + 26], d[p + 27])
                    &&& info.bits_per_sample == bits
                    &&& (bits == 8 ==> info.codec_type == CodecType::CODEC_TYPE_PCM_U8)
                    &&& (bits == 16 ==> info.codec_type == CodecType::CODEC_TYPE_PCM_S16LE)
                    &&& (bits == 24 ==> info.codec_type == CodecType::CODEC_TYPE_PCM_S24LE)
                    &&& (bits == 32 ==> info.codec_type == CodecType::CODEC_TYPE_PCM_S32LE)
                    &&& (nch == 1 ==> info.channel_layout == ChannelLayout::Mono)
                    &&& (nch == 2 ==> info.channel_layout == ChannelLayout::Stereo)
                    &&& info.total_samples == spec_le32(
                        d[p + 24 + l],
                        d[p + 25 + l],
                        d[p + 26 + l],
                        d[p + 27 + l],
                    ) as int / ((bits as int) / 8)
                })))
            }),
    {
        let ghost d = old(self).reader.data@;
        let ghost p = old(self).reader.pos as int;
        let ghost fp = spec_wav_pcm_canonical(d, p);
        let ghost l = spec_le32(d[p + 16], d[p + 17], d[p + 18], d[p + 19]) as int;
        let ghost mut it: int = 0;
        let riff = self.reader.read_bytes(4)?;
        if !(riff[0] == 0x52 && riff[1] == 0x49 && riff[2] == 0x46 && riff[3] == 0x46) {
            return parse_error("no RIFF tag Found");
        }
        let _chunk_size = self.reader.read_le_u32()?;
        let wave = self.reader.read_bytes(4)?;
        if !(wave[0] == 0x57 && wave[1] == 0x41 && wave[2] == 0x56 && wave[3] == 0x45) {
            return parse_error("no WAVE tag found");
        }
        let mut found: Option<AudioInfo> = None;
        loop
            invariant
                self.reader.wf(),
                self.reader.data@ == old(self).reader.data@,
                found matches Some(i) ==> wav_info_consistent(i),
                fp && it == 0 ==> self.reader.pos == p + 12 && found is None,
                fp && it == 1 ==> self.reader.pos == p + 20 + l && (found matches Some(i) && ({
                    let nch = spec_le16(d[p + 22], d[p + 23]);
                    let bits = spec_le16(d[p + 34], d[p + 35]);
                    &&& i.sample_rate == spec_le32(d[p + 24], d[p + 25], d[p + 26], d[p + 27])
                    &&& i.bits_per_sample == bits
                    &&& (bits == 8 ==> i.codec_type == CodecType::CODEC_TYPE_PCM_U8)
                    &&& (bits == 16 ==> i.codec_type == CodecType::CODEC_TYPE_PCM_S16LE)
                    &&& (bits == 24 ==> i.codec_type == CodecType::CODEC_TYPE_PCM_S24LE)
                    &&& (bits == 32 ==> i.codec_type == CodecType::CODEC_TYPE_PCM_S32LE)
                    &&& (nch == 1 ==> i.channel_layout == ChannelLayout::Mono)
                    &&& (nch == 2 ==> i.channel_layout == ChannelLayout::Stereo)
                })),
                fp ==> 0 <= it <= 1,
            decreases self.reader.data@.len() - self.reader.pos,
        {
            let ghost pos0 = self.reader.pos;
            let chunk = match read_next_chunk(&mut self.reader) {
                Ok(c) => c,
                Err(e) => {
                    proof {
                        if fp {
                            assert(false);
                        }
                    }
                    return Err(e);
                },
            };
            match chunk {
                Some(Chunk::Fmt(audio_info)) => {
                    proof {
                        if fp && it == 1 {
                            assert(false);
                        }
                    }
                    found = Some(audio_info);
                },
                Some(Chunk::Data(data_len)) => {
                    proof {
                        if fp && it == 0 {
                            assert(false);
                        }
                    }
                    match found {
                        Some(mut inf) => {
                            let width = inf.bits_per_sample / 8;
                            if width == 0 {
                                return parse_error("inconsistent fmt chunk");
                            }
                            inf.total_samples = (data_len / width) as u64;
                            return Ok(inf);
                        },
                        None => {
                            proof {
                                if fp {
                                    assert(false);
                                }
                            }
                            found = None;
                        },
                    }
                },
                Some(Chunk::Unknown(_, _)) => {
                    proof {
                        if fp {
                            assert(false);
                        }
                    }
                },
                None => {
                    proof {
                        if fp {
                            assert(false);
                        }
                    }
                    return parse_error("no 'fmt' chunk found");
                },
            }
            proof {
                assert(self.reader.pos > pos0);
                it = it + 1;
            }
        }
    }
}

/// A lazy, channel-interleaved iterator over a WAV stream's samples: it
/// streams exactly `total_samples` PCM samples straight off the reader.
pub struct WavSamplesIterator<S: Sample> {
    /// The byte stream, positioned at the first sample.
    pub reader: ByteReader,
    /// The codec the samples are stored as.
    pub codec: CodecType,
    /// How many samples remain to be yielded.
    pub samples_left: u64,
    /// The output sample type.
    pub marker: core::marker::PhantomData<S>,
}

impl<S: Sample> WavSamplesIterator<S> {
    /// Builds the iterator over a byte stream positioned at the data
    /// chunk's payload.
    pub fn new(reader: ByteReader, info: &AudioInfo) -> (r: WavSamplesIterator<S>)
        requires
            reader.wf(),
        ensures
            r.reader == reader,
            r.codec == info.codec_type,
            r.samples_left == info.total_samples,
    {
        WavSamplesIterator {
            reader,
            codec: info.codec_type,
            samples_left: info.total_samples,
            marker: core::marker::PhantomData,
        }
    }

    /// Yields the next sample: while samples remain, exactly the value
    /// `S::read_pcm` decodes from the stream at the current position.
    pub fn next(&mut self) -> (r: Option<Result<S, Error>>)
        requires
            old(self).reader.wf(),
        ensures
            final(self).reader.wf(),
            final(self).reader.data@ == old(self).reader.data@,
            final(self).codec == old(self).codec,
            old(self).samples_left == 0 ==> r is None && *final(self) == *old(self),
            old(self).samples_left > 0 ==> {
                &&& final(self).samples_left == old(self).samples_left - 1
                &&& (S::readable_codec(old(self).codec) && old(self).reader.remaining()
                    >= S::codec_width(old(self).codec) ==> r == Some(
                    Result::<S, Error>::Ok(
                        S::decode_codec(
                            old(self).codec,
                            old(self).reader.data@.subrange(
                                old(self).reader.pos as int,
                                old(self).reader.pos + S::codec_width(old(self).codec),
                            ),
                        ),
                    ),
                ) && final(self).reader.pos == old(self).reader.pos + S::codec_width(
                    old(self).codec,
                ))
                &&& (!S::readable_codec(old(self).codec) ==> (r matches Some(res)
                    && res matches Err(e) && e.is_unsupported()))
                &&& (S::readable_codec(old(self).codec) && old(self).reader.remaining()
                    < S::codec_width(old(self).codec) ==> (r matches Some(res)
                    && res matches Err(e) && e.is_io()))
            },
    {
        if self.samples_left > 0 {
            let sample = S::read_pcm(&mut self.reader, self.codec);
            self.samples_left = self.samples_left - 1;
            return Some(sample);
        }
        None
    }
}

impl AudioReader for WavReader {
    open spec fn reader_wf(&self) -> bool {
        self.reader.wf()
    }

    fn read_header(&mut self) -> (r: Result<AudioInfo, Error>) {
        WavReader::read_header(self)
    }
}

impl<S: Sample> AudioSamplesIterator<S> for WavSamplesIterator<S> {
    open spec fn iter_wf(&self) -> bool {
        self.reader.wf()
    }

    fn next(&mut self) -> (r: Option<Result<S, Error>>) {
        WavSamplesIterator::next(self)
    }
}

} // verus!
