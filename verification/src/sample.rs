//! The output sample abstraction: every supported target type can read
//! one uncompressed PCM sample of a codec it supports, and narrow a
//! FLAC-decoded 32-bit sample.

use vstd::prelude::*;
use vstd::arithmetic::div_mod::{lemma_mod_bound, lemma_mod_multiples_vanish};

use crate::bytes::{spec_i16, spec_i24, spec_i32, spec_le16, spec_le24, spec_le32, ByteReader};
use crate::codecs::CodecType;
use crate::errors::{unsupported_error, Error};

verus! {

/// The low eight bits of a 32-bit sample, as an unsigned byte.
pub open spec fn spec_wrap_u8(v: i32) -> int {
    (v as int) % 0x100
}

/// The low sixteen bits of a 32-bit sample, read as two's complement.
pub open spec fn spec_wrap_i16(v: i32) -> int {
    let m = (v as int) % 0x1_0000;
    if m >= 0x8000 {
        m - 0x1_0000
    } else {
        m
    }
}

/// Computes the low eight bits of a sample.
pub fn wrap_to_u8(v: i32) -> (r: u8)
    ensures
        r == spec_wrap_u8(v),
{
    let e: i64 = v as i64 + 0x8000_0000;
    let m = ((e as u64) % 0x100) as u8;
    proof {
        lemma_mod_multiples_vanish(0x80_0000, v as int, 0x100);
        lemma_mod_bound(v as int, 0x100);
    }
    m
}

/// Computes the low sixteen bits of a sample, as two's complement.
pub fn wrap_to_i16(v: i32) -> (r: i16)
    ensures
        r == spec_wrap_i16(v),
{
    let e: i64 = v as i64 + 0x8000_0000;
    let m = ((e as u64) % 0x1_0000) as u32;
    proof {
        lemma_mod_multiples_vanish(0x8000, v as int, 0x1_0000);
        lemma_mod_bound(v as int, 0x1_0000);
    }
    if m >= 0x8000 {
        (-((0x1_0000 - m) as i32)) as i16
    } else {
        m as i16
    }
}

/// A type that audio samples can be decoded into.  Decoding is generic
/// over `u8`, `i16` and `i32`; each target says which uncompressed PCM
/// codecs it can represent and how a FLAC-decoded 32-bit sample narrows
/// into it.
pub trait Sample: Sized + Copy {
    /// The widest FLAC source bit depth this target accepts.
    spec fn max_source_bits() -> u32;

    /// The value this target takes for a decoded 32-bit sample.
    spec fn of_i32(v: i32) -> Self;

    /// Whether `read_pcm` accepts the codec.
    spec fn readable_codec(codec: CodecType) -> bool;

    /// How many bytes one sample of an accepted codec occupies.
    spec fn codec_width(codec: CodecType) -> int;

    /// The value decoded from the bytes of one sample of the codec.
    spec fn decode_codec(codec: CodecType, bytes: Seq<u8>) -> Self;

    /// Reads one uncompressed PCM sample of the given codec.
    fn read_pcm(reader: &mut ByteReader, codec: CodecType) -> (r: Result<Self, Error>)
        requires
            old(reader).wf(),
        ensures
            final(reader).wf(),
            final(reader).data@ == old(reader).data@,
            final(reader).pos >= old(reader).pos,
            !Self::readable_codec(codec) ==> (r matches Err(e) && e.is_unsupported())
                && final(reader).pos == old(reader).pos,
            Self::readable_codec(codec) ==> Self::codec_width(codec) >= 1,
            Self::readable_codec(codec) && old(reader).remaining() >= Self::codec_width(codec)
                ==> {
                &&& r == Result::<Self, Error>::Ok(
                    Self::decode_codec(
                        codec,
                        old(reader).data@.subrange(
                            old(reader).pos as int,
                            old(reader).pos + Self::codec_width(codec),
                        ),
                    ),
                )
                &&& final(reader).pos == old(reader).pos + Self::codec_width(codec)
            },
            Self::readable_codec(codec) && old(reader).remaining() < Self::codec_width(codec)
                ==> (r matches Err(e) && e.is_io()),
    ;

    /// Narrows a FLAC-decoded signed 32-bit sample of `bits` source
    /// bits into this target.
    fn from_i32(value: i32, bits: u32) -> (r: Result<Self, Error>)
        ensures
            bits <= Self::max_source_bits() ==> r == Result::<Self, Error>::Ok(
                Self::of_i32(value),
            ),
            bits > Self::max_source_bits() ==> (r matches Err(e) && e.is_unsupported()),
    ;
}

impl Sample for u8 {
    open spec fn max_source_bits() -> u32 {
        8
    }

    open spec fn of_i32(v: i32) -> u8 {
        spec_wrap_u8(v) as u8
    }

    open spec fn readable_codec(codec: CodecType) -> bool {
        codec == CodecType::CODEC_TYPE_PCM_U8
    }

    open spec fn codec_width(codec: CodecType) -> int {
        1
    }

    open spec fn decode_codec(codec: CodecType, bytes: Seq<u8>) -> u8 {
        bytes[0]
    }

    fn read_pcm(reader: &mut ByteReader, codec: CodecType) -> (r: Result<u8, Error>) {
        match codec {
            CodecType::CODEC_TYPE_PCM_U8 => {
                let b = reader.read_u8()?;
                Ok(b)
            },
            _ => unsupported_error("unsupported for u8"),
        }
    }

    fn from_i32(value: i32, bits: u32) -> (r: Result<u8, Error>) {
        if bits <= 8 {
            Ok(wrap_to_u8(value))
        } else {
            unsupported_error("invalid target for bits per sample")
        }
    }
}

impl Sample for i16 {
    open spec fn max_source_bits() -> u32 {
        16
    }

    open spec fn of_i32(v: i32) -> i16 {
        spec_wrap_i16(v) as i16
    }

    open spec fn readable_codec(codec: CodecType) -> bool {
        codec == CodecType::CODEC_TYPE_PCM_U8 || codec == CodecType::CODEC_TYPE_PCM_S16LE
    }

    open spec fn codec_width(codec: CodecType) -> int {
        if codec == CodecType::CODEC_TYPE_PCM_U8 {
            1
        } else {
            2
        }
    }

    open spec fn decode_codec(codec: CodecType, bytes: Seq<u8>) -> i16 {
        if codec == CodecType::CODEC_TYPE_PCM_U8 {
            bytes[0] as i16
        } else {
            spec_i16(spec_le16(bytes[0], bytes[1])) as i16
        }
    }

    fn read_pcm(reader: &mut ByteReader, codec: CodecType) -> (r: Result<i16, Error>) {
        match codec {
            CodecType::CODEC_TYPE_PCM_U8 => {
                let b = reader.read_u8()?;
                Ok(b as i16)
            },
            CodecType::CODEC_TYPE_PCM_S16LE => {
                let v = reader.read_le_i16()?;
                Ok(v)
            },
            _ => unsupported_error("unsupported for i16"),
        }
    }

    fn from_i32(value: i32, bits: u32) -> (r: Result<i16, Error>) {
        if bits <= 16 {
            Ok(wrap_to_i16(value))
        } else {
            unsupported_error("invalid target for bits per sample")
        }
    }
}

impl Sample for i32 {
    open spec fn max_source_bits() -> u32 {
        32
    }

    open spec fn of_i32(v: i32) -> i32 {
        v
    }

    open spec fn readable_codec(codec: CodecType) -> bool {
        codec == CodecType::CODEC_TYPE_PCM_U8 || codec == CodecType::CODEC_TYPE_PCM_S16LE
            || codec == CodecType::CODEC_TYPE_PCM_S24LE || codec == CodecType::CODEC_TYPE_PCM_S32LE
    }

    open spec fn codec_width(codec: CodecType) -> int {
        if codec == CodecType::CODEC_TYPE_PCM_U8 {
            1
        } else if codec == CodecType::CODEC_TYPE_PCM_S16LE {
            2
        } else if codec == CodecType::CODEC_TYPE_PCM_S24LE {
            3
        } else {
            4
        }
    }

    open spec fn decode_codec(codec: CodecType, bytes: Seq<u8>) -> i32 {
        if codec == CodecType::CODEC_TYPE_PCM_U8 {
            bytes[0] as i32
        } else if codec == CodecType::CODEC_TYPE_PCM_S16LE {
            spec_i16(spec_le16(bytes[0], bytes[1])) as i32
        } else if codec == CodecType::CODEC_TYPE_PCM_S24LE {
            spec_i24(spec_le24(bytes[0], bytes[1], bytes[2]))
        } else {
            spec_i32(spec_le32(bytes[0], bytes[1], bytes[2], bytes[3])) as i32
        }
    }

    fn read_pcm(reader: &mut ByteReader, codec: CodecType) -> (r: Result<i32, Error>) {
        match codec {
            CodecType::CODEC_TYPE_PCM_U8 => {
                let b = reader.read_u8()?;
                Ok(b as i32)
            },
            CodecType::CODEC_TYPE_PCM_S16LE => {
                let v = reader.read_le_i16()?;
                Ok(v as i32)
            },
            CodecType::CODEC_TYPE_PCM_S24LE => {
                let v = reader.read_le_i24()?;
                Ok(v)
            },
            CodecType::CODEC_TYPE_PCM_S32LE => {
                let v = reader.read_le_i32()?;
                Ok(v)
            },
            _ => unsupported_error("unsupported for i32"),
        }
    }

    fn from_i32(value: i32, bits: u32) -> (r: Result<i32, Error>) {
        if bits <= 32 {
            Ok(value)
        } else {
            unsupported_error("invalid target for bits per sample")
        }
    }
}

} // verus!
