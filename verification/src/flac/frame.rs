//! FLAC frame decoding: the frame header with its CRC-8 check, the
//! per-channel subframes, stereo decorrelation and the frame-wide
//! CRC-16 check.

use vstd::prelude::*;
use vstd::arithmetic::div_mod::{
    lemma_fundamental_div_mod, lemma_fundamental_div_mod_converse, lemma_mod_multiples_vanish,
};
use vstd::arithmetic::power2::{lemma2_to64, pow2};
use vstd::pervasive::VecAdditionalExecFns;

use crate::audio::AudioInfo;
use crate::bits::BitStream;
use crate::bytes::{
    crc16_carried, crc8_carried, lemma_crc16_carried_trans, lemma_crc8_carried_trans,
    lemma_crc_carried_refl, lemma_crc_carried_step, spec_be16, ByteReader,
};
use crate::crc::{crc16_seq, crc8_fold};
use crate::errors::{parse_error, unsupported_error, Error};
use crate::flac::decoder::{
    crop32, decode_constant, decode_fixed_linear, decode_lpc, decode_verbatim,
    lemma_crop32_identity, stream_advanced,
};

verus! {

/// Whether a frame header numbers frames or samples.
pub enum BlockStrategy {
    /// Fixed block size: the header carries a frame number.
    Fixed,
    /// Variable block size: the header carries a sample number.
    Variable,
}

/// The position a frame header declares for its first sample.
#[derive(PartialEq, Eq, Structural, Debug, Clone, Copy)]
pub enum BlockTime {
    /// The index of this frame, under the fixed blocking strategy.
    FrameNumber(u32),
    /// The index of this frame's first sample, under the variable
    /// blocking strategy.
    SampleNumber(u64),
}

/// How the channels of a frame are stored.
#[derive(PartialEq, Eq, Structural, Debug, Clone, Copy)]
pub enum ChannelType {
    /// The `n` channels are coded as-is.
    Independent(u8),
    /// Channel 0 is the left channel, channel 1 is the side channel.
    LeftSideStereo,
    /// Channel 0 is the side channel, channel 1 is the right channel.
    RightSideStereo,
    /// Channel 0 is the mid channel, channel 1 is the side channel.
    MidSideStereo,
}

/// A decoded FLAC frame header.
pub struct FrameHeader {
    /// The frame's position in the stream.
    pub block_type: BlockTime,
    /// Samples per channel in this frame.
    pub block_size: u16,
    /// Sample rate declared by this frame.
    pub sample_rate: u32,
    /// How the channels are stored.
    pub channel_type: ChannelType,
    /// Bits per sample of this frame.
    pub bits_per_sample: u32,
}

impl FrameHeader {
    /// The number of channels the frame holds.
    pub open spec fn spec_number_channels(self) -> int {
        match self.channel_type {
            ChannelType::Independent(n) => n as int,
            _ => 2,
        }
    }

    /// Returns the number of channels in this frame.
    pub fn number_channels(&self) -> (r: u8)
        ensures
            r == self.spec_number_channels(),
    {
        match self.channel_type {
            ChannelType::Independent(n) => n,
            _ => 2,
        }
    }
}

/// A block of decoded samples from one frame, laid out channel-major.
pub struct Block {
    /// Index of the first sample of this block w.r.t. total samples.
    pub first_sample_index: u64,
    /// Number of channel-independent samples in this block.
    pub block_size: u32,
    /// Number of channels in this block.
    pub no_channels: u32,
    /// Bits per sample.
    pub bits_per_sample: u32,
    /// Decoded samples with channels one after another.
    pub buffer: Vec<i32>,
}

impl Block {
    /// The buffer holds exactly one slot per channel and sample.
    pub open spec fn wf(self) -> bool {
        self.buffer@.len() == self.block_size * self.no_channels
    }

    /// Builds a block over a channel-major buffer of `no_channels`
    /// channels of `block_size` samples each.
    pub fn new(
        sample_index: u64,
        block_size: u32,
        no_channels: u32,
        bps: u32,
        buffer: Vec<i32>,
    ) -> (r: Block)
        requires
            buffer@.len() == block_size * no_channels,
        ensures
            r.wf(),
            r.first_sample_index == sample_index,
            r.block_size == block_size,
            r.no_channels == no_channels,
            r.bits_per_sample == bps,
            r.buffer@ == buffer@,
    {
        Block { first_sample_index: sample_index, block_size, no_channels, bits_per_sample: bps, buffer }
    }

    /// The empty block, used before the first frame is decoded.
    pub fn empty() -> (r: Block)
        ensures
            r.wf(),
            r.block_size == 0,
            r.no_channels == 0,
            r.buffer@.len() == 0,
    {
        Block {
            first_sample_index: 0,
            block_size: 0,
            no_channels: 0,
            bits_per_sample: 0,
            buffer: Vec::new(),
        }
    }

    /// The number of samples per channel in this block.
    pub fn total_samples(&self) -> (r: u32)
        ensures
            r == self.block_size,
    {
        self.block_size
    }

    /// The number of channels in this block.
    pub fn num_channels(&self) -> (r: u32)
        ensures
            r == self.no_channels,
    {
        self.no_channels
    }

    /// The bits per sample of this block.
    pub fn bits_per_sample(&self) -> (r: u32)
        ensures
            r == self.bits_per_sample,
    {
        self.bits_per_sample
    }

    /// Returns the underlying channel-major sample buffer.
    pub fn into_buffer(self) -> (r: Vec<i32>)
        ensures
            r@ == self.buffer@,
    {
        self.buffer
    }

    /// Returns the decoded sample of the given channel at the given
    /// index within the block.
    pub fn get_sample(&self, current_channel: u32, samples_read: u32) -> (r: i32)
        requires
            self.wf(),
            current_channel < self.no_channels,
            samples_read < self.block_size,
        ensures
            r == self.buffer@[current_channel * self.block_size + samples_read],
    {
        let len = self.buffer.len();
        proof {
            vstd::arithmetic::mul::lemma_mul_inequality(
                current_channel + 1,
                self.no_channels as int,
                self.block_size as int,
            );
            assert((current_channel + 1) * self.block_size == current_channel * self.block_size
                + self.block_size) by (nonlinear_arith);
            vstd::arithmetic::mul::lemma_mul_is_commutative(
                self.no_channels as int,
                self.block_size as int,
            );
        }
        self.buffer[current_channel as usize * self.block_size as usize + samples_read as usize]
    }
}

/// The 0-or-1 value of a sample's least significant bit.
pub open spec fn spec_lsb(s: i32) -> int {
    (s as int) % 2
}

/// The right channel recovered from a left-side pair.
pub open spec fn spec_left_side_right(left: i32, side: i32) -> int {
    crop32(left - side)
}

/// The left channel recovered from a right-side pair.
pub open spec fn spec_right_side_left(right: i32, side: i32) -> int {
    crop32(right + side)
}

/// The left channel recovered from a mid-side pair.
pub open spec fn spec_mid_side_left(mid: i32, side: i32) -> int {
    crop32(crop32(2 * mid) + spec_lsb(side) + side) / 2
}

/// The right channel recovered from a mid-side pair.
pub open spec fn spec_mid_side_right(mid: i32, side: i32) -> int {
    crop32(crop32(2 * mid) + spec_lsb(side) - side) / 2
}

/// Wrapping preserves parity.
pub proof fn lemma_crop32_parity(x: int)
    ensures
        crop32(x) % 2 == x % 2,
{
    let m = 0x1_0000_0000int;
    lemma_fundamental_div_mod(x, m);
    let k = if x % m >= 0x8000_0000 {
        x / m + 1
    } else {
        x / m
    };
    assert(m * (x / m + 1) == m * (x / m) + m) by (nonlinear_arith);
    assert(crop32(x) == x - m * k);
    assert(2 * (-0x8000_0000 * k) == -(0x1_0000_0000 * k)) by (nonlinear_arith);
    assert(-(0x1_0000_0000 * k) == -(m * k));
    lemma_mod_multiples_vanish(-0x8000_0000 * k, x, 2);
}

/// Computes the least significant bit of a sample.
pub fn lsb_i32(s: i32) -> (r: u32)
    ensures
        r == spec_lsb(s),
        r <= 1,
{
    let e: i64 = s as i64 + 0x8000_0000;
    let u: u64 = e as u64;
    let r = (u % 2) as u32;
    proof {
        lemma_mod_multiples_vanish(0x4000_0000, s as int, 2);
        vstd::arithmetic::div_mod::lemma_mod_bound(s as int, 2);
    }
    r
}

/// Halves an even sample exactly.
pub fn half_even(t: i32) -> (r: i32)
    requires
        (t as int) % 2 == 0,
    ensures
        r == (t as int) / 2,
{
    proof {
        lemma_fundamental_div_mod(t as int, 2);
    }
    if t >= 0 {
        let q = (t as u32) / 2;
        q as i32
    } else {
        let m = (-(t as i64)) as u64;
        let q = m / 2;
        proof {
            lemma_fundamental_div_mod(m as int, 2);
            assert((m as int) % 2 == 0) by {
                lemma_mod_multiples_vanish(-(t as int), t as int, 2);
                assert(2 * (-(t as int)) + t as int == -(t as int));
            }
            lemma_fundamental_div_mod_converse(t as int, 2, -(m as int / 2), 0);
        }
        (-(q as i64)) as i32
    }
}

/// Converts a buffer holding left samples then a side channel, in
/// place, to left then right.
#[verifier::loop_isolation(false)]
pub fn decode_left_side(buf: &mut Vec<i32>, block_size: usize)
    requires
        2 * block_size <= old(buf).len(),
    ensures
        final(buf).len() == old(buf).len(),
        forall|j: int|
            2 * block_size <= j < old(buf).len() ==> final(buf)@[j] == old(buf)@[j],
        forall|j: int| 0 <= j < block_size ==> final(buf)@[j] == old(buf)@[j],
        forall|j: int|
            0 <= j < block_size ==> #[trigger] final(buf)@[block_size + j] == spec_left_side_right(
                old(buf)@[j],
                old(buf)@[block_size + j],
            ),
{
    let mut i: usize = 0;
    while i < block_size
        invariant
            0 <= i <= block_size,
            buf.len() == old(buf).len(),
            forall|j: int| 0 <= j < block_size ==> buf@[j] == old(buf)@[j],
            forall|j: int| block_size + i <= j < old(buf).len() ==> buf@[j] == old(buf)@[j],
            forall|j: int|
                0 <= j < i ==> #[trigger] buf@[block_size + j] == spec_left_side_right(
                    old(buf)@[j],
                    old(buf)@[block_size + j],
                ),
        decreases block_size - i,
    {
        let left = buf[i];
        let side = buf[block_size + i];
        let right = crate::flac::decoder::crop_to_i32(left as i64 - side as i64);
        buf.set(block_size + i, right);
        i = i + 1;
    }
}

/// Converts a buffer holding a side channel then right samples, in
/// place, to left then right.
#[verifier::loop_isolation(false)]
pub fn decode_right_side(buf: &mut Vec<i32>, block_size: usize)
    requires
        2 * block_size <= old(buf).len(),
    ensures
        final(buf).len() == old(buf).len(),
        forall|j: int|
            2 * block_size <= j < old(buf).len() ==> final(buf)@[j] == old(buf)@[j],
        forall|j: int|
            block_size <= j < 2 * block_size ==> final(buf)@[j] == old(buf)@[j],
        forall|j: int|
            0 <= j < block_size ==> #[trigger] final(buf)@[j] == spec_right_side_left(
                old(buf)@[block_size + j],
                old(buf)@[j],
            ),
{
    let mut i: usize = 0;
    while i < block_size
        invariant
            0 <= i <= block_size,
            buf.len() == old(buf).len(),
            forall|j: int| i <= j < block_size ==> buf@[j] == old(buf)@[j],
            forall|j: int| block_size <= j < old(buf).len() ==> buf@[j] == old(buf)@[j],
            forall|j: int|
                0 <= j < i ==> #[trigger] buf@[j] == spec_right_side_left(
                    old(buf)@[block_size + j],
                    old(buf)@[j],
                ),
        decreases block_size - i,
    {
        let side = buf[i];
        let right = buf[block_size + i];
        let left = crate::flac::decoder::crop_to_i32(right as i64 + side as i64);
        buf.set(i, left);
        i = i + 1;
    }
}

/// Converts a buffer holding mid samples then a side channel, in place,
/// to left then right.
#[verifier::loop_isolation(false)]
pub fn decode_mid_side(buf: &mut Vec<i32>, block_size: usize)
    requires
        2 * block_size <= old(buf).len(),
    ensures
        final(buf).len() == old(buf).len(),
        forall|j: int|
            2 * block_size <= j < old(buf).len() ==> final(buf)@[j] == old(buf)@[j],
        forall|j: int|
            0 <= j < block_size ==> #[trigger] final(buf)@[j] == spec_mid_side_left(
                old(buf)@[j],
                old(buf)@[block_size + j],
            ),
        forall|j: int|
            0 <= j < block_size ==> #[trigger] final(buf)@[block_size + j] == spec_mid_side_right(
                old(buf)@[j],
                old(buf)@[block_size + j],
            ),
{
    let mut i: usize = 0;
    while i < block_size
        invariant
            0 <= i <= block_size,
            buf.len() == old(buf).len(),
            forall|j: int| i <= j < block_size ==> buf@[j] == old(buf)@[j],
            forall|j: int| block_size + i <= j < old(buf).len() ==> buf@[j] == old(buf)@[j],
            forall|j: int|
                0 <= j < i ==> #[trigger] buf@[j] == spec_mid_side_left(
                    old(buf)@[j],
                    old(buf)@[block_size + j],
                ),
            forall|j: int|
                0 <= j < i ==> #[trigger] buf@[block_size + j] == spec_mid_side_right(
                    old(buf)@[j],
                    old(buf)@[block_size + j],
                ),
        decreases block_size - i,
    {
        let m = buf[i];
        let s = buf[block_size + i];
        let lsb = lsb_i32(s);
        let mm = crate::flac::decoder::crop_to_i32(2 * (m as i64));
        let mm2: i64 = mm as i64 + lsb as i64;
        proof {
            lemma_crop32_parity(2 * (m as int));
            lemma_mod_multiples_vanish(m as int, 0, 2);
            let tsum = mm2 + s as int;
            let tdiff = mm2 - s as int;
            vstd::arithmetic::div_mod::lemma_mod_bound(s as int, 2);
            vstd::arithmetic::div_mod::lemma_add_mod_noop(mm as int + spec_lsb(s), s as int, 2);
            vstd::arithmetic::div_mod::lemma_add_mod_noop(mm as int + spec_lsb(s), -(s as int), 2);
            vstd::arithmetic::div_mod::lemma_add_mod_noop(mm as int, spec_lsb(s), 2);
            assert((-(s as int)) % 2 == (s as int) % 2) by {
                lemma_mod_multiples_vanish(-(s as int), s as int, 2);
                assert(2 * (-(s as int)) + s as int == -(s as int));
            }
            assert(tsum % 2 == 0);
            assert(tdiff % 2 == 0);
            lemma_crop32_parity(tsum);
            lemma_crop32_parity(tdiff);
        }
        let l = half_even(crate::flac::decoder::crop_to_i32(mm2 + s as i64));
        let r = half_even(crate::flac::decoder::crop_to_i32(mm2 - s as i64));
        buf.set(i, l);
        buf.set(block_size + i, r);
        i = i + 1;
    }
}

/// Mid-side decorrelation round-trips: encoding a left/right pair as
/// mid `(l + r) >> 1` and side `l - r` and decoding it again restores
/// the pair exactly, for samples below 31 bits.
pub proof fn lemma_mid_side_round_trip(l: i32, r: i32)
    requires
        -0x4000_0000 <= l < 0x4000_0000,
        -0x4000_0000 <= r < 0x4000_0000,
    ensures
        ({
            let m = crop32(l + r) / 2;
            let s = crop32(l - r);
            &&& spec_mid_side_left(m as i32, s as i32) == l
            &&& spec_mid_side_right(m as i32, s as i32) == r
        }),
{
    let sum = l + r;
    let diff = l - r;
    lemma_crop32_identity(sum);
    lemma_crop32_identity(diff);
    let m = sum / 2;
    let s = diff;
    lemma_fundamental_div_mod(sum, 2);
    let p = sum % 2;
    assert(2 * m == sum - p);
    assert(s % 2 == p) by {
        lemma_mod_multiples_vanish(-r, sum, 2);
        assert(2 * (-r) + sum == diff);
    }
    lemma_crop32_identity(2 * (m as i32));
    assert(crop32(2 * (m as i32)) + spec_lsb(s as i32) + s == 2 * l);
    assert(crop32(2 * (m as i32)) + spec_lsb(s as i32) - s == 2 * r);
    lemma_crop32_identity(2 * l);
    lemma_crop32_identity(2 * r);
    assert((2 * l) / 2 == l) by {
        lemma_fundamental_div_mod_converse(2 * l, 2, l as int, 0);
    }
    assert((2 * r) / 2 == r) by {
        lemma_fundamental_div_mod_converse(2 * r, 2, r as int, 0);
    }
}

/// The number of leading 1 bits of a byte.
pub open spec fn spec_leading_ones(b: u8) -> int {
    if b < 0x80 {
        0
    } else if b < 0xc0 {
        1
    } else if b < 0xe0 {
        2
    } else if b < 0xf0 {
        3
    } else if b < 0xf8 {
        4
    } else if b < 0xfc {
        5
    } else if b < 0xfe {
        6
    } else if b < 0xff {
        7
    } else {
        8
    }
}

/// How many continuation bytes a first byte announces.
pub open spec fn spec_utf8_extra(b: u8) -> int {
    let ones = spec_leading_ones(b);
    if ones > 0 {
        ones - 1
    } else {
        0
    }
}

/// The payload bits of a first byte: everything below its marker bits.
pub open spec fn spec_utf8_payload(b: u8) -> int {
    let ones = spec_leading_ones(b);
    if ones >= 8 {
        0
    } else {
        (b as int) % (pow2((7 - ones) as nat) as int)
    }
}

/// Whether a byte has the continuation shape `10xxxxxx`.
pub open spec fn spec_is_continuation(b: u8) -> bool {
    0x80 <= b < 0xc0
}

/// The value carried by `k` continuation bytes starting at byte `p`:
/// each byte appends its low six bits.
pub open spec fn spec_utf8_tail_value(data: Seq<u8>, p: int, k: int) -> int
    decreases k,
{
    if k <= 0 {
        0
    } else {
        spec_utf8_tail_value(data, p, k - 1) * 64 + (data[p + k - 1] as int % 64)
    }
}

/// A coded integer is well formed at byte `p`: the first byte is no
/// bare continuation byte, and all its continuation bytes are present
/// and carry the continuation marker.
pub open spec fn spec_utf8_valid(data: Seq<u8>, p: int) -> bool {
    &&& p < data.len()
    &&& spec_leading_ones(data[p]) != 1
    &&& p + 1 + spec_utf8_extra(data[p]) <= data.len()
    &&& (forall|i: int|
        0 <= i < spec_utf8_extra(data[p]) ==> spec_is_continuation(#[trigger] data[p + 1 + i]))
}

/// The value of the whole coded integer at byte `p`.
pub open spec fn spec_utf8_value(data: Seq<u8>, p: int) -> int {
    spec_utf8_payload(data[p]) * pow2((6 * spec_utf8_extra(data[p])) as nat)
        + spec_utf8_tail_value(data, p + 1, spec_utf8_extra(data[p]))
}

/// A continuation tail's value stays below `2^(6k)`.
pub proof fn lemma_utf8_tail_bound(data: Seq<u8>, p: int, k: int)
    requires
        0 <= k,
    ensures
        0 <= spec_utf8_tail_value(data, p, k) < pow2((6 * k) as nat),
    decreases k,
{
    vstd::arithmetic::power2::lemma_pow2_pos((6 * k) as nat);
    if k > 0 {
        lemma_utf8_tail_bound(data, p, k - 1);
        vstd::arithmetic::power2::lemma_pow2_adds((6 * (k - 1)) as nat, 6);
        lemma2_to64();
        let c = (data[p + k - 1] as int) % 64;
        let t = spec_utf8_tail_value(data, p, k - 1);
        let pw = pow2((6 * (k - 1)) as nat) as int;
        assert(0 <= t * 64 + c && t * 64 + c < pw * 64) by (nonlinear_arith)
            requires
                0 <= t < pw,
                0 <= c <= 63,
                0 < pw,
        ;
    }
}

/// Reads a variable-length integer coded UTF-8 style, carrying up to 36
/// payload bits over at most seven bytes.
#[verifier::loop_isolation(false)]
pub fn read_utf8_coded_int(rdr: &mut ByteReader) -> (r: Result<u64, Error>)
    requires
        old(rdr).wf(),
    ensures
        final(rdr).wf(),
        final(rdr).data@ == old(rdr).data@,
        old(rdr).pos <= final(rdr).pos <= old(rdr).pos + 8,
        crc16_carried(*old(rdr), *final(rdr)),
        crc8_carried(*old(rdr), *final(rdr)),
        r matches Err(e) ==> e == Error::IoError(crate::bytes::END_OF_STREAM) || e
            == Error::ParseError("Invalid utf8 encoding for integer") || e == Error::ParseError(
            "invalid utf8 encoding for integer",
        ),
        ({
            let d = old(rdr).data@;
            let p = old(rdr).pos as int;
            &&& (p >= d.len() ==> r == Result::<u64, Error>::Err(
                Error::IoError(crate::bytes::END_OF_STREAM),
            ))
            &&& (p < d.len() ==> {
                let extra = spec_utf8_extra(d[p]);
                &&& (spec_leading_ones(d[p]) == 1 ==> r == Result::<u64, Error>::Err(
                    Error::ParseError("Invalid utf8 encoding for integer"),
                ))
                &&& (spec_leading_ones(d[p]) != 1 && (exists|i: int|
                    0 <= i < extra && p + 1 + i < d.len() && !spec_is_continuation(
                        #[trigger] d[p + 1 + i],
                    )) ==> r == Result::<u64, Error>::Err(
                    Error::ParseError("invalid utf8 encoding for integer"),
                ))
                &&& (spec_leading_ones(d[p]) != 1 && (forall|i: int|
                    0 <= i < extra && p + 1 + i < d.len() ==> spec_is_continuation(
                        #[trigger] d[p + 1 + i],
                    )) && p + 1 + extra > d.len() ==> r == Result::<u64, Error>::Err(
                    Error::IoError(crate::bytes::END_OF_STREAM),
                ))
                &&& (spec_utf8_valid(d, p) ==> r == Result::<u64, Error>::Ok(
                    spec_utf8_value(d, p) as u64,
                ) && final(rdr).pos == p + 1 + extra)
            })
        }),
{
    let ghost s0 = *old(rdr);
    let ghost d = old(rdr).data@;
    let ghost p = old(rdr).pos as int;
    let first = match rdr.read_u8() {
        Ok(b) => b,
        Err(e) => {
            proof {
                lemma_crc_carried_refl(s0, *rdr);
            }
            return Err(e);
        },
    };
    proof {
        lemma_crc_carried_step(s0, *rdr);
    }
    let ones: u32 = if first < 0x80 {
        0
    } else if first < 0xc0 {
        1
    } else if first < 0xe0 {
        2
    } else if first < 0xf0 {
        3
    } else if first < 0xf8 {
        4
    } else if first < 0xfc {
        5
    } else if first < 0xfe {
        6
    } else if first < 0xff {
        7
    } else {
        8
    };
    // A first byte of the shape 10xxxxxx is a bare continuation byte.
    if ones == 1 {
        return parse_error("Invalid utf8 encoding for integer");
    }
    let read_extra: u32 = if ones > 0 {
        ones - 1
    } else {
        0
    };
    // The payload modulus 2^(7 - ones) masks the marker bits away.
    let modulus: u64 = if ones == 0 {
        128
    } else if ones == 2 {
        32
    } else if ones == 3 {
        16
    } else if ones == 4 {
        8
    } else if ones == 5 {
        4
    } else if ones == 6 {
        2
    } else {
        1
    };
    let payload: u64 = if ones >= 8 {
        0
    } else {
        first as u64 % modulus
    };
    proof {
        lemma2_to64();
        vstd::arithmetic::power2::lemma2_to64_rest();
        assert(payload == spec_utf8_payload(first));
        vstd::bits::lemma_u64_pow2_no_overflow((6 * read_extra) as nat);
        vstd::bits::lemma_u64_shl_is_mul(1u64, (6 * read_extra) as u64);
        if 6 * read_extra < 42 {
            vstd::arithmetic::power2::lemma_pow2_strictly_increases((6 * read_extra) as nat, 42);
        }
    }
    let p2extra: u64 = 1u64 << (6 * read_extra);
    proof {
        assert(payload * p2extra < 0x2_0000_0000_0000) by (nonlinear_arith)
            requires
                payload < 128,
                p2extra <= 0x400_0000_0000,
        ;
        assert(payload * p2extra >= 0) by (nonlinear_arith)
            requires
                payload >= 0,
                p2extra >= 0,
        ;
    }
    let mut result: u64 = payload * p2extra;
    let mut k: u32 = 0;
    while k < read_extra
        invariant
            read_extra <= 7,
            k <= read_extra,
            rdr.wf(),
            rdr.data@ == d,
            rdr.pos == p + 1 + k,
            crc16_carried(s0, *rdr),
            crc8_carried(s0, *rdr),
            forall|i: int| 0 <= i < k ==> spec_is_continuation(#[trigger] d[p + 1 + i]),
            result == spec_utf8_payload(first) * pow2((6 * read_extra) as nat)
                + spec_utf8_tail_value(d, p + 1, k as int) * pow2((6 * (read_extra - k)) as nat),
            result < 0x4_0000_0000_0000,
        decreases read_extra - k,
    {
        let ghost mid = *rdr;
        let byte = match rdr.read_u8() {
            Ok(b) => b,
            Err(e) => {
                proof {
                    lemma_crc_carried_refl(*rdr, *rdr);
                    assert(p + 1 + k == d.len());
                    assert forall|i: int|
                        0 <= i < read_extra && p + 1 + i < d.len() implies spec_is_continuation(
                        #[trigger] d[p + 1 + i],
                    ) by {
                        assert(i < k);
                    }
                    assert(!(exists|i: int|
                        0 <= i < read_extra && p + 1 + i < d.len() && !spec_is_continuation(
                            #[trigger] d[p + 1 + i],
                        )));
                }
                return Err(e);
            },
        };
        proof {
            lemma_crc_carried_step(mid, *rdr);
            lemma_crc16_carried_trans(s0, mid, *rdr);
            lemma_crc8_carried_trans(s0, mid, *rdr);
        }
        if !(byte >= 0x80 && byte < 0xc0) {
            proof {
                assert(p + 1 + k < d.len() && !spec_is_continuation(d[p + 1 + k]));
            }
            return parse_error("invalid utf8 encoding for integer");
        }
        proof {
            lemma_utf8_tail_bound(d, p + 1, k as int);
            lemma_utf8_tail_bound(d, p + 1, k + 1);
            vstd::arithmetic::power2::lemma_pow2_adds((6 * (read_extra - k - 1)) as nat, 6);
            lemma2_to64();
            vstd::arithmetic::power2::lemma2_to64_rest();
            if 6 * (read_extra - 1 - k) < 42 {
                vstd::arithmetic::power2::lemma_pow2_strictly_increases(
                    (6 * (read_extra - 1 - k)) as nat,
                    42,
                );
            }
            let tv = spec_utf8_tail_value(d, p + 1, k as int);
            let c = (d[p + 1 + k] as int) % 64;
            let pw = pow2((6 * (read_extra - k - 1)) as nat) as int;
            // The new byte folds into the tail: tail(k+1) == tail(k)*64 + c.
            assert(spec_utf8_tail_value(d, p + 1, k + 1) == tv * 64 + c);
            assert((tv * 64 + c) * pw == tv * (pw * 64) + c * pw) by (nonlinear_arith);
            assert(0 <= c * pw && c * pw <= 63 * 0x400_0000_0000) by (nonlinear_arith)
                requires
                    0 <= c <= 63,
                    0 < pw <= 0x400_0000_0000,
            ;
            vstd::bits::lemma_u64_pow2_no_overflow((6 * (read_extra - 1 - k)) as nat);
            vstd::bits::lemma_u64_shl_is_mul(1u64, (6 * (read_extra - 1 - k)) as u64);
            assert(spec_utf8_tail_value(d, p + 1, k + 1) * pw < pow2((6 * (k + 1)) as nat)
                * pw) by (nonlinear_arith)
                requires
                    spec_utf8_tail_value(d, p + 1, k + 1) < pow2((6 * (k + 1)) as nat),
                    0 < pw,
            ;
            vstd::arithmetic::power2::lemma_pow2_adds(
                (6 * (k + 1)) as nat,
                (6 * (read_extra - k - 1)) as nat,
            );
            assert(pow2((6 * (k + 1)) as nat) * pw == pow2((6 * read_extra) as nat));
            if 6 * read_extra < 42 {
                vstd::arithmetic::power2::lemma_pow2_strictly_increases(
                    (6 * read_extra) as nat,
                    42,
                );
            }
            assert(spec_utf8_payload(first) * pow2((6 * read_extra) as nat)
                < 0x2_0000_0000_0000) by (nonlinear_arith)
                requires
                    0 <= spec_utf8_payload(first) < 128,
                    0 < pow2((6 * read_extra) as nat) <= 0x400_0000_0000,
            ;
            assert(0 <= spec_utf8_tail_value(d, p + 1, k + 1) * pw) by (nonlinear_arith)
                requires
                    0 <= spec_utf8_tail_value(d, p + 1, k + 1),
                    0 < pw,
            ;
        }
        let weight: u64 = 1u64 << (6 * (read_extra - 1 - k));
        result = result + (byte as u64 % 64) * weight;
        k = k + 1;
    }
    proof {
        lemma2_to64();
        assert(spec_utf8_valid(d, p));
        let tv = spec_utf8_tail_value(d, p + 1, read_extra as int);
        assert(tv * pow2(0) == tv) by (nonlinear_arith)
            requires
                pow2(0) == 1,
        ;
        assert(result == spec_utf8_value(d, p));
    }
    Ok(result)
}

/// Reads and validates a FLAC frame header whose big-endian sync word
/// has already been consumed through the same reader.  On success the
/// trailing CRC-8 byte of the header equals the register accumulated
/// over every header byte, the sync word included.
#[verifier::loop_isolation(false)]
#[verifier::rlimit(100)]
#[verifier::spinoff_prover]
pub fn read_frame_header(rdr: &mut ByteReader, audio_info: &AudioInfo, sync_code: u16) -> (r:
    Result<FrameHeader, Error>)
    requires
        old(rdr).wf(),
        1 <= audio_info.bits_per_sample <= 32,
    ensures
        final(rdr).wf(),
        final(rdr).data@ == old(rdr).data@,
        final(rdr).pos >= old(rdr).pos,
        crc16_carried(*old(rdr), *final(rdr)),
        r matches Ok(h) ==> ({
            let b1 = old(rdr).data@[old(rdr).pos as int];
            let b2 = old(rdr).data@[old(rdr).pos + 1];
            let bsc = b1 >> 4u8;
            let src = b1 & 0x0f;
            let chc = b2 >> 4u8;
            let bpc = (b2 & 0x0e) >> 1u8;
            &&& 1 <= h.block_size
            &&& 1 <= h.spec_number_channels() <= 8
            &&& 1 <= h.bits_per_sample <= 32
            &&& final(rdr).pos >= old(rdr).pos + 3
            &&& final(rdr).data@[final(rdr).pos - 1] == crc8_fold(
                old(rdr).crc8,
                final(rdr).data@.subrange(old(rdr).pos as int, final(rdr).pos - 1),
            )
            &&& bsc != 0
            &&& (bsc == 1 ==> h.block_size == 192)
            &&& (2 <= bsc <= 5 ==> h.block_size == 576 * pow2((bsc - 2) as nat))
            &&& (8 <= bsc ==> h.block_size == 256 * pow2((bsc - 8) as nat))
            &&& (src == 0 ==> h.sample_rate == audio_info.sample_rate)
            &&& (src == 1 ==> h.sample_rate == 88200)
            &&& (src == 2 ==> h.sample_rate == 176400)
            &&& (src == 3 ==> h.sample_rate == 192000)
            &&& (src == 4 ==> h.sample_rate == 8000)
            &&& (src == 5 ==> h.sample_rate == 16000)
            &&& (src == 6 ==> h.sample_rate == 22050)
            &&& (src == 7 ==> h.sample_rate == 24000)
            &&& (src == 8 ==> h.sample_rate == 32000)
            &&& (src == 9 ==> h.sample_rate == 44100)
            &&& (src == 10 ==> h.sample_rate == 48000)
            &&& (src == 11 ==> h.sample_rate == 96000)
            &&& src != 15
            &&& (chc < 8 ==> h.channel_type == ChannelType::Independent((chc + 1) as u8))
            &&& (chc == 8 ==> h.channel_type == ChannelType::LeftSideStereo)
            &&& (chc == 9 ==> h.channel_type == ChannelType::RightSideStereo)
            &&& (chc == 10 ==> h.channel_type == ChannelType::MidSideStereo)
            &&& chc <= 10
            &&& (bpc == 0 ==> h.bits_per_sample == audio_info.bits_per_sample)
            &&& (bpc == 1 ==> h.bits_per_sample == 8)
            &&& (bpc == 2 ==> h.bits_per_sample == 12)
            &&& (bpc == 4 ==> h.bits_per_sample == 16)
            &&& (bpc == 5 ==> h.bits_per_sample == 20)
            &&& (bpc == 6 ==> h.bits_per_sample == 24)
            &&& bpc != 3 && bpc != 7
            &&& b2 & 0x01 == 0
            &&& ((sync_code & 0b0000_0000_0000_0001 == 0) <==> h.block_type is FrameNumber)
            &&& ({
                let d = old(rdr).data@;
                let pu = old(rdr).pos + 3 + spec_utf8_extra(d[old(rdr).pos + 2]);
                let psr = pu + (if bsc == 6 {
                    1int
                } else if bsc == 7 {
                    2int
                } else {
                    0int
                });
                &&& (bsc == 6 ==> h.block_size == d[pu] + 1)
                &&& (bsc == 7 ==> h.block_size == spec_be16(d[pu], d[pu + 1]) + 1)
                &&& (src == 12 ==> h.sample_rate == d[psr])
                &&& (src == 13 ==> h.sample_rate == spec_be16(d[psr], d[psr + 1]))
                &&& (src == 14 ==> h.sample_rate == spec_be16(d[psr], d[psr + 1]) * 10)
            })
        }),
        sync_code & 0b1111_1111_1111_1100 != 0b1111_1111_1111_1000 ==> r == Result::<
            FrameHeader,
            Error,
        >::Err(Error::ParseError("frame sync code incorrect")),
        r matches Err(e) ==> e.is_io() || e == Error::ParseError("frame sync code incorrect") || e
            == Error::ParseError("invalid frame header") || e == Error::ParseError(
            "Invalid utf8 encoding for integer",
        ) || e == Error::ParseError("invalid utf8 encoding for integer") || e
            == Error::ParseError("CRC match failed, Invalid frame") || e == Error::Unsupported(
            "invalid frame header, encountered reserved value",
        ),
        r == Result::<FrameHeader, Error>::Err(
            Error::ParseError("CRC match failed, Invalid frame"),
        ) ==> final(rdr).pos >= old(rdr).pos + 1 && final(rdr).data@[final(rdr).pos - 1]
            != crc8_fold(
            old(rdr).crc8,
            final(rdr).data@.subrange(old(rdr).pos as int, final(rdr).pos - 1),
        ),
        ({
            let d = old(rdr).data@;
            let p = old(rdr).pos as int;
            let b1 = d[p];
            let b2 = d[p + 1];
            let bsc = b1 >> 4u8;
            let src = b1 & 0x0f;
            let chc = b2 >> 4u8;
            let bpc = (b2 & 0x0e) >> 1u8;
            let pu = p + 3 + spec_utf8_extra(d[p + 2]);
            let bse = if bsc == 6 {
                1int
            } else if bsc == 7 {
                2int
            } else {
                0int
            };
            let sre = if src == 12 {
                1int
            } else if src == 13 || src == 14 {
                2int
            } else {
                0int
            };
            let pcrc = pu + bse + sre;
            &&& sync_code & 0b1111_1111_1111_1100 == 0b1111_1111_1111_1000
            &&& sync_code & 0b0000_0000_0000_0010 == 0
            &&& bsc != 0
            &&& src != 15
            &&& chc <= 10
            &&& bpc != 3 && bpc != 7
            &&& b2 & 0x01 == 0
            &&& spec_utf8_valid(d, p + 2)
            &&& pcrc + 1 <= d.len()
            &&& !(bsc == 7 && spec_be16(d[pu], d[pu + 1]) == 0xffff)
            &&& d[pcrc] == crc8_fold(old(rdr).crc8, d.subrange(p, pcrc))
        }) ==> r is Ok,
{
    let ghost s0 = *old(rdr);
    proof {
        lemma_crc_carried_refl(s0, s0);
        reveal_strlit("frame sync code incorrect");
        reveal_strlit("invalid frame header");
        reveal_strlit("Invalid utf8 encoding for integer");
        reveal_strlit("invalid utf8 encoding for integer");
        reveal_strlit("CRC match failed, Invalid frame");
    }
    if sync_code & 0b1111_1111_1111_1100 != 0b1111_1111_1111_1000 {
        return parse_error("frame sync code incorrect");
    }
    if sync_code & 0b0000_0000_0000_0010 != 0 {
        return unsupported_error("invalid frame header, encountered reserved value");
    }
    let blocking_strategy = if sync_code & 0b0000_0000_0000_0001 == 0 {
        BlockStrategy::Fixed
    } else {
        BlockStrategy::Variable
    };
    let bs_sr = match rdr.read_u8() {
        Ok(b) => b,
        Err(e) => {
            return Err(e);
        },
    };
    proof {
        lemma_crc_carried_step(s0, *rdr);
    }
    let mut block_size: u16 = 0;
    let mut read_bs_last: u8 = 0;
    let bs_code = bs_sr >> 4u8;
    proof {
        assert(bs_sr >> 4u8 < 16) by (bit_vector);
        assert(bs_sr & 0b0000_1111 < 16) by (bit_vector);
    }
    if bs_code == 0 {
        return unsupported_error("invalid frame header, encountered reserved value");
    } else if bs_code == 1 {
        block_size = 192;
    } else if bs_code <= 5 {
        proof {
            lemma2_to64();
            vstd::bits::lemma_u16_shl_is_mul(1u16, (bs_code - 2) as u16);
        }
        block_size = 576 * (1u16 << (bs_code - 2) as u16);
    } else if bs_code == 6 {
        read_bs_last = 1;
    } else if bs_code == 7 {
        read_bs_last = 2;
    } else {
        proof {
            lemma2_to64();
            vstd::bits::lemma_u16_shl_is_mul(1u16, (bs_code - 8) as u16);
        }
        block_size = 256 * (1u16 << (bs_code - 8) as u16);
    }
    let mut sample_rate: u32 = 0;
    let mut read_sr_last: u8 = 0;
    let sr_code = bs_sr & 0b0000_1111;
    if sr_code == 0 {
        sample_rate = audio_info.sample_rate;
    } else if sr_code == 1 {
        sample_rate = 88200;
    } else if sr_code == 2 {
        sample_rate = 176400;
    } else if sr_code == 3 {
        sample_rate = 192000;
    } else if sr_code == 4 {
        sample_rate = 8000;
    } else if sr_code == 5 {
        sample_rate = 16000;
    } else if sr_code == 6 {
        sample_rate = 22050;
    } else if sr_code == 7 {
        sample_rate = 24000;
    } else if sr_code == 8 {
        sample_rate = 32000;
    } else if sr_code == 9 {
        sample_rate = 44100;
    } else if sr_code == 10 {
        sample_rate = 48000;
    } else if sr_code == 11 {
        sample_rate = 96000;
    } else if sr_code == 12 {
        read_sr_last = 1;
    } else if sr_code == 13 {
        read_sr_last = 2;
    } else if sr_code == 14 {
        read_sr_last = 3;
    } else {
        return parse_error("invalid frame header");
    }
    let ghost s1 = *rdr;
    let ch_bps_r = match rdr.read_u8() {
        Ok(b) => b,
        Err(e) => {
            proof {
                lemma_crc16_carried_trans(s0, s1, *rdr);
            }
            return Err(e);
        },
    };
    proof {
        lemma_crc_carried_step(s1, *rdr);
        lemma_crc16_carried_trans(s0, s1, *rdr);
        lemma_crc8_carried_trans(s0, s1, *rdr);
        assert(ch_bps_r >> 4u8 < 16) by (bit_vector);
    }
    let ch_code = ch_bps_r >> 4u8;
    let channel_type: ChannelType = if ch_code < 8 {
        ChannelType::Independent(ch_code + 1)
    } else if ch_code == 8 {
        ChannelType::LeftSideStereo
    } else if ch_code == 9 {
        ChannelType::RightSideStereo
    } else if ch_code == 10 {
        ChannelType::MidSideStereo
    } else {
        return unsupported_error("invalid frame header, encountered reserved value");
    };
    let bps_code = (ch_bps_r & 0b0000_1110) >> 1u8;
    proof {
        assert((ch_bps_r & 0b0000_1110) >> 1u8 < 8) by (bit_vector);
    }
    let bps: u32 = if bps_code == 0 {
        audio_info.bits_per_sample
    } else if bps_code == 1 {
        8
    } else if bps_code == 2 {
        12
    } else if bps_code == 4 {
        16
    } else if bps_code == 5 {
        20
    } else if bps_code == 6 {
        24
    } else {
        return unsupported_error("invalid frame header, encountered reserved value");
    };
    if ch_bps_r & 0b0000_0001 != 0 {
        return unsupported_error("invalid frame header, encountered reserved value");
    }
    let ghost s2 = *rdr;
    let coded = match read_utf8_coded_int(rdr) {
        Ok(v) => v,
        Err(e) => {
            proof {
                lemma_crc16_carried_trans(s0, s2, *rdr);
            }
            return Err(e);
        },
    };
    proof {
        lemma_crc16_carried_trans(s0, s2, *rdr);
        lemma_crc8_carried_trans(s0, s2, *rdr);
        let pc = s2.pos as int;
        let dd = s2.data@;
        assert(spec_utf8_valid(dd, pc)) by {
            if pc >= dd.len() {
            } else {
                let extra = spec_utf8_extra(dd[pc]);
                if spec_leading_ones(dd[pc]) == 1 {
                } else if exists|i: int|
                    0 <= i < extra && pc + 1 + i < dd.len() && !spec_is_continuation(
                        #[trigger] dd[pc + 1 + i],
                    ) {
                } else if pc + 1 + extra > dd.len() {
                } else {
                    assert forall|i: int| 0 <= i < extra implies spec_is_continuation(
                        #[trigger] dd[pc + 1 + i],
                    ) by {
                        assert(pc + 1 + i < dd.len());
                    }
                }
            }
        }
        assert(rdr.pos == s2.pos + 1 + spec_utf8_extra(dd[pc]));
    }
    let block_type: BlockTime = if matches!(blocking_strategy, BlockStrategy::Fixed) {
        proof {
            vstd::bits::lemma_u64_low_bits_mask_is_mod(coded, 32);
            vstd::bits::lemma_low_bits_mask_values();
            vstd::arithmetic::power2::lemma2_to64_rest();
            vstd::arithmetic::power2::lemma_pow2_pos(32);
            vstd::arithmetic::div_mod::lemma_mod_bound(coded as int, pow2(32) as int);
        }
        BlockTime::FrameNumber((coded & 0xffff_ffff) as u32)
    } else {
        BlockTime::SampleNumber(coded)
    };
    if read_bs_last == 1 {
        let ghost s3 = *rdr;
        let v = match rdr.read_u8() {
            Ok(v) => v,
            Err(e) => {
                proof {
                    lemma_crc_carried_refl(s3, *rdr);
                    lemma_crc16_carried_trans(s0, s3, *rdr);
                }
                return Err(e);
            },
        };
        proof {
            lemma_crc_carried_step(s3, *rdr);
            lemma_crc16_carried_trans(s0, s3, *rdr);
            lemma_crc8_carried_trans(s0, s3, *rdr);
        }
        block_size = v as u16 + 1;
    }
    if read_bs_last == 2 {
        let ghost s3 = *rdr;
        let v = match rdr.read_be_u16() {
            Ok(v) => v,
            Err(e) => {
                proof {
                    lemma_crc16_carried_trans(s0, s3, *rdr);
                }
                return Err(e);
            },
        };
        proof {
            lemma_crc_carried_step(s3, ByteReader {
                pos: (s3.pos + 1) as usize,
                crc8: crate::crc::crc8_step(s3.crc8, s3.data@[s3.pos as int]),
                crc16: crate::crc::crc16_step(s3.crc16, s3.data@[s3.pos as int]),
                ..s3
            });
            lemma_crc_carried_step(ByteReader {
                pos: (s3.pos + 1) as usize,
                crc8: crate::crc::crc8_step(s3.crc8, s3.data@[s3.pos as int]),
                crc16: crate::crc::crc16_step(s3.crc16, s3.data@[s3.pos as int]),
                ..s3
            }, *rdr);
            lemma_crc16_carried_trans(s3, ByteReader {
                pos: (s3.pos + 1) as usize,
                crc8: crate::crc::crc8_step(s3.crc8, s3.data@[s3.pos as int]),
                crc16: crate::crc::crc16_step(s3.crc16, s3.data@[s3.pos as int]),
                ..s3
            }, *rdr);
            lemma_crc8_carried_trans(s3, ByteReader {
                pos: (s3.pos + 1) as usize,
                crc8: crate::crc::crc8_step(s3.crc8, s3.data@[s3.pos as int]),
                crc16: crate::crc::crc16_step(s3.crc16, s3.data@[s3.pos as int]),
                ..s3
            }, *rdr);
            lemma_crc16_carried_trans(s0, s3, *rdr);
            lemma_crc8_carried_trans(s0, s3, *rdr);
        }
        if v == 0xffff {
            return parse_error("invalid frame header");
        }
        block_size = v + 1;
    }
    if read_sr_last == 1 {
        let ghost s3 = *rdr;
        let v = match rdr.read_u8() {
            Ok(v) => v,
            Err(e) => {
                proof {
                    lemma_crc_carried_refl(s3, *rdr);
                    lemma_crc16_carried_trans(s0, s3, *rdr);
                }
                return Err(e);
            },
        };
        proof {
            lemma_crc_carried_step(s3, *rdr);
            lemma_crc16_carried_trans(s0, s3, *rdr);
            lemma_crc8_carried_trans(s0, s3, *rdr);
        }
        sample_rate = v as u32;
    }
    if read_sr_last == 2 || read_sr_last == 3 {
        let ghost s3 = *rdr;
        let v = match rdr.read_be_u16() {
            Ok(v) => v,
            Err(e) => {
                proof {
                    lemma_crc16_carried_trans(s0, s3, *rdr);
                }
                return Err(e);
            },
        };
        proof {
            let sm = ByteReader {
                pos: (s3.pos + 1) as usize,
                crc8: crate::crc::crc8_step(s3.crc8, s3.data@[s3.pos as int]),
                crc16: crate::crc::crc16_step(s3.crc16, s3.data@[s3.pos as int]),
                ..s3
            };
            lemma_crc_carried_step(s3, sm);
            lemma_crc_carried_step(sm, *rdr);
            lemma_crc16_carried_trans(s3, sm, *rdr);
            lemma_crc8_carried_trans(s3, sm, *rdr);
            lemma_crc16_carried_trans(s0, s3, *rdr);
            lemma_crc8_carried_trans(s0, s3, *rdr);
        }
        if read_sr_last == 2 {
            sample_rate = v as u32;
        } else {
            sample_rate = v as u32 * 10;
        }
    }
    let crc_computed = rdr.crc8;
    let ghost s4 = *rdr;
    let stored = match rdr.read_u8() {
        Ok(v) => v,
        Err(e) => {
            proof {
                lemma_crc_carried_refl(s4, *rdr);
                lemma_crc16_carried_trans(s0, s4, *rdr);
            }
            return Err(e);
        },
    };
    proof {
        lemma_crc_carried_step(s4, *rdr);
        lemma_crc16_carried_trans(s0, s4, *rdr);
    }
    if crc_computed != stored {
        return parse_error("CRC match failed, Invalid frame");
    }
    Ok(FrameHeader { block_type, block_size, sample_rate, channel_type, bits_per_sample: bps })
}

/// Resizes the reused block buffer to the new frame's sample count:
/// the kept prefix is unchanged and any growth is zero-filled.
pub fn correct_buffer_len(buffer: Vec<i32>, new_len: usize) -> (r: Vec<i32>)
    ensures
        r.len() == new_len,
        forall|j: int| 0 <= j < new_len && j < buffer@.len() ==> r@[j] == buffer@[j],
        forall|j: int| buffer@.len() <= j < new_len ==> r@[j] == 0,
{
    let mut b = buffer;
    if b.len() != new_len {
        b.resize(new_len, 0);
    }
    b
}

/// Decodes one subframe into `buf[start..end]`: the padding bit, the
/// subframe type code, the wasted-bits count, the chosen body, and the
/// final wasted-bits shift.
#[verifier::loop_isolation(false)]
#[verifier::rlimit(100)]
#[verifier::spinoff_prover]
pub fn decode_subframe(
    bs: &mut BitStream,
    rdr: &mut ByteReader,
    bps: u32,
    buf: &mut Vec<i32>,
    start: usize,
    end: usize,
) -> (r: Result<(), Error>)
    requires
        bps <= 32,
        start <= end <= old(buf).len(),
        end - start <= 0xffff,
        old(bs).wf(*old(rdr)),
        old(rdr).wf(),
    ensures
        stream_advanced(*old(bs), *old(rdr), *final(bs), *final(rdr)),
        crate::flac::decoder::buf_outside_unchanged(
            old(buf)@,
            final(buf)@,
            start as int,
            end as int,
        ),
        r matches Err(e) ==> e.is_io() || e == Error::ParseError("subframe sync code incorrect")
            || e == Error::ParseError("subframe has no non-wasted bits") || e == Error::ParseError(
            "invalid fixed subframe, order is larger than block size",
        ) || e == Error::ParseError("invalid lpc subframe, order is larger than block size") || e
            == Error::ParseError("invalid lpc subframe, qlpc value invalid") || e
            == Error::ParseError("invalid partition order in residual") || e == Error::ParseError(
            "invalid residual",
        ) || e == Error::Unsupported("invalid subframe header, encountered reserved value") || e
            == Error::Unsupported("fixed linear should not have order more than 4") || e
            == Error::Unsupported(
            "negative quantized linear predictor coefficient shift not supported",
        ) || e == Error::Unsupported("Encountered reserved bits in residual"),
        r is Ok ==> ({
            let data = old(rdr).data@;
            let p0 = old(bs).bit_pos(*old(rdr));
            let tc = crate::bits::bits_value(data, p0 + 1, 6);
            let wflag = crate::bits::stream_bit(data, p0 + 7);
            &&& crate::bits::stream_bit(data, p0) == 0
            &&& (tc == 0 && wflag == 0 ==> forall|j: int|
                start <= j < end ==> final(buf)@[j] == crate::flac::decoder::sign_extend(
                    crate::bits::bits_value(data, p0 + 8, bps as nat),
                    bps as nat,
                ))
            &&& (tc == 1 && wflag == 0 ==> forall|j: int|
                start <= j < end ==> final(buf)@[j] == crate::flac::decoder::sign_extend(
                    crate::bits::bits_value(data, p0 + 8 + (j - start) * bps, bps as nat),
                    bps as nat,
                ))
            &&& (8 <= tc <= 12 && wflag == 0 ==> forall|j: int|
                start <= j < end ==> final(buf)@[j] == crate::flac::decoder::fixed_decoded(
                    tc - 8,
                    crate::flac::decoder::spec_fixed_stored_seq(
                        data,
                        p0 + 8,
                        bps,
                        tc - 8,
                        (end - start) as int,
                    ),
                    j - start,
                ))
        }),
{
    let ghost s0 = *old(rdr);
    let pad = match bs.read_bit(rdr) {
        Ok(b) => b,
        Err(e) => {
            return Err(e);
        },
    };
    if pad {
        return parse_error("subframe sync code incorrect");
    }
    proof {
        crate::bits::lemma_stream_bit_le_one(old(rdr).data@, old(bs).bit_pos(*old(rdr)));
    }
    let ghost s1 = *rdr;
    let ty = match bs.read_len_u8(rdr, 6) {
        Ok(v) => v,
        Err(e) => {
            proof {
                lemma_crc16_carried_trans(s0, s1, *rdr);
            }
            return Err(e);
        },
    };
    proof {
        lemma_crc16_carried_trans(s0, s1, *rdr);
        lemma2_to64();
        assert(ty & 0b00_0111 < 8) by (bit_vector);
        assert(ty & 0b01_1111 < 32) by (bit_vector);
        assert((8 <= ty && ty <= 12) ==> ((ty & 0b11_1110) != 0b00_0010 && (ty & 0b11_1100)
            != 0b00_0100 && (ty & 0b11_0000) != 0b01_0000 && (ty & 0b11_1000) == 0b00_1000 && (ty
            & 0b00_0111) == ty - 8)) by (bit_vector);
    }
    // 0 constant; 1 verbatim; 8..=12 fixed of order ty-8; 32..=63 LPC of
    // order ty-31; everything else reserved.
    let is_constant = ty == 0;
    let is_verbatim = ty == 1;
    let mut fixed_order: u32 = 0;
    let mut lpc_order: u32 = 0;
    if (ty & 0b11_1110) == 0b00_0010 || (ty & 0b11_1100) == 0b00_0100 || (ty & 0b11_0000)
        == 0b01_0000 {
        return unsupported_error("invalid subframe header, encountered reserved value");
    } else if !is_constant && !is_verbatim {
        if (ty & 0b11_1000) == 0b00_1000 {
            let order = ty & 0b00_0111;
            if order > 4 {
                return unsupported_error("fixed linear should not have order more than 4");
            }
            fixed_order = order as u32;
        } else {
            lpc_order = (ty & 0b01_1111) as u32 + 1;
        }
    }
    let ghost s2 = *rdr;
    let wasted_flag = match bs.read_bit(rdr) {
        Ok(b) => b,
        Err(e) => {
            proof {
                lemma_crc16_carried_trans(s0, s2, *rdr);
            }
            return Err(e);
        },
    };
    proof {
        lemma_crc16_carried_trans(s0, s2, *rdr);
    }
    let mut wasted_bps: u32 = 0;
    if wasted_flag {
        let ghost s3 = *rdr;
        let q = match bs.read_unary(rdr) {
            Ok(q) => q,
            Err(e) => {
                proof {
                    lemma_crc16_carried_trans(s0, s3, *rdr);
                }
                return Err(e);
            },
        };
        proof {
            lemma_crc16_carried_trans(s0, s3, *rdr);
        }
        assert(q < 0xffff_fff9) by {
            assert(bs.bit_pos(*rdr) <= 8 * rdr.data@.len());
            assert(rdr.data@.len() <= 0x1fff_ffff);
        }
        wasted_bps = 1 + q;
    }
    if wasted_bps > bps {
        return parse_error("subframe has no non-wasted bits");
    }
    let sf_bps = bps - wasted_bps;
    let ghost s5 = *rdr;
    let body_result: Result<(), Error> = if is_constant {
        decode_constant(bs, rdr, sf_bps, buf, start, end)
    } else if is_verbatim {
        decode_verbatim(bs, rdr, sf_bps, buf, start, end)
    } else if lpc_order == 0 {
        decode_fixed_linear(bs, rdr, sf_bps, fixed_order as usize, buf, start, end)
    } else {
        decode_lpc(bs, rdr, sf_bps, lpc_order as usize, buf, start, end)
    };
    proof {
        lemma_crc16_carried_trans(s0, s5, *rdr);
    }
    match body_result {
        Ok(()) => (),
        Err(e) => {
            return Err(e);
        },
    }
    if wasted_bps > 0 {
        let mut i: usize = start;
        while i < end
            invariant
                start <= i <= end,
                buf.len() == old(buf).len(),
                forall|j: int| 0 <= j < start ==> buf@[j] == old(buf)@[j],
                forall|j: int| end <= j < old(buf).len() ==> buf@[j] == old(buf)@[j],
            decreases end - i,
        {
            let shifted = buf[i].wrapping_shl(wasted_bps);
            buf.set(i, shifted);
            i = i + 1;
        }
    }
    Ok(())
}

/// Decodes the next FLAC frame from the reader, reusing `block_buffer`
/// for the samples.  Returns `None` at a clean end of stream.  On
/// success, the frame's trailing big-endian CRC-16 equals the register
/// accumulated over every other byte of the frame, header included.
#[verifier::loop_isolation(false)]
pub fn decode_next_frame(
    input: &mut ByteReader,
    block_buffer: Vec<i32>,
    audio_info: &AudioInfo,
) -> (r: Option<Result<Block, Error>>)
    requires
        old(input).wf(),
        1 <= audio_info.bits_per_sample <= 32,
    ensures
        final(input).wf(),
        final(input).data@ == old(input).data@,
        r is None <==> old(input).remaining() < 2,
        r matches Some(res) ==> (res matches Err(e) ==> e.is_io() || e.is_unsupported() || e
            == Error::ParseError("frame CRC mismatch") || e == Error::ParseError(
            "frame sync code incorrect",
        ) || e == Error::ParseError("invalid frame header") || e == Error::ParseError(
            "Invalid utf8 encoding for integer",
        ) || e == Error::ParseError("invalid utf8 encoding for integer") || e
            == Error::ParseError("CRC match failed, Invalid frame") || e == Error::ParseError(
            "subframe sync code incorrect",
        ) || e == Error::ParseError("subframe has no non-wasted bits") || e == Error::ParseError(
            "invalid fixed subframe, order is larger than block size",
        ) || e == Error::ParseError("invalid lpc subframe, order is larger than block size") || e
            == Error::ParseError("invalid lpc subframe, qlpc value invalid") || e
            == Error::ParseError("invalid partition order in residual") || e == Error::ParseError(
            "invalid residual",
        )),
        r == Some(Result::<Block, Error>::Err(Error::ParseError("frame CRC mismatch"))) ==> {
            &&& final(input).pos >= old(input).pos + 2
            &&& spec_be16(
                final(input).data@[final(input).pos - 2],
                final(input).data@[final(input).pos - 1],
            ) != crc16_seq(
                final(input).data@.subrange(old(input).pos as int, final(input).pos - 2),
            )
        },
        r matches Some(res) ==> res matches Ok(b) ==> {
            &&& b.wf()
            &&& 1 <= b.no_channels <= 8
            &&& 1 <= b.block_size
            &&& 1 <= b.bits_per_sample <= 32
            &&& final(input).pos >= old(input).pos + 2
            &&& spec_be16(
                final(input).data@[final(input).pos - 2],
                final(input).data@[final(input).pos - 1],
            ) == crc16_seq(
                final(input).data@.subrange(old(input).pos as int, final(input).pos - 2),
            )
            &&& ({
                let d = final(input).data@;
                let p = old(input).pos as int;
                let b1 = d[p + 2];
                let b2 = d[p + 3];
                let bsc = b1 >> 4u8;
                let chc = b2 >> 4u8;
                let bpc = (b2 & 0x0e) >> 1u8;
                &&& (chc < 8 ==> b.no_channels == chc + 1)
                &&& (chc == 8 || chc == 9 || chc == 10 ==> b.no_channels == 2)
                &&& (bpc == 0 ==> b.bits_per_sample == audio_info.bits_per_sample)
                &&& (bpc == 1 ==> b.bits_per_sample == 8)
                &&& (bpc == 2 ==> b.bits_per_sample == 12)
                &&& (bpc == 4 ==> b.bits_per_sample == 16)
                &&& (bpc == 5 ==> b.bits_per_sample == 20)
                &&& (bpc == 6 ==> b.bits_per_sample == 24)
                &&& (bsc == 1 ==> b.block_size == 192)
                &&& (2 <= bsc <= 5 ==> b.block_size == 576 * pow2((bsc - 2) as nat))
                &&& (8 <= bsc ==> b.block_size == 256 * pow2((bsc - 8) as nat))
            })
        },
{
    proof {
        reveal_strlit("frame CRC mismatch");
        reveal_strlit("frame sync code incorrect");
        reveal_strlit("invalid frame header");
        reveal_strlit("Invalid utf8 encoding for integer");
        reveal_strlit("invalid utf8 encoding for integer");
        reveal_strlit("CRC match failed, Invalid frame");
        reveal_strlit("subframe sync code incorrect");
        reveal_strlit("subframe has no non-wasted bits");
        reveal_strlit("invalid fixed subframe, order is larger than block size");
        reveal_strlit("invalid lpc subframe, order is larger than block size");
        reveal_strlit("invalid lpc subframe, qlpc value invalid");
        reveal_strlit("invalid partition order in residual");
        reveal_strlit("invalid residual");
        reveal_strlit("side channel bits per sample above 32");
    }
    input.reset_crc();
    let ghost s0 = *input;
    let sync_code = match input.read_be_u16() {
        Ok(v) => v,
        Err(_) => {
            return None;
        },
    };
    proof {
        let sm = ByteReader {
            pos: (s0.pos + 1) as usize,
            crc8: crate::crc::crc8_step(s0.crc8, s0.data@[s0.pos as int]),
            crc16: crate::crc::crc16_step(s0.crc16, s0.data@[s0.pos as int]),
            ..s0
        };
        lemma_crc_carried_step(s0, sm);
        lemma_crc_carried_step(sm, *input);
        lemma_crc16_carried_trans(s0, sm, *input);
    }
    let ghost s1 = *input;
    let frame_header = match read_frame_header(input, audio_info, sync_code) {
        Ok(h) => h,
        Err(e) => {
            return Some(Err(e));
        },
    };
    proof {
        lemma_crc16_carried_trans(s0, s1, *input);
    }
    let block_size = frame_header.block_size as usize;
    let n_ch = frame_header.number_channels();
    proof {
        assert(n_ch as int * block_size as int <= 8 * 0xffff) by (nonlinear_arith)
            requires
                n_ch <= 8,
                block_size <= 0xffff,
        ;
    }
    let total = n_ch as usize * block_size;
    let mut buffer = correct_buffer_len(block_buffer, total);
    let mut bitstream = BitStream::new();
    let bps = frame_header.bits_per_sample;
    let is_stereo_decorrelated = !matches!(frame_header.channel_type, ChannelType::Independent(_));
    if is_stereo_decorrelated && bps >= 32 {
        return Some(unsupported_error("side channel bits per sample above 32"));
    }
    let ghost s2 = *input;
    match frame_header.channel_type {
        ChannelType::Independent(n) => {
            let mut ch: usize = 0;
            assert(n as usize * block_size == total);
            while ch < n as usize
                invariant
                    0 <= ch <= n,
                    n as usize * block_size == total,
                    total == buffer.len(),
                    bps <= 32,
                    block_size <= 0xffff,
                    bitstream.wf(*input),
                    input.wf(),
                    input.data@ == s2.data@,
                    input.pos >= s2.pos,
                    crc16_carried(s2, *input),
                decreases n - ch,
            {
                proof {
                    vstd::arithmetic::mul::lemma_mul_inequality(
                        ch + 1,
                        n as int,
                        block_size as int,
                    );
                    assert((ch + 1) * block_size == ch * block_size + block_size)
                        by (nonlinear_arith);
                    vstd::arithmetic::mul::lemma_mul_is_commutative(n as int, block_size as int);
                }
                let ghost sm = *input;
                match decode_subframe(
                    &mut bitstream,
                    input,
                    bps,
                    &mut buffer,
                    ch * block_size,
                    (ch + 1) * block_size,
                ) {
                    Ok(()) => (),
                    Err(e) => {
                        proof {
                            lemma_crc16_carried_trans(s2, sm, *input);
                            lemma_crc16_carried_trans(s0, s2, *input);
                        }
                        return Some(Err(e));
                    },
                }
                proof {
                    lemma_crc16_carried_trans(s2, sm, *input);
                }
                ch = ch + 1;
            }
        },
        ChannelType::LeftSideStereo => {
            assert(total == 2 * block_size);
            match decode_subframe(&mut bitstream, input, bps, &mut buffer, 0, block_size) {
                Ok(()) => (),
                Err(e) => {
                    proof {
                        lemma_crc16_carried_trans(s0, s2, *input);
                    }
                    return Some(Err(e));
                },
            }
            let ghost sm2 = *input;
            match decode_subframe(
                &mut bitstream,
                input,
                bps + 1,
                &mut buffer,
                block_size,
                2 * block_size,
            ) {
                Ok(()) => (),
                Err(e) => {
                    proof {
                        lemma_crc16_carried_trans(s2, sm2, *input);
                        lemma_crc16_carried_trans(s0, s2, *input);
                    }
                    return Some(Err(e));
                },
            }
            proof {
                lemma_crc16_carried_trans(s2, sm2, *input);
            }
            decode_left_side(&mut buffer, block_size);
        },
        ChannelType::RightSideStereo => {
            assert(total == 2 * block_size);
            match decode_subframe(&mut bitstream, input, bps + 1, &mut buffer, 0, block_size) {
                Ok(()) => (),
                Err(e) => {
                    proof {
                        lemma_crc16_carried_trans(s0, s2, *input);
                    }
                    return Some(Err(e));
                },
            }
            let ghost sm2 = *input;
            match decode_subframe(
                &mut bitstream,
                input,
                bps,
                &mut buffer,
                block_size,
                2 * block_size,
            ) {
                Ok(()) => (),
                Err(e) => {
                    proof {
                        lemma_crc16_carried_trans(s2, sm2, *input);
                        lemma_crc16_carried_trans(s0, s2, *input);
                    }
                    return Some(Err(e));
                },
            }
            proof {
                lemma_crc16_carried_trans(s2, sm2, *input);
            }
            decode_right_side(&mut buffer, block_size);
        },
        ChannelType::MidSideStereo => {
            assert(total == 2 * block_size);
            match decode_subframe(&mut bitstream, input, bps, &mut buffer, 0, block_size) {
                Ok(()) => (),
                Err(e) => {
                    proof {
                        lemma_crc16_carried_trans(s0, s2, *input);
                    }
                    return Some(Err(e));
                },
            }
            let ghost sm2 = *input;
            match decode_subframe(
                &mut bitstream,
                input,
                bps + 1,
                &mut buffer,
                block_size,
                2 * block_size,
            ) {
                Ok(()) => (),
                Err(e) => {
                    proof {
                        lemma_crc16_carried_trans(s2, sm2, *input);
                        lemma_crc16_carried_trans(s0, s2, *input);
                    }
                    return Some(Err(e));
                },
            }
            proof {
                lemma_crc16_carried_trans(s2, sm2, *input);
            }
            decode_mid_side(&mut buffer, block_size);
        },
    }
    proof {
        lemma_crc16_carried_trans(s0, s2, *input);
    }
    let crc_computed = input.crc16;
    let crc_stored = match input.read_be_u16() {
        Ok(v) => v,
        Err(e) => {
            return Some(Err(e));
        },
    };
    if crc_computed != crc_stored {
        return Some(parse_error("frame CRC mismatch"));
    }
    let frame_fsi: u64 = match frame_header.block_type {
        BlockTime::FrameNumber(fno) => {
            proof {
                assert(frame_header.block_size as int * fno as int
                    <= 0xffff * 0xffff_ffff) by (nonlinear_arith)
                    requires
                        frame_header.block_size <= 0xffff,
                        fno <= 0xffff_ffff,
                ;
            }
            frame_header.block_size as u64 * fno as u64
        },
        BlockTime::SampleNumber(sno) => sno,
    };
    proof {
        assert(buffer@.len() == (frame_header.block_size as u32)
            * (n_ch as u32)) by (nonlinear_arith)
            requires
                buffer@.len() == n_ch as usize * (frame_header.block_size as usize),
        ;
    }
    Some(
        Ok(
            Block::new(
                frame_fsi,
                frame_header.block_size as u32,
                n_ch as u32,
                frame_header.bits_per_sample,
                buffer,
            ),
        ),
    )
}

} // verus!
