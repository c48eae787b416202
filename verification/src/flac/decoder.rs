//! FLAC subframe decoding: sign extension, Rice residuals and the
//! fixed and LPC predictors.
//!
//! All predictor arithmetic is two's complement wrapping: sums are taken
//! over 64-bit intermediates and truncated back to 32 bits at store, as
//! the format requires.

use vstd::prelude::*;
use vstd::arithmetic::div_mod::{
    lemma_fundamental_div_mod, lemma_fundamental_div_mod_converse, lemma_mod_multiples_vanish,
    lemma_small_mod,
};
use vstd::arithmetic::power2::{lemma2_to64, lemma2_to64_rest, pow2};
use vstd::bits::{
    lemma_u32_pow2_no_overflow, lemma_u32_shl_is_mul, lemma_u32_shr_is_div,
    lemma_u64_low_bits_mask_is_mod, lemma_u64_pow2_no_overflow, lemma_u64_shl_is_mul,
    lemma_low_bits_mask_values,
};
use vstd::pervasive::VecAdditionalExecFns;

use crate::bits::{bits_value, spec_unary_at, BitStream};
use crate::bytes::{crc16_carried, lemma_crc16_carried_trans, ByteReader};
use crate::errors::{parse_error, unsupported_error, Error};

verus! {

/// The common frame-stream obligations of every subframe decoding step:
/// the stream stays well formed, the bytes are untouched, the cursor
/// only advances, and the CRC-16 register absorbs exactly the consumed
/// bytes.
pub open spec fn stream_advanced(
    pre_bs: BitStream,
    pre_rdr: ByteReader,
    post_bs: BitStream,
    post_rdr: ByteReader,
) -> bool {
    &&& post_bs.wf(post_rdr)
    &&& post_rdr.wf()
    &&& post_rdr.data@ == pre_rdr.data@
    &&& post_rdr.pos >= pre_rdr.pos
    &&& crc16_carried(pre_rdr, post_rdr)
}

/// The buffer keeps its length and its contents outside `start..end`.
pub open spec fn buf_outside_unchanged(pre: Seq<i32>, post: Seq<i32>, start: int, end: int) -> bool {
    &&& post.len() == pre.len()
    &&& (forall|j: int| 0 <= j < start ==> post[j] == pre[j])
    &&& (forall|j: int| end <= j < pre.len() ==> post[j] == pre[j])
}

/// The two's complement wrap of an integer into the 32-bit signed range.
pub open spec fn crop32(x: int) -> int {
    let m = x % 0x1_0000_0000;
    if m >= 0x8000_0000 {
        m - 0x1_0000_0000
    } else {
        m
    }
}

/// Wrapping leaves a value already in range untouched.
pub proof fn lemma_crop32_identity(x: int)
    requires
        -0x8000_0000 <= x < 0x8000_0000,
    ensures
        crop32(x) == x,
{
    let m = 0x1_0000_0000int;
    if x >= 0 {
        lemma_small_mod(x as nat, m as nat);
    } else {
        lemma_mod_multiples_vanish(1, x, m);
        lemma_small_mod((x + m) as nat, m as nat);
    }
}

/// Shifting a value by a multiple of `2^32` does not change its wrap.
pub proof fn lemma_crop32_vanish(x: int, k: int)
    ensures
        crop32(x + 0x1_0000_0000 * k) == crop32(x),
{
    lemma_mod_multiples_vanish(k, x, 0x1_0000_0000);
}

/// Wrapping an already-wrapped summand does not change the wrapped sum.
pub proof fn lemma_crop32_add(a: int, b: int)
    ensures
        crop32(crop32(a) + b) == crop32(a + b),
{
    let m = 0x1_0000_0000int;
    lemma_fundamental_div_mod(a, m);
    let k = if a % m >= 0x8000_0000 {
        a / m + 1
    } else {
        a / m
    };
    assert(m * (a / m + 1) == m * (a / m) + m) by (nonlinear_arith);
    assert(crop32(a) == a - m * k);
    assert(crop32(a) + b == (a + b) + m * (-k)) by (nonlinear_arith)
        requires
            crop32(a) == a - m * k,
    ;
    lemma_crop32_vanish(a + b, -k);
}

/// Reduces a bounded 64-bit intermediate to the wrapped 32-bit stored
/// sample.
pub fn crop_to_i32(v: i64) -> (r: i32)
    requires
        -0x1000_0000_0000_0000 <= v <= 0x1000_0000_0000_0000,
    ensures
        r == crop32(v as int),
{
    let shifted = v + 0x4000_0000_0000_0000;
    let m = (shifted as u64) % 0x1_0000_0000;
    proof {
        lemma_crop32_vanish(v as int, 0x4000_0000);
        assert(0x1_0000_0000int * 0x4000_0000 == 0x4000_0000_0000_0000int);
        vstd::arithmetic::div_mod::lemma_mod_bound(shifted as int, 0x1_0000_0000);
    }
    if m >= 0x8000_0000 {
        -((0x1_0000_0000u64 - m) as i64) as i32
    } else {
        m as i64 as i32
    }
}

/// Floor division of a bounded 64-bit value by `2^shift`; this is the
/// arithmetic right shift the LPC predictor calls for.
pub fn sar64(x: i64, shift: u32) -> (r: i64)
    requires
        shift <= 15,
        -0x10_0000_0000_0000 <= x <= 0x10_0000_0000_0000,
    ensures
        r == (x as int) / (pow2(shift as nat) as int),
        -0x11_0000_0000_0000 <= r <= 0x10_0000_0000_0000,
{
    proof {
        lemma_u64_pow2_no_overflow(shift as nat);
        lemma_u64_shl_is_mul(1u64, shift as u64);
        if shift < 16 {
            vstd::arithmetic::power2::lemma_pow2_strictly_increases(shift as nat, 16);
        }
        lemma2_to64();
    }
    let pu: u64 = 1u64 << shift;
    let ghost p = pow2(shift as nat) as int;
    assert(1 <= pu <= 0x1_0000);
    if x >= 0 {
        let q = (x as u64) / pu;
        proof {
            vstd::arithmetic::div_mod::lemma_div_nonincreasing(x as int, p);
            vstd::arithmetic::div_mod::lemma_div_pos_is_pos(x as int, p);
        }
        q as i64
    } else {
        let m = (-x) as u64;
        let qm = (m + pu - 1) / pu;
        proof {
            let mi = m as int;
            let d = (mi + p - 1) / p;
            lemma_fundamental_div_mod(mi + p - 1, p);
            vstd::arithmetic::div_mod::lemma_mod_bound(mi + p - 1, p);
            let r0 = (mi + p - 1) % p;
            assert(d * p == mi + p - 1 - r0) by (nonlinear_arith)
                requires
                    mi + p - 1 == p * d + r0,
            ;
            assert(0 <= d * p - mi < p);
            assert((-d) * p + (d * p - mi) == -mi) by (nonlinear_arith);
            lemma_fundamental_div_mod_converse(-mi, p, -d, d * p - mi);
            assert(d >= 0) by {
                vstd::arithmetic::div_mod::lemma_div_pos_is_pos(mi + p - 1, p);
            }
            assert(d <= mi + p - 1) by {
                vstd::arithmetic::div_mod::lemma_div_nonincreasing(mi + p - 1, p);
            }
            assert(mi + p - 1 <= 0x11_0000_0000_0000);
        }
        -(qm as i64)
    }
}

/// Given a two's complement integer in the low `bits` bits of `v`, the
/// value it denotes.
pub open spec fn sign_extend(v: nat, bits: nat) -> int {
    if bits == 0 {
        0
    } else if v >= pow2((bits - 1) as nat) {
        v - pow2(bits)
    } else {
        v as int
    }
}

/// Sign-extends the low `bits` bits of `val` to a 32-bit signed integer.
pub fn extend_sign_u32(val: u32, bits: u32) -> (r: i32)
    requires
        bits <= 32,
        val < pow2(bits as nat),
    ensures
        r == sign_extend(val as nat, bits as nat),
{
    if bits == 0 {
        return 0;
    }
    proof {
        lemma_u32_pow2_no_overflow((bits - 1) as nat);
        lemma_u32_shl_is_mul(1u32, (bits - 1) as u32);
        lemma_u64_pow2_no_overflow(bits as nat);
        lemma_u64_shl_is_mul(1u64, bits as u64);
        vstd::arithmetic::power2::lemma_pow2_adds((bits - 1) as nat, 1);
        lemma2_to64();
    }
    let half = 1u32 << (bits - 1);
    if val >= half {
        let diff = (1u64 << bits) - val as u64;
        let neg = -(diff as i64);
        neg as i32
    } else {
        val as i32
    }
}

/// Sign-extends the low `bits` bits of `val` to a 16-bit signed integer.
pub fn extend_sign_u16(val: u16, bits: u32) -> (r: i16)
    requires
        bits <= 16,
        val < pow2(bits as nat),
    ensures
        r == sign_extend(val as nat, bits as nat),
{
    proof {
        if bits > 0 {
            vstd::arithmetic::power2::lemma_pow2_adds((bits - 1) as nat, 1);
        }
        lemma2_to64();
    }
    let e = extend_sign_u32(val as u32, bits);
    e as i16
}

/// The signed value a Rice-coded unsigned residual denotes: even values
/// map to `v / 2`, odd values to `-1 - v / 2`.
pub open spec fn rice_to_signed_spec(v: nat) -> int {
    if v % 2 == 0 {
        (v / 2) as int
    } else {
        -1 - (v / 2)
    }
}

/// Decodes a signed number from Rice coding to two's complement.
pub fn rice_to_signed(val: u32) -> (r: i32)
    ensures
        r == rice_to_signed_spec(val as nat),
{
    proof {
        lemma_u32_shr_is_div(val, 1);
        lemma2_to64();
    }
    if val & 1 == 1 {
        proof {
            assert(val & 1 == val % 2) by (bit_vector);
        }
        -1 - (val >> 1u32) as i32
    } else {
        proof {
            assert(val & 1 == val % 2) by (bit_vector);
        }
        (val >> 1u32) as i32
    }
}

/// The zig-zag law: `rice_to_signed` maps `2n` to `n` and `2n + 1` to
/// `-(n + 1)`, for every natural `n`.
pub proof fn lemma_rice_zigzag(n: nat)
    ensures
        rice_to_signed_spec(2 * n) == n,
        rice_to_signed_spec(2 * n + 1) == -((n + 1) as int),
{
    assert((2 * n) % 2 == 0 && (2 * n) / 2 == n) by (nonlinear_arith);
    assert((2 * n + 1) % 2 == 1 && (2 * n + 1) / 2 == n) by (nonlinear_arith);
}

/// The fixed-predictor polynomial over the already-decoded samples
/// before position `i`, and the decoded value itself: position `i` of
/// the subframe equals the stored residual plus the prediction, wrapped.
pub open spec fn fixed_decoded(order: int, b: Seq<i32>, i: int) -> int
    decreases i, 1int,
{
    if i < order || i < 0 {
        if 0 <= i < b.len() {
            b[i] as int
        } else {
            0
        }
    } else {
        crop32(b[i] + fixed_prediction(order, b, i))
    }
}

/// The order-`order` polynomial prediction for position `i`, computed
/// from the decoded values at the preceding positions.
pub open spec fn fixed_prediction(order: int, b: Seq<i32>, i: int) -> int
    decreases i, 0int,
{
    if i < order {
        0
    } else if order == 1 {
        fixed_decoded(order, b, i - 1)
    } else if order == 2 {
        2 * fixed_decoded(order, b, i - 1) - fixed_decoded(order, b, i - 2)
    } else if order == 3 {
        3 * fixed_decoded(order, b, i - 1) - 3 * fixed_decoded(order, b, i - 2) + fixed_decoded(
            order,
            b,
            i - 3,
        )
    } else if order == 4 {
        4 * fixed_decoded(order, b, i - 1) - 6 * fixed_decoded(order, b, i - 2) + 4
            * fixed_decoded(order, b, i - 3) - fixed_decoded(order, b, i - 4)
    } else {
        0
    }
}

/// Applies the fixed predictor of the given order in place over
/// `buf[start..end]`: the first `order` entries are warm-up samples and
/// the rest hold residuals on entry.
#[verifier::loop_isolation(false)]
pub fn fixed_predict(order: usize, buf: &mut Vec<i32>, start: usize, end: usize)
    requires
        order <= 4,
        start + order <= end,
        end <= old(buf).len(),
    ensures
        final(buf).len() == old(buf).len(),
        forall|j: int| 0 <= j < start ==> final(buf)@[j] == old(buf)@[j],
        forall|j: int| end <= j < old(buf).len() ==> final(buf)@[j] == old(buf)@[j],
        forall|j: int|
            start <= j < end ==> final(buf)@[j] == fixed_decoded(
                order as int,
                old(buf)@.subrange(start as int, end as int),
                j - start,
            ),
{
    let ghost orig = old(buf)@.subrange(start as int, end as int);
    let mut i: usize = start + order;
    while i < end
        invariant
            start + order <= i <= end,
            buf.len() == old(buf).len(),
            forall|j: int| 0 <= j < start ==> buf@[j] == old(buf)@[j],
            forall|j: int| i <= j < old(buf).len() ==> buf@[j] == old(buf)@[j],
            forall|j: int|
                start <= j < i ==> buf@[j] == fixed_decoded(order as int, orig, j - start),
        decreases end - i,
    {
        let p: i64 = if order == 0 {
            0
        } else if order == 1 {
            buf[i - 1] as i64
        } else if order == 2 {
            2 * (buf[i - 1] as i64) - (buf[i - 2] as i64)
        } else if order == 3 {
            3 * (buf[i - 1] as i64) - 3 * (buf[i - 2] as i64) + (buf[i - 3] as i64)
        } else {
            4 * (buf[i - 1] as i64) - 6 * (buf[i - 2] as i64) + 4 * (buf[i - 3] as i64) - (buf[i
                - 4] as i64)
        };
        assert(p == fixed_prediction(order as int, orig, i - start));
        let v: i64 = buf[i] as i64 + p;
        let c = crop_to_i32(v);
        assert(buf@[i as int] == orig[i - start]);
        buf.set(i, c);
        assert(buf@[i as int] == fixed_decoded(order as int, orig, i - start));
        i = i + 1;
    }
}

/// The LPC-decoded value at position `i` of a subframe whose stored
/// contents are `b`: warm-up samples verbatim, then the stored residual
/// plus the shifted inner product of the coefficients with the decoded
/// values before `i`, wrapped to 32 bits.
pub open spec fn lpc_decoded(coefs: Seq<i16>, shift: nat, b: Seq<i32>, i: int) -> int
    decreases i, 1int, 0int,
{
    if i < coefs.len() || i < 0 {
        if 0 <= i < b.len() {
            b[i] as int
        } else {
            0
        }
    } else {
        crop32(b[i] + lpc_partial_sum(coefs, shift, b, i, coefs.len() as int) / (pow2(shift) as int))
    }
}

/// The inner product of the first `k` coefficients with the decoded
/// values at `i - order`, …, `i - order + k - 1`.
pub open spec fn lpc_partial_sum(coefs: Seq<i16>, shift: nat, b: Seq<i32>, i: int, k: int) -> int
    decreases i, 0int, k,
{
    if k <= 0 || k > coefs.len() || i < coefs.len() {
        0
    } else {
        lpc_partial_sum(coefs, shift, b, i, k - 1) + coefs[k - 1] * lpc_decoded(
            coefs,
            shift,
            b,
            i - coefs.len() + k - 1,
        )
    }
}

/// Applies LPC prediction in place over `buf[start..end]`: the first
/// `coefs.len()` entries are warm-up samples, the rest residuals.
#[verifier::loop_isolation(false)]
pub fn predict_lpc(
    coefs: &Vec<i16>,
    qlp_shift: i16,
    buf: &mut Vec<i32>,
    start: usize,
    end: usize,
)
    requires
        1 <= coefs.len() <= 32,
        0 <= qlp_shift <= 15,
        start + coefs.len() <= end,
        end <= old(buf).len(),
    ensures
        buf_outside_unchanged(old(buf)@, final(buf)@, start as int, end as int),
        forall|j: int|
            start <= j < end ==> final(buf)@[j] == lpc_decoded(
                coefs@,
                qlp_shift as nat,
                old(buf)@.subrange(start as int, end as int),
                j - start,
            ),
{
    let order = coefs.len();
    let ghost orig = old(buf)@.subrange(start as int, end as int);
    let ghost sh = qlp_shift as nat;
    let mut i: usize = start + order;
    while i < end
        invariant
            start + order <= i <= end,
            buf.len() == old(buf).len(),
            forall|j: int| 0 <= j < start ==> buf@[j] == old(buf)@[j],
            forall|j: int| i <= j < old(buf).len() ==> buf@[j] == old(buf)@[j],
            forall|j: int| start <= j < i ==> buf@[j] == lpc_decoded(coefs@, sh, orig, j - start),
        decreases end - i,
    {
        let mut sum: i64 = 0;
        let mut k: usize = 0;
        while k < order
            invariant
                0 <= k <= order,
                start + order <= i < end,
                sum == lpc_partial_sum(coefs@, sh, orig, i - start, k as int),
                -0x4000_0000_0000 * (k as int) <= sum <= 0x4000_0000_0000 * (k as int),
                buf.len() == old(buf).len(),
                forall|j: int|
                    start <= j < i ==> buf@[j] == lpc_decoded(coefs@, sh, orig, j - start),
            decreases order - k,
        {
            let c = coefs[k];
            let s = buf[i - order + k];
            proof {
                assert(-0x4000_0000_0000 <= (c as int) * (s as int)
                    <= 0x4000_0000_0000) by (nonlinear_arith)
                    requires
                        -0x8000 <= c <= 0x7fff,
                        -0x8000_0000 <= s <= 0x7fff_ffff,
                ;
                assert(-0x4000_0000_0000 * ((k + 1) as int) == -0x4000_0000_0000 * (k as int)
                    - 0x4000_0000_0000) by (nonlinear_arith);
                assert(0x4000_0000_0000 * ((k + 1) as int) == 0x4000_0000_0000 * (k as int)
                    + 0x4000_0000_0000) by (nonlinear_arith);
            }
            let term = (c as i64) * (s as i64);
            sum = sum + term;
            k = k + 1;
        }
        proof {
            assert(-0x4000_0000_0000 * (order as int) >= -0x8_0000_0000_0000) by (nonlinear_arith)
                requires
                    order <= 32,
            ;
            assert(0x4000_0000_0000 * (order as int) <= 0x8_0000_0000_0000) by (nonlinear_arith)
                requires
                    order <= 32,
            ;
        }
        let p = sar64(sum, qlp_shift as u32);
        let v: i64 = buf[i] as i64 + p;
        let c2 = crop_to_i32(v);
        assert(buf@[i as int] == orig[i - start]);
        buf.set(i, c2);
        assert(buf@[i as int] == lpc_decoded(coefs@, sh, orig, i - start));
        i = i + 1;
    }
}

/// LPC prediction for subframes with an order of at most 12 (the subset
/// FLAC fast path); produces the same output as the general path.
pub fn predict_lpc_low_order(
    coefs: &Vec<i16>,
    qlp_shift: i16,
    buf: &mut Vec<i32>,
    start: usize,
    end: usize,
)
    requires
        1 <= coefs.len() <= 12,
        0 <= qlp_shift <= 15,
        start + coefs.len() <= end,
        end <= old(buf).len(),
    ensures
        buf_outside_unchanged(old(buf)@, final(buf)@, start as int, end as int),
        forall|j: int|
            start <= j < end ==> final(buf)@[j] == lpc_decoded(
                coefs@,
                qlp_shift as nat,
                old(buf)@.subrange(start as int, end as int),
                j - start,
            ),
{
    predict_lpc(coefs, qlp_shift, buf, start, end)
}

/// LPC prediction for non-subset subframes, with an order above 12.
pub fn predict_lpc_high_order(
    coefs: &Vec<i16>,
    qlp_shift: i16,
    buf: &mut Vec<i32>,
    start: usize,
    end: usize,
)
    requires
        1 <= coefs.len() <= 32,
        0 <= qlp_shift <= 15,
        start + coefs.len() <= end,
        end <= old(buf).len(),
    ensures
        buf_outside_unchanged(old(buf)@, final(buf)@, start as int, end as int),
        forall|j: int|
            start <= j < end ==> final(buf)@[j] == lpc_decoded(
                coefs@,
                qlp_shift as nat,
                old(buf)@.subrange(start as int, end as int),
                j - start,
            ),
{
    predict_lpc(coefs, qlp_shift, buf, start, end)
}

/// The bit position right after one Rice-coded residual read at `p`
/// with parameter `k`: the unary quotient, its terminator and `k`
/// remainder bits.
pub open spec fn spec_rice_next(data: Seq<u8>, p: int, k: u32) -> int {
    p + spec_unary_at(data, p) + 1 + k
}

/// The bit position of the `i`th Rice-coded residual of a run that
/// starts at `p0`.
pub open spec fn spec_rice_pos(data: Seq<u8>, p0: int, k: u32, i: nat) -> int
    decreases i,
{
    if i == 0 {
        p0
    } else {
        spec_rice_next(data, spec_rice_pos(data, p0, k, (i - 1) as nat), k)
    }
}

/// The signed value of the Rice-coded residual read at `p`: the unary
/// quotient joined with the `k` remainder bits, run through the
/// zig-zag mapping.
pub open spec fn spec_rice_sample(data: Seq<u8>, p: int, k: u32) -> int {
    let q = spec_unary_at(data, p);
    rice_to_signed_spec(
        (((q as u32) << k) | (bits_value(data, p + q + 1, k as nat) as u32)) as nat,
    )
}

/// The bit position just after a residual partition that starts (at
/// its Rice parameter field) at `p` and holds `count` samples.
pub open spec fn spec_partition_end(data: Seq<u8>, p: int, pw: u32, count: int) -> int {
    let param = bits_value(data, p, pw as nat);
    if param == pow2(pw as nat) - 1 {
        p + pw + 5 + count * bits_value(data, p + pw, 5)
    } else {
        spec_rice_pos(data, p + pw, param as u32, count as nat)
    }
}

/// The value of sample `j` of the residual partition starting at `p`.
pub open spec fn spec_partition_sample(data: Seq<u8>, p: int, pw: u32, j: int) -> int {
    let param = bits_value(data, p, pw as nat);
    if param == pow2(pw as nat) - 1 {
        let rb = bits_value(data, p + pw, 5);
        sign_extend(bits_value(data, p + pw + 5 + j * rb, rb as nat), rb as nat)
    } else {
        spec_rice_sample(data, spec_rice_pos(data, p + pw, param as u32, j as nat), param as u32)
    }
}

/// The start position of partition `i` of a residual section whose
/// first partition starts at `pb` and holds `len0` samples, every later
/// one `plen`.
pub open spec fn spec_partition_pos(
    data: Seq<u8>,
    pb: int,
    pw: u32,
    len0: int,
    plen: int,
    i: int,
) -> int
    decreases i,
{
    if i <= 0 {
        pb
    } else if i == 1 {
        spec_partition_end(data, pb, pw, len0)
    } else {
        spec_partition_end(data, spec_partition_pos(data, pb, pw, len0, plen, i - 1), pw, plen)
    }
}

/// The value of the `idx`th sample of a whole partitioned residual
/// section.
pub open spec fn spec_residual_sample(
    data: Seq<u8>,
    pb: int,
    pw: u32,
    len0: int,
    plen: int,
    idx: int,
) -> int {
    if idx < len0 {
        spec_partition_sample(data, pb, pw, idx)
    } else {
        let t = 1 + (idx - len0) / plen;
        let off = (idx - len0) % plen;
        spec_partition_sample(data, spec_partition_pos(data, pb, pw, len0, plen, t), pw, off)
    }
}

/// A run of `count` Rice-coded residuals starting at bit `p` is
/// complete in the stream: every sample's unary run terminates and its
/// remainder bits are present.
pub open spec fn spec_rice_run_valid(data: Seq<u8>, p: int, k: u32, count: int) -> bool
    decreases count,
{
    count <= 0 || {
        &&& (exists|q: int| 0 <= q && p + q < 8 * data.len() && crate::bits::is_unary_at(data, p, q))
        &&& spec_rice_next(data, p, k) <= 8 * data.len()
        &&& spec_rice_run_valid(data, spec_rice_next(data, p, k), k, count - 1)
    }
}

/// Decodes one Rice partition into `buf[start..end]`.  A partition whose
/// parameter reaches the escape value stores its residuals in plain
/// binary instead of Rice coding.
#[verifier::loop_isolation(false)]
pub fn decode_rice_partition(
    bs: &mut BitStream,
    rdr: &mut ByteReader,
    rice_param: u32,
    escape_param: u32,
    buf: &mut Vec<i32>,
    start: usize,
    end: usize,
) -> (r: Result<(), Error>)
    requires
        rice_param <= 31,
        start <= end <= old(buf).len(),
        old(bs).wf(*old(rdr)),
        old(rdr).wf(),
    ensures
        stream_advanced(*old(bs), *old(rdr), *final(bs), *final(rdr)),
        buf_outside_unchanged(old(buf)@, final(buf)@, start as int, end as int),
        r matches Err(e) ==> e.is_io(),
        rice_param >= escape_param && r is Ok ==> ({
            let data = old(rdr).data@;
            let p0 = old(bs).bit_pos(*old(rdr));
            let rb = bits_value(data, p0, 5);
            &&& (forall|j: int|
                start <= j < end ==> final(buf)@[j] == sign_extend(
                    bits_value(data, p0 + 5 + (j - start) * rb, rb),
                    rb,
                ))
            &&& final(bs).bit_pos(*final(rdr)) == p0 + 5 + (end - start) * rb
        }),
        rice_param >= escape_param && old(bs).bit_pos(*old(rdr)) + 5 + (end - start) * bits_value(
            old(rdr).data@,
            old(bs).bit_pos(*old(rdr)),
            5,
        ) <= 8 * old(rdr).data@.len() ==> r is Ok,
        rice_param < escape_param && spec_rice_run_valid(
            old(rdr).data@,
            old(bs).bit_pos(*old(rdr)),
            rice_param,
            (end - start) as int,
        ) ==> r is Ok,
        rice_param < escape_param && r is Ok ==> ({
            let data = old(rdr).data@;
            let p0 = old(bs).bit_pos(*old(rdr));
            &&& (forall|j: int|
                start <= j < end ==> final(buf)@[j] == spec_rice_sample(
                    data,
                    spec_rice_pos(data, p0, rice_param, (j - start) as nat),
                    rice_param,
                ))
            &&& final(bs).bit_pos(*final(rdr)) == spec_rice_pos(
                data,
                p0,
                rice_param,
                (end - start) as nat,
            )
        }),
{
    let ghost data = old(rdr).data@;
    let ghost p0 = old(bs).bit_pos(*old(rdr));
    let ghost rv = spec_rice_run_valid(data, p0, rice_param, (end - start) as int);
    if rice_param < escape_param {
        let mut i: usize = start;
        while i < end
            invariant
                start <= i <= end,
                bs.wf(*rdr),
                rdr.wf(),
                rdr.data@ == data,
                rdr.pos >= old(rdr).pos,
                crc16_carried(*old(rdr), *rdr),
                bs.bit_pos(*rdr) == spec_rice_pos(data, p0, rice_param, (i - start) as nat),
                rv ==> spec_rice_run_valid(
                    data,
                    bs.bit_pos(*rdr),
                    rice_param,
                    (end - i) as int,
                ),
                buf.len() == old(buf).len(),
                forall|j: int| 0 <= j < start ==> buf@[j] == old(buf)@[j],
                forall|j: int| end <= j < old(buf).len() ==> buf@[j] == old(buf)@[j],
                forall|j: int|
                    start <= j < i ==> buf@[j] == spec_rice_sample(
                        data,
                        spec_rice_pos(data, p0, rice_param, (j - start) as nat),
                        rice_param,
                    ),
            decreases end - i,
        {
            let ghost cur = bs.bit_pos(*rdr);
            let ghost mid = *rdr;
            let q = match bs.read_unary(rdr) {
                Ok(q) => q,
                Err(e) => {
                    proof {
                        lemma_crc16_carried_trans(*old(rdr), mid, *rdr);
                        if rv {
                            assert(false);
                        }
                    }
                    return Err(e);
                },
            };
            let ghost mid2 = *rdr;
            let rbits = match bs.read_len_u32(rdr, rice_param) {
                Ok(v) => v,
                Err(e) => {
                    proof {
                        lemma_crc16_carried_trans(*old(rdr), mid, mid2);
                        lemma_crc16_carried_trans(*old(rdr), mid2, *rdr);
                        if rv {
                            assert(spec_rice_next(data, cur, rice_param) <= 8 * data.len());
                            assert(false);
                        }
                    }
                    return Err(e);
                },
            };
            let sample = rice_to_signed((q << rice_param) | rbits);
            buf.set(i, sample);
            proof {
                lemma_crc16_carried_trans(*old(rdr), mid, mid2);
                lemma_crc16_carried_trans(*old(rdr), mid2, *rdr);
                assert(q == spec_unary_at(data, cur));
                assert(rbits == bits_value(data, cur + q + 1, rice_param as nat) as u32);
                assert(buf@[i as int] == spec_rice_sample(data, cur, rice_param));
                assert(spec_rice_pos(data, p0, rice_param, (i + 1 - start) as nat)
                    == spec_rice_next(data, cur, rice_param));
            }
            i = i + 1;
        }
        Ok(())
    } else {
        let ghost n = (end - start) as int;
        let residual_bits = match bs.read_len_u8(rdr, 5) {
            Ok(v) => v,
            Err(e) => {
                return Err(e);
            },
        };
        proof {
            lemma2_to64();
        }
        let rb = residual_bits as u32;
        let ghost rbn = rb as nat;
        let mut i: usize = start;
        while i < end
            invariant
                start <= i <= end,
                rb < 32,
                rbn == bits_value(data, p0, 5),
                bs.wf(*rdr),
                rdr.wf(),
                rdr.data@ == data,
                rdr.pos >= old(rdr).pos,
                crc16_carried(*old(rdr), *rdr),
                bs.bit_pos(*rdr) == p0 + 5 + (i - start) * rbn,
                buf.len() == old(buf).len(),
                forall|j: int| 0 <= j < start ==> buf@[j] == old(buf)@[j],
                forall|j: int| i <= j < old(buf).len() ==> buf@[j] == old(buf)@[j],
                forall|j: int|
                    start <= j < i ==> buf@[j] == sign_extend(
                        bits_value(data, p0 + 5 + (j - start) * rbn, rbn),
                        rbn,
                    ),
            decreases end - i,
        {
            let ghost mid = *rdr;
            let v = match bs.read_len_u32(rdr, rb) {
                Ok(v) => v,
                Err(e) => {
                    proof {
                        lemma_crc16_carried_trans(*old(rdr), mid, *rdr);
                        assert((i - start + 1) * (rbn as int) == (i - start) * (rbn as int)
                            + rbn) by (nonlinear_arith);
                        vstd::arithmetic::mul::lemma_mul_inequality(
                            i - start + 1,
                            (end - start) as int,
                            rbn as int,
                        );
                    }
                    return Err(e);
                },
            };
            proof {
                lemma2_to64();
                lemma2_to64_rest();
                if rb < 32 {
                    vstd::arithmetic::power2::lemma_pow2_strictly_increases(rbn, 32);
                }
            }
            let s = extend_sign_u32(v, rb);
            buf.set(i, s);
            proof {
                lemma_crc16_carried_trans(*old(rdr), mid, *rdr);
                assert((i + 1 - start) * rbn == (i - start) * rbn + rbn) by (nonlinear_arith);
            }
            i = i + 1;
        }
        Ok(())
    }
}

/// Decodes the partitioned Rice residual section of a subframe into
/// `buf[start..end]`; `block_size` is the whole subframe's length, so
/// `block_size - (end - start)` warm-up samples live in the first
/// partition's budget.
#[verifier::loop_isolation(false)]
pub fn decode_residual(
    bs: &mut BitStream,
    rdr: &mut ByteReader,
    block_size: u16,
    buf: &mut Vec<i32>,
    start: usize,
    end: usize,
) -> (r: Result<(), Error>)
    requires
        start <= end <= old(buf).len(),
        end - start <= block_size,
        old(bs).wf(*old(rdr)),
        old(rdr).wf(),
    ensures
        stream_advanced(*old(bs), *old(rdr), *final(bs), *final(rdr)),
        buf_outside_unchanged(old(buf)@, final(buf)@, start as int, end as int),
        ({
            let data = old(rdr).data@;
            let p0 = old(bs).bit_pos(*old(rdr));
            let m = bits_value(data, p0, 2);
            let po = bits_value(data, p0 + 2, 4);
            &&& (p0 + 2 > 8 * data.len() ==> (r matches Err(e) && e.is_io()))
            &&& (p0 + 2 <= 8 * data.len() && m >= 2 ==> r == Result::<(), Error>::Err(
                Error::Unsupported("Encountered reserved bits in residual"),
            ))
            &&& (m < 2 && p0 + 6 > 8 * data.len() ==> (r matches Err(e) && e.is_io()))
            &&& (p0 + 6 <= 8 * data.len() && m < 2 && block_size % (pow2(po) as u16) != 0 ==> r
                == Result::<(), Error>::Err(Error::ParseError("invalid partition order in residual")))
            &&& (p0 + 6 <= 8 * data.len() && m < 2 && block_size % (pow2(po) as u16) == 0
                && block_size - (end - start) > block_size / (pow2(po) as u16) ==> r
                == Result::<(), Error>::Err(Error::ParseError("invalid residual")))
            &&& (r matches Err(e) ==> e.is_io() || e == Error::Unsupported(
                "Encountered reserved bits in residual",
            ) || e == Error::ParseError("invalid partition order in residual") || e
                == Error::ParseError("invalid residual"))
            &&& (r is Ok ==> ({
                let pw: u32 = if m == 0 {
                    4u32
                } else {
                    5u32
                };
                let plen = block_size as int / (pow2(po) as int);
                let warm = block_size - (end - start);
                forall|jj: int|
                    start <= jj < end ==> final(buf)@[jj] == spec_residual_sample(
                        data,
                        p0 + 6,
                        pw,
                        plen - warm,
                        plen,
                        jj - start,
                    )
            }))
        }),
{
    let ghost data = old(rdr).data@;
    let ghost p0 = old(bs).bit_pos(*old(rdr));
    let method = match bs.read_len_u8(rdr, 2) {
        Ok(v) => v,
        Err(e) => {
            return Err(e);
        },
    };
    proof {
        lemma2_to64();
    }
    let param_width: u32 = if method == 0 {
        4
    } else if method == 1 {
        5
    } else {
        return unsupported_error("Encountered reserved bits in residual");
    };
    let ghost mid1 = *rdr;
    let partition_order = match bs.read_len_u8(rdr, 4) {
        Ok(v) => v,
        Err(e) => {
            proof {
                lemma_crc16_carried_trans(*old(rdr), mid1, *rdr);
            }
            return Err(e);
        },
    };
    proof {
        lemma2_to64();
        lemma_crc16_carried_trans(*old(rdr), mid1, *rdr);
    }
    let po = partition_order as u32;
    let ghost pon = po as nat;
    assert(po < 16);
    proof {
        lemma_u32_pow2_no_overflow(pon);
        lemma_u32_shl_is_mul(1u32, po);
        if po < 16 {
            vstd::arithmetic::power2::lemma_pow2_strictly_increases(pon, 16);
        }
    }
    let num_partitions: u32 = 1u32 << po;
    let nspp: u16 = block_size >> (po as u16);
    proof {
        vstd::bits::lemma_u16_shr_is_div(block_size, po as u16);
        vstd::bits::lemma_u16_low_bits_mask_is_mod(block_size, pon);
        vstd::bits::lemma_low_bits_mask_values();
        vstd::arithmetic::power2::lemma_pow2_pos(pon);
        assert(vstd::bits::low_bits_mask(pon) == pow2(pon) - 1);
    }
    if block_size & (num_partitions - 1) as u16 != 0 {
        return parse_error("invalid partition order in residual");
    }
    let num_warm_up: u16 = block_size - (end - start) as u16;
    if num_warm_up > nspp {
        return parse_error("invalid residual");
    }
    proof {
        lemma_fundamental_div_mod(block_size as int, pow2(pon) as int);
        vstd::arithmetic::power2::lemma_pow2_pos(pon);
    }
    proof {
        lemma_u32_pow2_no_overflow(param_width as nat);
        lemma_u32_shl_is_mul(1u32, param_width);
        vstd::arithmetic::power2::lemma_pow2_pos(param_width as nat);
    }
    let escape_param: u32 = (1u32 << param_width) - 1;
    let ghost np = num_partitions as int;
    let ghost sp = nspp as int;
    let ghost warm = num_warm_up as int;
    assert(np * sp == block_size) by (nonlinear_arith)
        requires
            np == pow2(pon),
            sp == block_size as int / pow2(pon) as int,
            block_size as int == pow2(pon) as int * (block_size as int / pow2(pon) as int),
    ;
    assert(end - start == np * sp - warm);
    let mut cur: usize = start;
    let mut plen: usize = (nspp - num_warm_up) as usize;
    let mut j: u32 = 0;
    while j < num_partitions
        invariant
            0 <= j <= num_partitions,
            j == 0 ==> cur == start && plen == sp - warm,
            j >= 1 ==> cur == start + j * sp - warm && plen == sp,
            start <= cur <= end,
            end == start + np * sp - warm,
            bs.wf(*rdr),
            rdr.wf(),
            rdr.data@ == data,
            rdr.pos >= old(rdr).pos,
            crc16_carried(*old(rdr), *rdr),
            bs.bit_pos(*rdr) == spec_partition_pos(
                data,
                p0 + 6,
                param_width,
                sp - warm,
                sp,
                j as int,
            ),
            buf.len() == old(buf).len(),
            forall|i: int| 0 <= i < start ==> buf@[i] == old(buf)@[i],
            forall|i: int| end <= i < old(buf).len() ==> buf@[i] == old(buf)@[i],
            forall|idx: int|
                start <= idx < cur ==> buf@[idx] == spec_residual_sample(
                    data,
                    p0 + 6,
                    param_width,
                    sp - warm,
                    sp,
                    idx - start,
                ),
        decreases num_partitions - j,
    {
        proof {
            vstd::arithmetic::mul::lemma_mul_inequality(j + 1, np, sp);
            assert((j + 1) * sp == j * sp + sp) by (nonlinear_arith);
            if j == 0 {
                vstd::arithmetic::mul::lemma_mul_inequality(1, np, sp);
            }
        }
        assert(cur + plen <= end);
        let ghost mid = *rdr;
        let rice = match bs.read_len_u8(rdr, param_width) {
            Ok(v) => v,
            Err(e) => {
                proof {
                    lemma_crc16_carried_trans(*old(rdr), mid, *rdr);
                }
                return Err(e);
            },
        };
        proof {
            lemma2_to64();
            if param_width < 8 {
                vstd::arithmetic::power2::lemma_pow2_strictly_increases(param_width as nat, 8);
            }
        }
        let ghost mid2 = *rdr;
        match decode_rice_partition(bs, rdr, rice as u32, escape_param, buf, cur, cur + plen) {
            Ok(()) => (),
            Err(e) => {
                proof {
                    lemma_crc16_carried_trans(*old(rdr), mid, mid2);
                    lemma_crc16_carried_trans(*old(rdr), mid2, *rdr);
                }
                return Err(e);
            },
        }
        proof {
            lemma_crc16_carried_trans(*old(rdr), mid, mid2);
            lemma_crc16_carried_trans(*old(rdr), mid2, *rdr);
            let pb = p0 + 6;
            let len0 = sp - warm;
            let pj = spec_partition_pos(data, pb, param_width, len0, sp, j as int);
            let param = bits_value(data, pj, param_width as nat);
            assert(param == rice);
            assert(param == pow2(param_width as nat) - 1 <==> rice as u32 >= escape_param);
            assert(bs.bit_pos(*rdr) == spec_partition_end(data, pj, param_width, plen as int));
            assert(spec_partition_pos(data, pb, param_width, len0, sp, j + 1)
                == spec_partition_end(data, pj, param_width, plen as int));
            assert forall|idx: int| cur <= idx < cur + plen implies buf@[idx]
                == spec_residual_sample(data, pb, param_width, len0, sp, idx - start) by {
                let off = idx - cur;
                assert(buf@[idx] == spec_partition_sample(data, pj, param_width, off));
                if j == 0 {
                    assert(idx - start < len0);
                } else {
                    assert((j - 1) * sp + off == idx - start - len0) by (nonlinear_arith)
                        requires
                            cur == start + j * sp - warm,
                            idx == cur + off,
                            len0 == sp - warm,
                            j >= 1,
                    ;
                    assert(idx - start >= len0) by (nonlinear_arith)
                        requires
                            cur == start + j * sp - warm,
                            idx >= cur,
                            len0 == sp - warm,
                            j >= 1,
                            sp >= 0,
                    ;
                    vstd::arithmetic::div_mod::lemma_fundamental_div_mod_converse(
                        idx - start - len0,
                        sp,
                        j - 1,
                        off,
                    );
                }
            }
        }
        cur = cur + plen;
        plen = nspp as usize;
        j = j + 1;
    }
    Ok(())
}

/// The stored contents of a fixed-predictor subframe of `n` samples at
/// bit position `p0`: `order` verbatim warm-up samples of `bps` bits,
/// then the partitioned residual section.
pub open spec fn spec_fixed_stored(
    data: Seq<u8>,
    p0: int,
    bps: u32,
    order: int,
    n: int,
    j: int,
) -> int {
    if j < order {
        sign_extend(bits_value(data, p0 + j * bps, bps as nat), bps as nat)
    } else {
        let pr = p0 + order * bps;
        let m = bits_value(data, pr, 2);
        let pw: u32 = if m == 0 {
            4u32
        } else {
            5u32
        };
        let po = bits_value(data, pr + 2, 4);
        let plen = n / (pow2(po) as int);
        spec_residual_sample(data, pr + 6, pw, plen - order, plen, j - order)
    }
}

/// The stored subframe as a sequence of 32-bit samples.
pub open spec fn spec_fixed_stored_seq(
    data: Seq<u8>,
    p0: int,
    bps: u32,
    order: int,
    n: int,
) -> Seq<i32> {
    Seq::new(n as nat, |j: int| spec_fixed_stored(data, p0, bps, order, n, j) as i32)
}

/// Decodes a fixed-predictor subframe: `order` warm-up samples, the
/// partitioned residual, then the in-place polynomial prediction.
pub fn decode_fixed_linear(
    bs: &mut BitStream,
    rdr: &mut ByteReader,
    fr_bps: u32,
    order: usize,
    buf: &mut Vec<i32>,
    start: usize,
    end: usize,
) -> (r: Result<(), Error>)
    requires
        fr_bps <= 32,
        order <= 4,
        start <= end <= old(buf).len(),
        end - start <= 0xffff,
        old(bs).wf(*old(rdr)),
        old(rdr).wf(),
    ensures
        stream_advanced(*old(bs), *old(rdr), *final(bs), *final(rdr)),
        buf_outside_unchanged(old(buf)@, final(buf)@, start as int, end as int),
        end - start < order ==> r == Result::<(), Error>::Err(
            Error::ParseError("invalid fixed subframe, order is larger than block size"),
        ) && final(buf)@ == old(buf)@ && *final(rdr) == *old(rdr) && *final(bs) == *old(bs),
        r is Ok ==> forall|j: int|
            start <= j < start + order ==> final(buf)@[j] == sign_extend(
                bits_value(
                    old(rdr).data@,
                    old(bs).bit_pos(*old(rdr)) + (j - start) * fr_bps,
                    fr_bps as nat,
                ),
                fr_bps as nat,
            ),
        r matches Err(e) ==> e.is_io() || e == Error::ParseError(
            "invalid fixed subframe, order is larger than block size",
        ) || e == Error::Unsupported("Encountered reserved bits in residual") || e
            == Error::ParseError("invalid partition order in residual") || e == Error::ParseError(
            "invalid residual",
        ),
        r is Ok ==> ({
            let data = old(rdr).data@;
            let p0 = old(bs).bit_pos(*old(rdr));
            let stored = spec_fixed_stored_seq(
                data,
                p0,
                fr_bps,
                order as int,
                (end - start) as int,
            );
            forall|j: int|
                start <= j < end ==> final(buf)@[j] == fixed_decoded(
                    order as int,
                    stored,
                    j - start,
                )
        }),
{
    if end - start < order {
        proof {
            crate::bytes::lemma_crc_carried_refl(*old(rdr), *old(rdr));
        }
        return parse_error("invalid fixed subframe, order is larger than block size");
    }
    let ghost data = old(rdr).data@;
    let ghost p0 = old(bs).bit_pos(*old(rdr));
    match decode_verbatim(bs, rdr, fr_bps, buf, start, start + order) {
        Ok(()) => (),
        Err(e) => {
            return Err(e);
        },
    }
    let ghost mid1 = *rdr;
    let ghost buf1 = buf@;
    match decode_residual(bs, rdr, (end - start) as u16, buf, start + order, end) {
        Ok(()) => (),
        Err(e) => {
            proof {
                lemma_crc16_carried_trans(*old(rdr), mid1, *rdr);
            }
            return Err(e);
        },
    }
    proof {
        lemma_crc16_carried_trans(*old(rdr), mid1, *rdr);
    }
    let ghost mid_buf = buf@;
    let ghost n = (end - start) as int;
    fixed_predict(order, buf, start, end);
    proof {
        let stored = spec_fixed_stored_seq(data, p0, fr_bps, order as int, n);
        assert forall|j: int| 0 <= j < n implies mid_buf.subrange(start as int, end as int)[j]
            == stored[j] by {
            if j < order {
                assert(mid_buf[start + j] as int == spec_fixed_stored(
                    data,
                    p0,
                    fr_bps,
                    order as int,
                    n,
                    j,
                ));
            } else {
                assert(mid_buf[start + j] as int == spec_fixed_stored(
                    data,
                    p0,
                    fr_bps,
                    order as int,
                    n,
                    j,
                ));
            }
        }
        assert(mid_buf.subrange(start as int, end as int) =~= stored);
    }
    Ok(())
}

/// Decodes an LPC subframe: warm-up samples, quantized coefficient
/// parameters, the coefficients in reverse storage order, the residual,
/// then the in-place linear prediction.
/// The quantized-coefficient precision stored in an LPC subframe whose
/// warm-up samples end at bit `pp`.
pub open spec fn spec_lpc_precision(data: Seq<u8>, pp: int) -> int {
    bits_value(data, pp, 4) as int + 1
}

/// The quantized predictor shift stored right after the precision
/// field.
pub open spec fn spec_lpc_shift(data: Seq<u8>, pp: int) -> int {
    sign_extend(bits_value(data, pp + 4, 5), 5)
}

/// The coefficient sequence of an LPC subframe: `order` two's
/// complement values of `prec` bits each, stored in reverse order
/// starting at bit `pc`.
pub open spec fn spec_lpc_coefs(data: Seq<u8>, pc: int, prec: int, order: int) -> Seq<i16> {
    Seq::new(
        order as nat,
        |k: int|
            sign_extend(
                bits_value(data, pc + (order - 1 - k) * prec, prec as nat),
                prec as nat,
            ) as i16,
    )
}

/// The stored contents of an LPC subframe of `n` samples at bit
/// position `p0`: `order` verbatim warm-up samples of `bps` bits, then
/// (after the precision, shift and coefficient fields) the partitioned
/// residual section.
pub open spec fn spec_lpc_stored(
    data: Seq<u8>,
    p0: int,
    bps: u32,
    order: int,
    n: int,
    j: int,
) -> int {
    if j < order {
        sign_extend(bits_value(data, p0 + j * bps, bps as nat), bps as nat)
    } else {
        let prec = spec_lpc_precision(data, p0 + order * bps);
        let pr = p0 + order * bps + 9 + order * prec;
        let m = bits_value(data, pr, 2);
        let pw: u32 = if m == 0 {
            4u32
        } else {
            5u32
        };
        let po = bits_value(data, pr + 2, 4);
        let plen = n / (pow2(po) as int);
        spec_residual_sample(data, pr + 6, pw, plen - order, plen, j - order)
    }
}

/// The stored LPC subframe as a sequence of 32-bit samples.
pub open spec fn spec_lpc_stored_seq(
    data: Seq<u8>,
    p0: int,
    bps: u32,
    order: int,
    n: int,
) -> Seq<i32> {
    Seq::new(n as nat, |j: int| spec_lpc_stored(data, p0, bps, order, n, j) as i32)
}

pub fn decode_lpc(
    bs: &mut BitStream,
    rdr: &mut ByteReader,
    fr_bps: u32,
    order: usize,
    buf: &mut Vec<i32>,
    start: usize,
    end: usize,
) -> (r: Result<(), Error>)
    requires
        fr_bps <= 32,
        1 <= order <= 32,
        start <= end <= old(buf).len(),
        end - start <= 0xffff,
        old(bs).wf(*old(rdr)),
        old(rdr).wf(),
    ensures
        stream_advanced(*old(bs), *old(rdr), *final(bs), *final(rdr)),
        buf_outside_unchanged(old(buf)@, final(buf)@, start as int, end as int),
        end - start < order ==> r == Result::<(), Error>::Err(
            Error::ParseError("invalid lpc subframe, order is larger than block size"),
        ) && final(buf)@ == old(buf)@ && *final(rdr) == *old(rdr) && *final(bs) == *old(bs),
        ({
            let data = old(rdr).data@;
            let p0 = old(bs).bit_pos(*old(rdr));
            let pp = p0 + order * fr_bps;
            &&& (end - start >= order && pp + 4 <= 8 * data.len() && bits_value(data, pp, 4)
                == 15 ==> r == Result::<(), Error>::Err(
                Error::ParseError("invalid lpc subframe, qlpc value invalid"),
            ))
            &&& (end - start >= order && pp + 9 <= 8 * data.len() && bits_value(data, pp, 4) != 15
                && spec_lpc_shift(data, pp) < 0 ==> r == Result::<(), Error>::Err(
                Error::Unsupported(
                    "negative quantized linear predictor coefficient shift not supported",
                ),
            ))
        }),
        r matches Err(e) ==> e.is_io() || e == Error::ParseError(
            "invalid lpc subframe, order is larger than block size",
        ) || e == Error::ParseError("invalid lpc subframe, qlpc value invalid") || e
            == Error::Unsupported(
            "negative quantized linear predictor coefficient shift not supported",
        ) || e == Error::Unsupported("Encountered reserved bits in residual") || e
            == Error::ParseError("invalid partition order in residual") || e == Error::ParseError(
            "invalid residual",
        ),
        r is Ok ==> ({
            let data = old(rdr).data@;
            let p0 = old(bs).bit_pos(*old(rdr));
            let pp = p0 + order * fr_bps;
            let prec = spec_lpc_precision(data, pp);
            let shift = spec_lpc_shift(data, pp);
            let coefs = spec_lpc_coefs(data, pp + 9, prec, order as int);
            let stored = spec_lpc_stored_seq(data, p0, fr_bps, order as int, (end - start) as int);
            &&& 1 <= prec <= 15
            &&& 0 <= shift <= 15
            &&& forall|j: int|
                start <= j < end ==> final(buf)@[j] == lpc_decoded(
                    coefs,
                    shift as nat,
                    stored,
                    j - start,
                )
        }),
{
    if end - start < order {
        proof {
            crate::bytes::lemma_crc_carried_refl(*old(rdr), *old(rdr));
        }
        return parse_error("invalid lpc subframe, order is larger than block size");
    }
    match decode_verbatim(bs, rdr, fr_bps, buf, start, start + order) {
        Ok(()) => (),
        Err(e) => {
            return Err(e);
        },
    }
    let ghost data = old(rdr).data@;
    let ghost p0 = old(bs).bit_pos(*old(rdr));
    let ghost pp = p0 + order * fr_bps;
    let ghost mid1 = *rdr;
    let qp_raw = match bs.read_len_u8(rdr, 4) {
        Ok(v) => v,
        Err(e) => {
            proof {
                lemma_crc16_carried_trans(*old(rdr), mid1, *rdr);
            }
            return Err(e);
        },
    };
    let qlpc_precision: u32 = qp_raw as u32 + 1;
    proof {
        lemma2_to64();
        lemma_crc16_carried_trans(*old(rdr), mid1, *rdr);
    }
    if qlpc_precision > 15 {
        return parse_error("invalid lpc subframe, qlpc value invalid");
    }
    let ghost mid2 = *rdr;
    let shift_raw = match bs.read_len_u8(rdr, 5) {
        Ok(v) => v,
        Err(e) => {
            proof {
                lemma_crc16_carried_trans(*old(rdr), mid2, *rdr);
            }
            return Err(e);
        },
    };
    proof {
        lemma2_to64();
        lemma_crc16_carried_trans(*old(rdr), mid2, *rdr);
    }
    let qlp_shift = extend_sign_u16(shift_raw as u16, 5);
    if qlp_shift < 0 {
        return unsupported_error(
            "negative quantized linear predictor coefficient shift not supported",
        );
    }
    assert(qlp_shift <= 15);
    assert(qlp_shift == spec_lpc_shift(data, pp));
    let ghost prec = qlpc_precision as int;
    let ghost pc = pp + 9;
    let mut reversed: Vec<i16> = Vec::new();
    let mut k: usize = 0;
    #[verifier::loop_isolation(false)]
    while k < order
        invariant
            0 <= k <= order,
            reversed.len() == k,
            bs.wf(*rdr),
            rdr.wf(),
            rdr.data@ == old(rdr).data@,
            rdr.pos >= old(rdr).pos,
            crc16_carried(*old(rdr), *rdr),
            bs.bit_pos(*rdr) == pc + k * prec,
            forall|i: int|
                0 <= i < k ==> reversed@[i] == sign_extend(
                    bits_value(data, pc + i * prec, prec as nat),
                    prec as nat,
                ),
        decreases order - k,
    {
        let ghost midk = *rdr;
        let raw = match bs.read_len_u16(rdr, qlpc_precision) {
            Ok(v) => v,
            Err(e) => {
                proof {
                    lemma_crc16_carried_trans(*old(rdr), midk, *rdr);
                }
                return Err(e);
            },
        };
        proof {
            lemma_crc16_carried_trans(*old(rdr), midk, *rdr);
            lemma2_to64();
            if qlpc_precision < 16 {
                vstd::arithmetic::power2::lemma_pow2_strictly_increases(qlpc_precision as nat, 16);
            }
        }
        let c = extend_sign_u16(raw, qlpc_precision);
        reversed.push(c);
        proof {
            assert((k + 1) * prec == k * prec + prec) by (nonlinear_arith);
        }
        k = k + 1;
    }
    proof {
        assert(order * prec == order as int * prec) by (nonlinear_arith);
    }
    let ghost pr = pc + order * prec;
    let mut coefficients: Vec<i16> = Vec::new();
    let mut k2: usize = 0;
    #[verifier::loop_isolation(false)]
    while k2 < order
        invariant
            0 <= k2 <= order,
            coefficients.len() == k2,
            reversed.len() == order,
            forall|i: int|
                0 <= i < k2 ==> coefficients@[i] == reversed@[order - 1 - i],
        decreases order - k2,
    {
        coefficients.push(reversed[order - 1 - k2]);
        k2 = k2 + 1;
    }
    proof {
        assert(coefficients@ =~= spec_lpc_coefs(data, pc, prec, order as int));
    }
    let ghost mid3 = *rdr;
    match decode_residual(bs, rdr, (end - start) as u16, buf, start + order, end) {
        Ok(()) => (),
        Err(e) => {
            proof {
                lemma_crc16_carried_trans(*old(rdr), mid3, *rdr);
            }
            return Err(e);
        },
    }
    proof {
        lemma_crc16_carried_trans(*old(rdr), mid3, *rdr);
    }
    let ghost mid_buf = buf@;
    let ghost n = (end - start) as int;
    if order <= 12 {
        predict_lpc_low_order(&coefficients, qlp_shift, buf, start, end);
    } else {
        predict_lpc_high_order(&coefficients, qlp_shift, buf, start, end);
    }
    proof {
        let stored = spec_lpc_stored_seq(data, p0, fr_bps, order as int, n);
        assert forall|j: int| 0 <= j < n implies mid_buf.subrange(start as int, end as int)[j]
            == stored[j] by {
            assert(mid_buf[start + j] as int == spec_lpc_stored(
                data,
                p0,
                fr_bps,
                order as int,
                n,
                j,
            ));
        }
        assert(mid_buf.subrange(start as int, end as int) =~= stored);
    }
    Ok(())
}

/// The plain (encoder-side) order-`order` polynomial over the signal
/// itself.
pub open spec fn fixed_prediction_plain(order: int, s: Seq<i32>, i: int) -> int {
    if order == 1 {
        s[i - 1] as int
    } else if order == 2 {
        2 * s[i - 1] - s[i - 2]
    } else if order == 3 {
        3 * s[i - 1] - 3 * s[i - 2] + s[i - 3]
    } else if order == 4 {
        4 * s[i - 1] - 6 * s[i - 2] + 4 * s[i - 3] - s[i - 4]
    } else {
        0
    }
}

/// Fixed-predictor round trip: if `b` holds the signal's first `order`
/// samples followed by its wrapped order-`order` residuals, decoding `b`
/// restores the signal exactly, at every position.
pub proof fn lemma_fixed_predictor_round_trip(order: int, s: Seq<i32>, b: Seq<i32>)
    requires
        0 <= order <= 4,
        b.len() == s.len(),
        forall|i: int| 0 <= i < order && i < s.len() ==> b[i] == s[i],
        forall|i: int|
            order <= i < s.len() ==> b[i] == crop32(
                s[i] - fixed_prediction_plain(order, s, i),
            ),
    ensures
        forall|i: int| 0 <= i < s.len() ==> fixed_decoded(order, b, i) == s[i],
{
    assert forall|i: int| 0 <= i < s.len() implies fixed_decoded(order, b, i) == s[i] by {
        lemma_fixed_round_trip_at(order, s, b, i);
    }
}

/// Fills `buf[start..end]` with the one constant sample stored in the
/// subframe, read as a `fr_bps`-bit two's complement value.
#[verifier::loop_isolation(false)]
pub fn decode_constant(
    bs: &mut BitStream,
    rdr: &mut ByteReader,
    fr_bps: u32,
    buf: &mut Vec<i32>,
    start: usize,
    end: usize,
) -> (r: Result<(), Error>)
    requires
        fr_bps <= 32,
        start <= end <= old(buf).len(),
        old(bs).wf(*old(rdr)),
        old(rdr).wf(),
    ensures
        stream_advanced(*old(bs), *old(rdr), *final(bs), *final(rdr)),
        buf_outside_unchanged(old(buf)@, final(buf)@, start as int, end as int),
        old(bs).bit_pos(*old(rdr)) + fr_bps <= 8 * old(rdr).data@.len() ==> {
            &&& r == Result::<(), Error>::Ok(())
            &&& final(bs).bit_pos(*final(rdr)) == old(bs).bit_pos(*old(rdr)) + fr_bps
            &&& forall|j: int|
                start <= j < end ==> final(buf)@[j] == sign_extend(
                    bits_value(old(rdr).data@, old(bs).bit_pos(*old(rdr)), fr_bps as nat),
                    fr_bps as nat,
                )
        },
        old(bs).bit_pos(*old(rdr)) + fr_bps > 8 * old(rdr).data@.len() ==> (r matches Err(e)
            && e.is_io()) && final(buf)@ == old(buf)@,
        r matches Err(e) ==> e.is_io(),
{
    let v = match bs.read_len_u32(rdr, fr_bps) {
        Ok(v) => v,
        Err(e) => {
            return Err(e);
        },
    };
    proof {
        lemma2_to64();
        lemma2_to64_rest();
        if fr_bps < 32 {
            vstd::arithmetic::power2::lemma_pow2_strictly_increases(fr_bps as nat, 32);
        }
    }
    let sample = extend_sign_u32(v, fr_bps);
    let mut i: usize = start;
    while i < end
        invariant
            start <= i <= end,
            buf.len() == old(buf).len(),
            forall|j: int| 0 <= j < start ==> buf@[j] == old(buf)@[j],
            forall|j: int| i <= j < old(buf).len() ==> buf@[j] == old(buf)@[j],
            forall|j: int| start <= j < i ==> buf@[j] == sample,
        decreases end - i,
    {
        buf.set(i, sample);
        i = i + 1;
    }
    Ok(())
}

/// Reads `end - start` samples of `fr_bps` bits each, sign-extended,
/// into `buf[start..end]`.
#[verifier::loop_isolation(false)]
pub fn decode_verbatim(
    bs: &mut BitStream,
    rdr: &mut ByteReader,
    fr_bps: u32,
    buf: &mut Vec<i32>,
    start: usize,
    end: usize,
) -> (r: Result<(), Error>)
    requires
        fr_bps <= 32,
        start <= end <= old(buf).len(),
        old(bs).wf(*old(rdr)),
        old(rdr).wf(),
    ensures
        stream_advanced(*old(bs), *old(rdr), *final(bs), *final(rdr)),
        buf_outside_unchanged(old(buf)@, final(buf)@, start as int, end as int),
        old(bs).bit_pos(*old(rdr)) + (end - start) * fr_bps <= 8 * old(rdr).data@.len() ==> {
            &&& r == Result::<(), Error>::Ok(())
            &&& final(bs).bit_pos(*final(rdr)) == old(bs).bit_pos(*old(rdr)) + (end - start)
                * fr_bps
            &&& forall|j: int|
                start <= j < end ==> final(buf)@[j] == sign_extend(
                    bits_value(
                        old(rdr).data@,
                        old(bs).bit_pos(*old(rdr)) + (j - start) * fr_bps,
                        fr_bps as nat,
                    ),
                    fr_bps as nat,
                )
        },
        old(bs).bit_pos(*old(rdr)) + (end - start) * fr_bps > 8 * old(rdr).data@.len() ==> (
        r matches Err(e) && e.is_io()),
        r matches Err(e) ==> e.is_io(),
{
    let ghost data = old(rdr).data@;
    let ghost p0 = old(bs).bit_pos(*old(rdr));
    let ghost n = (end - start) as int;
    let mut i: usize = start;
    while i < end
        invariant
            start <= i <= end,
            bs.wf(*rdr),
            rdr.wf(),
            rdr.data@ == data,
            rdr.pos >= old(rdr).pos,
            crc16_carried(*old(rdr), *rdr),
            bs.bit_pos(*rdr) == p0 + (i - start) * fr_bps,
            buf.len() == old(buf).len(),
            forall|j: int| 0 <= j < start ==> buf@[j] == old(buf)@[j],
            forall|j: int| i <= j < old(buf).len() ==> buf@[j] == old(buf)@[j],
            forall|j: int|
                start <= j < i ==> buf@[j] == sign_extend(
                    bits_value(data, p0 + (j - start) * fr_bps, fr_bps as nat),
                    fr_bps as nat,
                ),
        decreases end - i,
    {
        let ghost mid = *rdr;
        let v = match bs.read_len_u32(rdr, fr_bps) {
            Ok(v) => v,
            Err(e) => {
                proof {
                    lemma_crc16_carried_trans(*old(rdr), mid, *rdr);
                    assert((i - start + 1) * fr_bps == (i - start) * fr_bps
                        + fr_bps) by (nonlinear_arith);
                    assert((i - start + 1) * fr_bps <= n * fr_bps) by (nonlinear_arith)
                        requires
                            0 <= fr_bps,
                            i - start + 1 <= n,
                    ;
                }
                return Err(e);
            },
        };
        proof {
            lemma2_to64();
            lemma2_to64_rest();
            if fr_bps < 32 {
                vstd::arithmetic::power2::lemma_pow2_strictly_increases(fr_bps as nat, 32);
            }
        }
        let s = extend_sign_u32(v, fr_bps);
        buf.set(i, s);
        proof {
            lemma_crc16_carried_trans(*old(rdr), mid, *rdr);
            assert((i + 1 - start) * fr_bps == (i - start) * fr_bps + fr_bps) by (nonlinear_arith);
            assert((i + 1 - start) * fr_bps <= n * fr_bps) by (nonlinear_arith)
                requires
                    0 <= fr_bps,
                    i + 1 - start <= n,
            ;
        }
        i = i + 1;
    }
    Ok(())
}

proof fn lemma_fixed_round_trip_at(order: int, s: Seq<i32>, b: Seq<i32>, i: int)
    requires
        0 <= order <= 4,
        b.len() == s.len(),
        0 <= i < s.len(),
        forall|j: int| 0 <= j < order && j < s.len() ==> b[j] == s[j],
        forall|j: int|
            order <= j < s.len() ==> b[j] == crop32(
                s[j] - fixed_prediction_plain(order, s, j),
            ),
    ensures
        fixed_decoded(order, b, i) == s[i],
    decreases i,
{
    if i < order {
        assert(fixed_decoded(order, b, i) == b[i]);
    } else {
        if order >= 1 {
            lemma_fixed_round_trip_at(order, s, b, i - 1);
        }
        if order >= 2 {
            lemma_fixed_round_trip_at(order, s, b, i - 2);
        }
        if order >= 3 {
            lemma_fixed_round_trip_at(order, s, b, i - 3);
        }
        if order >= 4 {
            lemma_fixed_round_trip_at(order, s, b, i - 4);
        }
        assert(fixed_prediction(order, b, i) == fixed_prediction_plain(order, s, i));
        let pred = fixed_prediction_plain(order, s, i);
        lemma_crop32_add(s[i] - pred, pred);
        lemma_crop32_identity(s[i] as int);
    }
}

} // verus!
