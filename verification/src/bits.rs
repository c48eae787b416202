//! Bit-level reading over a [`ByteReader`].
//!
//! A `BitStream` carries a cursor into the byte most recently consumed
//! from the reader, so that values that are not byte-aligned can be read.
//! Bits are consumed most-significant first.

use vstd::prelude::*;
use vstd::arithmetic::div_mod::lemma_fundamental_div_mod_converse;
use vstd::arithmetic::power2::{lemma2_to64, pow2};

use crate::bytes::ByteReader;
use crate::crc::{crc16_fold, crc16_step, crc8_step, lemma_crc16_fold_push};
use crate::errors::Error;

verus! {

/// Bit `i` of the stream, counting from the most significant bit of the
/// first byte; either 0 or 1.
pub open spec fn stream_bit(data: Seq<u8>, i: int) -> u8 {
    (data[i / 8] >> ((7 - (i % 8)) as u8)) & 1
}

/// The unsigned value of the `n` bits of the stream starting at bit
/// `start`, most significant first.
pub open spec fn bits_value(data: Seq<u8>, start: int, n: nat) -> nat
    decreases n,
{
    if n == 0 {
        0
    } else {
        (bits_value(data, start, (n - 1) as nat) * 2 + stream_bit(data, start + n - 1)) as nat
    }
}

/// A stream bit is 0 or 1.
pub proof fn lemma_stream_bit_le_one(data: Seq<u8>, i: int)
    ensures
        stream_bit(data, i) <= 1,
{
    let b = data[i / 8];
    let s = (7 - (i % 8)) as u8;
    assert((b >> s) & 1 <= 1) by (bit_vector);
}

/// The value of `n` bits is below `2^n`.
pub proof fn lemma_bits_value_bound(data: Seq<u8>, start: int, n: nat)
    ensures
        bits_value(data, start, n) < pow2(n),
    decreases n,
{
    vstd::arithmetic::power2::lemma_pow2_pos(n);
    if n == 0 {
        assert(pow2(0) == 1) by {
            lemma2_to64();
        }
    } else {
        lemma_bits_value_bound(data, start, (n - 1) as nat);
        lemma_stream_bit_le_one(data, start + n - 1);
        assert(pow2(n) == 2 * pow2((n - 1) as nat)) by {
            vstd::arithmetic::power2::lemma_pow2_unfold(n);
        }
    }
}

/// Whether the bits at `p` form a unary-coded run: `q` zero bits
/// followed by a one bit.
pub open spec fn is_unary_at(data: Seq<u8>, p: int, q: int) -> bool {
    &&& 0 <= q
    &&& (forall|j: int| 0 <= j < q ==> #[trigger] stream_bit(data, p + j) == 0)
    &&& stream_bit(data, p + q) == 1
}

/// The length of the unary run starting at bit `p`; meaningful only
/// where such a run exists.
pub open spec fn spec_unary_at(data: Seq<u8>, p: int) -> int {
    choose|q: int| is_unary_at(data, p, q)
}

/// At most one run length fits a given start position.
pub proof fn lemma_unary_at_unique(data: Seq<u8>, p: int, q1: int, q2: int)
    requires
        is_unary_at(data, p, q1),
        is_unary_at(data, p, q2),
    ensures
        q1 == q2,
{
    if q1 < q2 {
        assert(stream_bit(data, p + q1) == 0);
    } else if q2 < q1 {
        assert(stream_bit(data, p + q2) == 0);
    }
}

/// Reads bit-granularity values out of a byte reader.  The stream
/// position in bits is `bit_pos`; a fresh `BitStream` is byte-aligned.
pub struct BitStream {
    /// How many bits of the byte at `rdr.pos - 1` have been consumed;
    /// 8 means the stream is byte-aligned.
    pub used: u8,
}

impl BitStream {
    /// The cursor is consistent with the byte reader it walks.
    pub open spec fn wf(self, rdr: ByteReader) -> bool {
        &&& 1 <= self.used <= 8
        &&& (self.used < 8 ==> 1 <= rdr.pos)
    }

    /// The next unread bit, as an index into the stream's bits.
    pub open spec fn bit_pos(self, rdr: ByteReader) -> int {
        rdr.pos * 8 - 8 + self.used
    }

    /// Starts a byte-aligned bit stream.
    pub fn new() -> (r: BitStream)
        ensures
            r.used == 8,
            forall|rdr: ByteReader| r.wf(rdr) && #[trigger] r.bit_pos(rdr) == rdr.pos * 8,
    {
        BitStream { used: 8 }
    }

    /// True when no partial byte is pending.
    pub fn is_aligned(&self) -> (r: bool)
        ensures
            r == (self.used == 8),
    {
        self.used == 8
    }

    /// Consumes a single bit.
    pub fn read_bit(&mut self, rdr: &mut ByteReader) -> (r: Result<bool, Error>)
        requires
            old(self).wf(*old(rdr)),
            old(rdr).wf(),
        ensures
            final(self).wf(*final(rdr)),
            final(rdr).wf(),
            final(rdr).data@ == old(rdr).data@,
            final(rdr).pos >= old(rdr).pos,
            final(rdr).crc16 == crc16_fold(
                old(rdr).crc16,
                old(rdr).data@.subrange(old(rdr).pos as int, final(rdr).pos as int),
            ),
            old(self).bit_pos(*old(rdr)) < 8 * old(rdr).data@.len() ==> {
                &&& r == Result::<bool, Error>::Ok(
                    stream_bit(old(rdr).data@, old(self).bit_pos(*old(rdr))) == 1,
                )
                &&& final(self).bit_pos(*final(rdr)) == old(self).bit_pos(*old(rdr)) + 1
            },
            old(self).bit_pos(*old(rdr)) >= 8 * old(rdr).data@.len() ==> {
                &&& (r matches Err(e) && e.is_io())
                &&& *final(rdr) == *old(rdr)
                &&& *final(self) == *old(self)
            },
    {
        let ghost p0 = old(self).bit_pos(*old(rdr));
        if self.used == 8 {
            let b = match rdr.read_u8() {
                Ok(b) => b,
                Err(e) => {
                    proof {
                        assert(old(rdr).data@.subrange(
                            old(rdr).pos as int,
                            old(rdr).pos as int,
                        ) =~= Seq::<u8>::empty());
                    }
                    return Err(e);
                },
            };
            self.used = 1;
            proof {
                lemma_fundamental_div_mod_converse(p0, 8, old(rdr).pos as int, 0);
                let s = old(rdr).data@.subrange(old(rdr).pos as int, old(rdr).pos + 1);
                assert(s =~= Seq::<u8>::empty().push(b));
                lemma_crc16_fold_push(old(rdr).crc16, Seq::<u8>::empty(), b);
            }
            Ok(((b >> 7u8) & 1) == 1)
        } else {
            let b = rdr.byte_at(rdr.pos - 1);
            let bit = (b >> (7u8 - self.used)) & 1;
            self.used = self.used + 1;
            proof {
                lemma_fundamental_div_mod_converse(
                    p0,
                    8,
                    old(rdr).pos - 1,
                    old(self).used as int,
                );
                assert(old(rdr).data@.subrange(old(rdr).pos as int, old(rdr).pos as int)
                    =~= Seq::<u8>::empty());
            }
            Ok(bit == 1)
        }
    }

    /// Consumes `bits` bits (at most 32) as an unsigned value, most
    /// significant bit first.
    #[verifier::loop_isolation(false)]
    pub fn read_len_u32(&mut self, rdr: &mut ByteReader, bits: u32) -> (r: Result<u32, Error>)
        requires
            bits <= 32,
            old(self).wf(*old(rdr)),
            old(rdr).wf(),
        ensures
            final(self).wf(*final(rdr)),
            final(rdr).wf(),
            final(rdr).data@ == old(rdr).data@,
            final(rdr).pos >= old(rdr).pos,
            final(rdr).crc16 == crc16_fold(
                old(rdr).crc16,
                old(rdr).data@.subrange(old(rdr).pos as int, final(rdr).pos as int),
            ),
            old(self).bit_pos(*old(rdr)) + bits <= 8 * old(rdr).data@.len() ==> {
                &&& r == Result::<u32, Error>::Ok(
                    bits_value(
                        old(rdr).data@,
                        old(self).bit_pos(*old(rdr)),
                        bits as nat,
                    ) as u32,
                )
                &&& bits_value(old(rdr).data@, old(self).bit_pos(*old(rdr)), bits as nat)
                    < pow2(bits as nat)
                &&& final(self).bit_pos(*final(rdr)) == old(self).bit_pos(*old(rdr)) + bits
            },
            old(self).bit_pos(*old(rdr)) + bits > 8 * old(rdr).data@.len() ==> (
            r matches Err(e) && e.is_io()),
    {
        let ghost data = old(rdr).data@;
        let ghost p0 = old(self).bit_pos(*old(rdr));
        let mut acc: u32 = 0;
        let mut i: u32 = 0;
        proof {
            lemma2_to64();
        }
        while i < bits
            invariant
                i <= bits,
                bits <= 32,
                self.wf(*rdr),
                rdr.wf(),
                rdr.data@ == data,
                rdr.pos >= old(rdr).pos,
                self.bit_pos(*rdr) == p0 + i,
                acc == bits_value(data, p0, i as nat),
                acc < pow2(i as nat),
                p0 + i <= 8 * data.len(),
                rdr.crc16 == crc16_fold(
                    old(rdr).crc16,
                    data.subrange(old(rdr).pos as int, rdr.pos as int),
                ),
            decreases bits - i,
        {
            let ghost pos_before = rdr.pos as int;
            let ghost crc_before = rdr.crc16;
            let b = match self.read_bit(rdr) {
                Ok(b) => b,
                Err(e) => {
                    proof {
                        lemma_crc16_fold_subrange_join(
                            old(rdr).crc16,
                            data,
                            old(rdr).pos as int,
                            pos_before,
                            rdr.pos as int,
                        );
                    }
                    return Err(e);
                },
            };
            proof {
                lemma_stream_bit_le_one(data, p0 + i);
                vstd::arithmetic::power2::lemma_pow2_unfold((i + 1) as nat);
                if i + 1 <= 32 {
                    vstd::arithmetic::power2::lemma_pow2_adds(i as nat, (32 - i) as nat);
                    vstd::arithmetic::power2::lemma_pow2_pos((32 - i) as nat);
                }
                lemma_crc16_fold_subrange_join(
                    old(rdr).crc16,
                    data,
                    old(rdr).pos as int,
                    pos_before,
                    rdr.pos as int,
                );
            }
            assert(pow2(i as nat) <= pow2(31)) by {
                if (i as nat) < 31 {
                    vstd::arithmetic::power2::lemma_pow2_strictly_increases(i as nat, 31);
                }
            }
            acc = acc * 2 + if b {
                1
            } else {
                0
            };
            i = i + 1;
        }
        Ok(acc)
    }

    /// Consumes `bits` bits (at most 16) as an unsigned value.
    pub fn read_len_u16(&mut self, rdr: &mut ByteReader, bits: u32) -> (r: Result<u16, Error>)
        requires
            bits <= 16,
            old(self).wf(*old(rdr)),
            old(rdr).wf(),
        ensures
            final(self).wf(*final(rdr)),
            final(rdr).wf(),
            final(rdr).data@ == old(rdr).data@,
            final(rdr).pos >= old(rdr).pos,
            final(rdr).crc16 == crc16_fold(
                old(rdr).crc16,
                old(rdr).data@.subrange(old(rdr).pos as int, final(rdr).pos as int),
            ),
            old(self).bit_pos(*old(rdr)) + bits <= 8 * old(rdr).data@.len() ==> {
                &&& r == Result::<u16, Error>::Ok(
                    bits_value(
                        old(rdr).data@,
                        old(self).bit_pos(*old(rdr)),
                        bits as nat,
                    ) as u16,
                )
                &&& bits_value(old(rdr).data@, old(self).bit_pos(*old(rdr)), bits as nat)
                    < pow2(bits as nat)
                &&& final(self).bit_pos(*final(rdr)) == old(self).bit_pos(*old(rdr)) + bits
            },
            old(self).bit_pos(*old(rdr)) + bits > 8 * old(rdr).data@.len() ==> (
            r matches Err(e) && e.is_io()),
    {
        let v = self.read_len_u32(rdr, bits)?;
        proof {
            if old(self).bit_pos(*old(rdr)) + bits <= 8 * old(rdr).data@.len() {
                assert(pow2(bits as nat) <= pow2(16)) by {
                    if (bits as nat) < 16 {
                        vstd::arithmetic::power2::lemma_pow2_strictly_increases(bits as nat, 16);
                    }
                }
                lemma2_to64();
            }
        }
        Ok(v as u16)
    }

    /// Consumes `bits` bits (at most 8) as an unsigned value.
    pub fn read_len_u8(&mut self, rdr: &mut ByteReader, bits: u32) -> (r: Result<u8, Error>)
        requires
            bits <= 8,
            old(self).wf(*old(rdr)),
            old(rdr).wf(),
        ensures
            final(self).wf(*final(rdr)),
            final(rdr).wf(),
            final(rdr).data@ == old(rdr).data@,
            final(rdr).pos >= old(rdr).pos,
            final(rdr).crc16 == crc16_fold(
                old(rdr).crc16,
                old(rdr).data@.subrange(old(rdr).pos as int, final(rdr).pos as int),
            ),
            old(self).bit_pos(*old(rdr)) + bits <= 8 * old(rdr).data@.len() ==> {
                &&& r == Result::<u8, Error>::Ok(
                    bits_value(
                        old(rdr).data@,
                        old(self).bit_pos(*old(rdr)),
                        bits as nat,
                    ) as u8,
                )
                &&& bits_value(old(rdr).data@, old(self).bit_pos(*old(rdr)), bits as nat)
                    < pow2(bits as nat)
                &&& final(self).bit_pos(*final(rdr)) == old(self).bit_pos(*old(rdr)) + bits
            },
            old(self).bit_pos(*old(rdr)) + bits > 8 * old(rdr).data@.len() ==> (
            r matches Err(e) && e.is_io()),
    {
        let v = self.read_len_u32(rdr, bits)?;
        proof {
            if old(self).bit_pos(*old(rdr)) + bits <= 8 * old(rdr).data@.len() {
                assert(pow2(bits as nat) <= pow2(8)) by {
                    if (bits as nat) < 8 {
                        vstd::arithmetic::power2::lemma_pow2_strictly_increases(bits as nat, 8);
                    }
                }
                lemma2_to64();
            }
        }
        Ok(v as u8)
    }

    /// Consumes `bits` bits (at most 8) and discards the value.
    pub fn skip_len_u8(&mut self, rdr: &mut ByteReader, bits: u32) -> (r: Result<(), Error>)
        requires
            bits <= 8,
            old(self).wf(*old(rdr)),
            old(rdr).wf(),
        ensures
            final(self).wf(*final(rdr)),
            final(rdr).wf(),
            final(rdr).data@ == old(rdr).data@,
            final(rdr).pos >= old(rdr).pos,
            final(rdr).crc16 == crc16_fold(
                old(rdr).crc16,
                old(rdr).data@.subrange(old(rdr).pos as int, final(rdr).pos as int),
            ),
            old(self).bit_pos(*old(rdr)) + bits <= 8 * old(rdr).data@.len() ==> {
                &&& r == Result::<(), Error>::Ok(())
                &&& final(self).bit_pos(*final(rdr)) == old(self).bit_pos(*old(rdr)) + bits
            },
            old(self).bit_pos(*old(rdr)) + bits > 8 * old(rdr).data@.len() ==> (
            r matches Err(e) && e.is_io()),
    {
        let _ = self.read_len_u32(rdr, bits)?;
        Ok(())
    }

    /// Consumes bits until a 1 bit is found and returns how many 0 bits
    /// came before it.
    #[verifier::loop_isolation(false)]
    pub fn read_unary(&mut self, rdr: &mut ByteReader) -> (r: Result<u32, Error>)
        requires
            old(self).wf(*old(rdr)),
            old(rdr).wf(),
        ensures
            final(self).wf(*final(rdr)),
            final(rdr).wf(),
            final(rdr).data@ == old(rdr).data@,
            final(rdr).pos >= old(rdr).pos,
            final(rdr).crc16 == crc16_fold(
                old(rdr).crc16,
                old(rdr).data@.subrange(old(rdr).pos as int, final(rdr).pos as int),
            ),
            r matches Ok(n) ==> {
                &&& is_unary_at(old(rdr).data@, old(self).bit_pos(*old(rdr)), n as int)
                &&& n == spec_unary_at(old(rdr).data@, old(self).bit_pos(*old(rdr)))
                &&& final(self).bit_pos(*final(rdr)) == old(self).bit_pos(*old(rdr)) + n + 1
            },
            r matches Err(e) ==> e.is_io() && (forall|j: int|
                old(self).bit_pos(*old(rdr)) <= j < 8 * old(rdr).data@.len()
                    ==> #[trigger] stream_bit(old(rdr).data@, j) == 0),
            (exists|q: int|
                0 <= q && old(self).bit_pos(*old(rdr)) + q < 8 * old(rdr).data@.len()
                    && is_unary_at(old(rdr).data@, old(self).bit_pos(*old(rdr)), q)) ==> r is Ok,
    {
        let ghost data = old(rdr).data@;
        let ghost p0 = old(self).bit_pos(*old(rdr));
        let mut n: u32 = 0;
        loop
            invariant
                self.wf(*rdr),
                rdr.wf(),
                rdr.data@ == data,
                rdr.pos >= old(rdr).pos,
                self.bit_pos(*rdr) == p0 + n,
                p0 + n <= 8 * data.len(),
                forall|j: int| 0 <= j < n ==> #[trigger] stream_bit(data, p0 + j) == 0,
                rdr.crc16 == crc16_fold(
                    old(rdr).crc16,
                    data.subrange(old(rdr).pos as int, rdr.pos as int),
                ),
            decreases 8 * data.len() - p0 - n,
        {
            let ghost pos_before = rdr.pos as int;
            let b = match self.read_bit(rdr) {
                Ok(b) => b,
                Err(e) => {
                    proof {
                        lemma_crc16_fold_subrange_join(
                            old(rdr).crc16,
                            data,
                            old(rdr).pos as int,
                            pos_before,
                            rdr.pos as int,
                        );
                        assert forall|j: int| p0 <= j < 8 * data.len() implies #[trigger] stream_bit(
                            data,
                            j,
                        ) == 0 by {
                            assert(stream_bit(data, p0 + (j - p0)) == 0);
                        }
                        assert(!(exists|q: int|
                            0 <= q && p0 + q < 8 * data.len() && is_unary_at(data, p0, q))) by {
                            if exists|q: int|
                                0 <= q && p0 + q < 8 * data.len() && is_unary_at(data, p0, q) {
                                let q = choose|q: int|
                                    0 <= q && p0 + q < 8 * data.len() && is_unary_at(data, p0, q);
                                assert(stream_bit(data, p0 + q) == 1);
                                assert(stream_bit(data, p0 + q) == 0);
                            }
                        }
                    }
                    return Err(e);
                },
            };
            proof {
                lemma_crc16_fold_subrange_join(
                    old(rdr).crc16,
                    data,
                    old(rdr).pos as int,
                    pos_before,
                    rdr.pos as int,
                );
            }
            if b {
                proof {
                    lemma_stream_bit_le_one(data, p0 + n);
                    assert(is_unary_at(data, p0, n as int));
                    let qc = spec_unary_at(data, p0);
                    assert(is_unary_at(data, p0, qc)) by {
                        assert(exists|q: int| is_unary_at(data, p0, q));
                    }
                    lemma_unary_at_unique(data, p0, qc, n as int);
                }
                return Ok(n);
            }
            proof {
                lemma_stream_bit_le_one(data, p0 + n);
            }
            assert(n < 0xffff_fff8) by {
                assert(p0 + n < 8 * data.len());
                assert(data.len() <= 0x1fff_ffff);
            }
            n = n + 1;
        }
    }
}

/// Folding a CRC-16 over two adjacent subranges equals folding over the
/// joined range.
pub proof fn lemma_crc16_fold_subrange_join(c: u16, data: Seq<u8>, a: int, b: int, d: int)
    requires
        0 <= a <= b <= d <= data.len(),
    ensures
        crc16_fold(c, data.subrange(a, d)) == crc16_fold(
            crc16_fold(c, data.subrange(a, b)),
            data.subrange(b, d),
        ),
{
    assert(data.subrange(a, d) =~= data.subrange(a, b) + data.subrange(b, d));
    crate::crc::lemma_crc16_fold_append(c, data.subrange(a, b), data.subrange(b, d));
}

} // verus!
