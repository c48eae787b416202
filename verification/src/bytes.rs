//! Byte-level access to an in-memory audio stream.
//!
//! `ByteReader` holds the whole container byte stream and a cursor, and
//! keeps running CRC-8 and CRC-16 registers over every byte consumed
//! through [`ByteReader::read_u8`] and the multi-byte reads built on it.

use vstd::prelude::*;

use crate::crc::{
    crc16_fold, crc16_step, crc8_fold, crc8_step, crc16_update, crc8_update,
    lemma_crc16_fold_append, lemma_crc8_fold_append, lemma_crc16_fold_push, lemma_crc8_fold_push,
};
use crate::errors::{io_error, unsupported_error, Error};

verus! {

/// The CRC-16 register of `post` extends that of `pre` by exactly the
/// bytes consumed between the two reader states.
pub open spec fn crc16_carried(pre: ByteReader, post: ByteReader) -> bool {
    post.crc16 == crc16_fold(pre.crc16, pre.data@.subrange(pre.pos as int, post.pos as int))
}

/// The CRC-8 register of `post` extends that of `pre` by exactly the
/// bytes consumed between the two reader states.
pub open spec fn crc8_carried(pre: ByteReader, post: ByteReader) -> bool {
    post.crc8 == crc8_fold(pre.crc8, pre.data@.subrange(pre.pos as int, post.pos as int))
}

/// Chains two CRC-16 carrying steps.
pub proof fn lemma_crc16_carried_trans(a: ByteReader, b: ByteReader, c: ByteReader)
    requires
        b.data@ == a.data@,
        c.data@ == a.data@,
        a.pos <= b.pos <= c.pos <= a.data@.len(),
        crc16_carried(a, b),
        crc16_carried(b, c),
    ensures
        crc16_carried(a, c),
{
    assert(a.data@.subrange(a.pos as int, c.pos as int) =~= a.data@.subrange(
        a.pos as int,
        b.pos as int,
    ) + a.data@.subrange(b.pos as int, c.pos as int));
    lemma_crc16_fold_append(
        a.crc16,
        a.data@.subrange(a.pos as int, b.pos as int),
        a.data@.subrange(b.pos as int, c.pos as int),
    );
}

/// Chains two CRC-8 carrying steps.
pub proof fn lemma_crc8_carried_trans(a: ByteReader, b: ByteReader, c: ByteReader)
    requires
        b.data@ == a.data@,
        c.data@ == a.data@,
        a.pos <= b.pos <= c.pos <= a.data@.len(),
        crc8_carried(a, b),
        crc8_carried(b, c),
    ensures
        crc8_carried(a, c),
{
    assert(a.data@.subrange(a.pos as int, c.pos as int) =~= a.data@.subrange(
        a.pos as int,
        b.pos as int,
    ) + a.data@.subrange(b.pos as int, c.pos as int));
    lemma_crc8_fold_append(
        a.crc8,
        a.data@.subrange(a.pos as int, b.pos as int),
        a.data@.subrange(b.pos as int, c.pos as int),
    );
}

/// A reader state carries its own CRC registers over an empty range.
pub proof fn lemma_crc_carried_refl(a: ByteReader, b: ByteReader)
    requires
        b.data@ == a.data@,
        b.pos == a.pos,
        b.crc16 == a.crc16,
        b.crc8 == a.crc8,
        a.pos <= a.data@.len(),
    ensures
        crc16_carried(a, b),
        crc8_carried(a, b),
{
    assert(a.data@.subrange(a.pos as int, a.pos as int) =~= Seq::<u8>::empty());
}

/// One consumed byte carries both CRC registers one step.
pub proof fn lemma_crc_carried_step(a: ByteReader, b: ByteReader)
    requires
        b.data@ == a.data@,
        b.pos == a.pos + 1,
        b.pos <= a.data@.len(),
        b.crc16 == crc16_step(a.crc16, a.data@[a.pos as int]),
        b.crc8 == crc8_step(a.crc8, a.data@[a.pos as int]),
    ensures
        crc16_carried(a, b),
        crc8_carried(a, b),
{
    let s = a.data@.subrange(a.pos as int, a.pos + 1);
    assert(s =~= Seq::<u8>::empty().push(a.data@[a.pos as int]));
    lemma_crc16_fold_push(a.crc16, Seq::<u8>::empty(), a.data@[a.pos as int]);
    lemma_crc8_fold_push(a.crc8, Seq::<u8>::empty(), a.data@[a.pos as int]);
}

/// Largest stream the library accepts, in bytes: the bit-level API
/// counts positions and unary runs in `u32`, so the stream must hold
/// fewer than `2^29` bytes.
pub const MAX_STREAM_LEN: usize = 0x1fff_ffff;

/// Message carried by every end-of-stream error.
pub const END_OF_STREAM: &'static str = "unexpected end of stream";

/// A little-endian 16-bit value assembled from two bytes.
pub open spec fn spec_le16(b0: u8, b1: u8) -> u16 {
    (b0 + b1 * 0x100) as u16
}

/// A big-endian 16-bit value assembled from two bytes.
pub open spec fn spec_be16(b0: u8, b1: u8) -> u16 {
    (b1 + b0 * 0x100) as u16
}

/// A little-endian 24-bit value assembled from three bytes.
pub open spec fn spec_le24(b0: u8, b1: u8, b2: u8) -> u32 {
    (b0 + b1 * 0x100 + b2 * 0x1_0000) as u32
}

/// A big-endian 24-bit value assembled from three bytes.
pub open spec fn spec_be24(b0: u8, b1: u8, b2: u8) -> u32 {
    (b2 + b1 * 0x100 + b0 * 0x1_0000) as u32
}

/// A little-endian 32-bit value assembled from four bytes.
pub open spec fn spec_le32(b0: u8, b1: u8, b2: u8, b3: u8) -> u32 {
    (b0 + b1 * 0x100 + b2 * 0x1_0000 + b3 * 0x100_0000) as u32
}

/// A big-endian 32-bit value assembled from four bytes.
pub open spec fn spec_be32(b0: u8, b1: u8, b2: u8, b3: u8) -> u32 {
    (b3 + b2 * 0x100 + b1 * 0x1_0000 + b0 * 0x100_0000) as u32
}

/// The 8-bit two's complement reading of a byte.
pub open spec fn spec_i8(v: u8) -> int {
    if v >= 0x80 {
        v - 0x100
    } else {
        v as int
    }
}

/// The 16-bit two's complement reading of a value below `2^16`.
pub open spec fn spec_i16(v: u16) -> int {
    if v >= 0x8000 {
        v - 0x1_0000
    } else {
        v as int
    }
}

/// The 24-bit two's complement reading of a value below `2^24`.
pub open spec fn spec_i24(v: u32) -> i32 {
    if v >= 0x80_0000 {
        (v - 0x100_0000) as i32
    } else {
        v as i32
    }
}

/// The 32-bit two's complement reading of a value below `2^32`.
pub open spec fn spec_i32(v: u32) -> int {
    if v >= 0x8000_0000 {
        v - 0x1_0000_0000
    } else {
        v as int
    }
}

/// Reads plain values out of an in-memory byte stream.
pub struct ByteReader {
    /// The whole stream.
    pub data: Vec<u8>,
    /// Index of the next unread byte.
    pub pos: usize,
    /// CRC-8 register over the bytes consumed since the last reset.
    pub crc8: u8,
    /// CRC-16 register over the bytes consumed since the last reset.
    pub crc16: u16,
}

impl ByteReader {
    /// The reader's cursor stays inside the stream and the stream inside
    /// the supported size.
    pub open spec fn wf(self) -> bool {
        self.pos <= self.data@.len() && self.data@.len() <= MAX_STREAM_LEN
    }

    /// Bytes not yet consumed.
    pub open spec fn remaining(self) -> int {
        self.data@.len() - self.pos
    }

    /// Wraps a stream; refuses one larger than [`MAX_STREAM_LEN`].
    pub fn new(data: Vec<u8>) -> (r: Result<ByteReader, Error>)
        ensures
            data@.len() <= MAX_STREAM_LEN ==> {
                &&& r matches Ok(b)
                &&& b.data@ == data@
                &&& b.pos == 0
                &&& b.crc8 == 0
                &&& b.crc16 == 0
                &&& b.wf()
            },
            data@.len() > MAX_STREAM_LEN ==> (r matches Err(e) && e.is_unsupported()),
    {
        if data.len() > MAX_STREAM_LEN {
            return unsupported_error("stream larger than the supported size");
        }
        Ok(ByteReader { data, pos: 0, crc8: 0, crc16: 0 })
    }

    /// A byte of the stream, read without consuming anything.
    pub fn byte_at(&self, i: usize) -> (r: u8)
        requires
            i < self.data@.len(),
        ensures
            r == self.data@[i as int],
    {
        self.data[i]
    }

    /// Clears both CRC registers.
    pub fn reset_crc(&mut self)
        ensures
            final(self).data@ == old(self).data@,
            final(self).pos == old(self).pos,
            final(self).crc8 == 0,
            final(self).crc16 == 0,
    {
        self.crc8 = 0;
        self.crc16 = 0;
    }

    /// Consumes one byte and feeds it to both CRC registers.
    pub fn read_u8(&mut self) -> (r: Result<u8, Error>)
        requires
            old(self).wf(),
        ensures
            final(self).wf(),
            final(self).data@ == old(self).data@,
            old(self).pos <= final(self).pos,
            old(self).remaining() >= 1 ==> {
                &&& r == Result::<u8, Error>::Ok(old(self).data@[old(self).pos as int])
                &&& final(self).pos == old(self).pos + 1
                &&& final(self).crc8 == crc8_step(
                    old(self).crc8,
                    old(self).data@[old(self).pos as int],
                )
                &&& final(self).crc16 == crc16_step(
                    old(self).crc16,
                    old(self).data@[old(self).pos as int],
                )
            },
            old(self).remaining() < 1 ==> r == Result::<u8, Error>::Err(
                Error::IoError(END_OF_STREAM),
            ) && *final(self) == *old(self),
    {
        if self.pos < self.data.len() {
            let b = self.data[self.pos];
            self.pos = self.pos + 1;
            self.crc8 = crc8_update(self.crc8, b);
            self.crc16 = crc16_update(self.crc16, b);
            Ok(b)
        } else {
            io_error(END_OF_STREAM)
        }
    }

    /// Consumes two bytes as a big-endian 16-bit value.
    pub fn read_be_u16(&mut self) -> (r: Result<u16, Error>)
        requires
            old(self).wf(),
        ensures
            final(self).wf(),
            final(self).data@ == old(self).data@,
            old(self).pos <= final(self).pos,
            old(self).remaining() >= 2 ==> {
                &&& r == Result::<u16, Error>::Ok(
                    spec_be16(
                        old(self).data@[old(self).pos as int],
                        old(self).data@[old(self).pos + 1],
                    ),
                )
                &&& final(self).pos == old(self).pos + 2
                &&& final(self).crc8 == crc8_step(
                    crc8_step(old(self).crc8, old(self).data@[old(self).pos as int]),
                    old(self).data@[old(self).pos + 1],
                )
                &&& final(self).crc16 == crc16_step(
                    crc16_step(old(self).crc16, old(self).data@[old(self).pos as int]),
                    old(self).data@[old(self).pos + 1],
                )
            },
            old(self).remaining() < 2 ==> (r matches Err(e) && e.is_io()) && old(self).pos
                <= final(self).pos <= old(self).pos + 1 && crc16_carried(*old(self), *final(self))
                && crc8_carried(*old(self), *final(self)),
    {
        let ghost s0 = *self;
        let b0 = match self.read_u8() {
            Ok(b) => b,
            Err(e) => {
                proof {
                    lemma_crc_carried_refl(s0, *self);
                }
                return Err(e);
            },
        };
        let ghost s1 = *self;
        let b1 = match self.read_u8() {
            Ok(b) => b,
            Err(e) => {
                proof {
                    lemma_crc_carried_step(s0, s1);
                    lemma_crc_carried_refl(s1, *self);
                    lemma_crc16_carried_trans(s0, s1, *self);
                    lemma_crc8_carried_trans(s0, s1, *self);
                }
                return Err(e);
            },
        };
        Ok((b0 as u16) * 0x100 + b1 as u16)
    }

    /// Consumes two bytes as a little-endian 16-bit value.
    pub fn read_le_u16(&mut self) -> (r: Result<u16, Error>)
        requires
            old(self).wf(),
        ensures
            final(self).wf(),
            final(self).data@ == old(self).data@,
            old(self).pos <= final(self).pos,
            old(self).remaining() >= 2 ==> {
                &&& r == Result::<u16, Error>::Ok(
                    spec_le16(
                        old(self).data@[old(self).pos as int],
                        old(self).data@[old(self).pos + 1],
                    ),
                )
                &&& final(self).pos == old(self).pos + 2
            },
            old(self).remaining() < 2 ==> (r matches Err(e) && e.is_io()),
    {
        let b0 = self.read_u8()?;
        let b1 = self.read_u8()?;
        Ok(b0 as u16 + (b1 as u16) * 0x100)
    }

    /// Consumes three bytes as a little-endian 24-bit value.
    pub fn read_le_u24(&mut self) -> (r: Result<u32, Error>)
        requires
            old(self).wf(),
        ensures
            final(self).wf(),
            final(self).data@ == old(self).data@,
            old(self).pos <= final(self).pos,
            old(self).remaining() >= 3 ==> {
                &&& r == Result::<u32, Error>::Ok(
                    spec_le24(
                        old(self).data@[old(self).pos as int],
                        old(self).data@[old(self).pos + 1],
                        old(self).data@[old(self).pos + 2],
                    ),
                )
                &&& final(self).pos == old(self).pos + 3
            },
            old(self).remaining() < 3 ==> (r matches Err(e) && e.is_io()),
    {
        let b0 = self.read_u8()?;
        let b1 = self.read_u8()?;
        let b2 = self.read_u8()?;
        Ok(b0 as u32 + (b1 as u32) * 0x100 + (b2 as u32) * 0x1_0000)
    }

    /// Consumes three bytes as a big-endian 24-bit value.
    pub fn read_be_u24(&mut self) -> (r: Result<u32, Error>)
        requires
            old(self).wf(),
        ensures
            final(self).wf(),
            final(self).data@ == old(self).data@,
            old(self).pos <= final(self).pos,
            old(self).remaining() >= 3 ==> {
                &&& r == Result::<u32, Error>::Ok(
                    spec_be24(
                        old(self).data@[old(self).pos as int],
                        old(self).data@[old(self).pos + 1],
                        old(self).data@[old(self).pos + 2],
                    ),
                )
                &&& final(self).pos == old(self).pos + 3
            },
            old(self).remaining() < 3 ==> (r matches Err(e) && e.is_io()),
    {
        let b0 = self.read_u8()?;
        let b1 = self.read_u8()?;
        let b2 = self.read_u8()?;
        Ok(b2 as u32 + (b1 as u32) * 0x100 + (b0 as u32) * 0x1_0000)
    }

    /// Consumes four bytes as a little-endian 32-bit value.
    pub fn read_le_u32(&mut self) -> (r: Result<u32, Error>)
        requires
            old(self).wf(),
        ensures
            final(self).wf(),
            final(self).data@ == old(self).data@,
            old(self).pos <= final(self).pos,
            old(self).remaining() >= 4 ==> {
                &&& r == Result::<u32, Error>::Ok(
                    spec_le32(
                        old(self).data@[old(self).pos as int],
                        old(self).data@[old(self).pos + 1],
                        old(self).data@[old(self).pos + 2],
                        old(self).data@[old(self).pos + 3],
                    ),
                )
                &&& final(self).pos == old(self).pos + 4
            },
            old(self).remaining() < 4 ==> (r matches Err(e) && e.is_io()),
    {
        let b0 = self.read_u8()?;
        let b1 = self.read_u8()?;
        let b2 = self.read_u8()?;
        let b3 = self.read_u8()?;
        Ok(b0 as u32 + (b1 as u32) * 0x100 + (b2 as u32) * 0x1_0000 + (b3 as u32) * 0x100_0000)
    }

    /// Consumes four bytes as a big-endian 32-bit value.
    pub fn read_be_u32(&mut self) -> (r: Result<u32, Error>)
        requires
            old(self).wf(),
        ensures
            final(self).wf(),
            final(self).data@ == old(self).data@,
            old(self).pos <= final(self).pos,
            old(self).remaining() >= 4 ==> {
                &&& r == Result::<u32, Error>::Ok(
                    spec_be32(
                        old(self).data@[old(self).pos as int],
                        old(self).data@[old(self).pos + 1],
                        old(self).data@[old(self).pos + 2],
                        old(self).data@[old(self).pos + 3],
                    ),
                )
                &&& final(self).pos == old(self).pos + 4
            },
            old(self).remaining() < 4 ==> (r matches Err(e) && e.is_io()),
    {
        let b0 = self.read_u8()?;
        let b1 = self.read_u8()?;
        let b2 = self.read_u8()?;
        let b3 = self.read_u8()?;
        Ok(b3 as u32 + (b2 as u32) * 0x100 + (b1 as u32) * 0x1_0000 + (b0 as u32) * 0x100_0000)
    }

    /// Consumes eight bytes as a little-endian 64-bit value.
    pub fn read_le_u64(&mut self) -> (r: Result<u64, Error>)
        requires
            old(self).wf(),
        ensures
            final(self).wf(),
            final(self).data@ == old(self).data@,
            old(self).pos <= final(self).pos,
            old(self).remaining() >= 8 ==> {
                &&& r matches Ok(v)
                &&& v == spec_le32(
                    old(self).data@[old(self).pos as int],
                    old(self).data@[old(self).pos + 1],
                    old(self).data@[old(self).pos + 2],
                    old(self).data@[old(self).pos + 3],
                ) + spec_le32(
                    old(self).data@[old(self).pos + 4],
                    old(self).data@[old(self).pos + 5],
                    old(self).data@[old(self).pos + 6],
                    old(self).data@[old(self).pos + 7],
                ) * 0x1_0000_0000
                &&& final(self).pos == old(self).pos + 8
            },
            old(self).remaining() < 8 ==> (r matches Err(e) && e.is_io()),
    {
        let lo = self.read_le_u32()?;
        let hi = self.read_le_u32()?;
        Ok(lo as u64 + (hi as u64) * 0x1_0000_0000)
    }

    /// Consumes one byte as a signed 8-bit value.
    pub fn read_i8(&mut self) -> (r: Result<i8, Error>)
        requires
            old(self).wf(),
        ensures
            final(self).wf(),
            final(self).data@ == old(self).data@,
            old(self).pos <= final(self).pos,
            old(self).remaining() >= 1 ==> r == Result::<i8, Error>::Ok(
                spec_i8(old(self).data@[old(self).pos as int]) as i8,
            ) && final(self).pos == old(self).pos + 1,
            old(self).remaining() < 1 ==> (r matches Err(e) && e.is_io()),
    {
        let b = self.read_u8()?;
        if b >= 0x80 {
            Ok((-((0x100 - b as i32) as i64)) as i8)
        } else {
            Ok(b as i8)
        }
    }

    /// Consumes two bytes as a little-endian signed 16-bit value.
    pub fn read_le_i16(&mut self) -> (r: Result<i16, Error>)
        requires
            old(self).wf(),
        ensures
            final(self).wf(),
            final(self).data@ == old(self).data@,
            old(self).pos <= final(self).pos,
            old(self).remaining() >= 2 ==> {
                &&& r == Result::<i16, Error>::Ok(
                    spec_i16(
                        spec_le16(
                            old(self).data@[old(self).pos as int],
                            old(self).data@[old(self).pos + 1],
                        ),
                    ) as i16,
                )
                &&& final(self).pos == old(self).pos + 2
            },
            old(self).remaining() < 2 ==> (r matches Err(e) && e.is_io()),
    {
        let v = self.read_le_u16()?;
        if v >= 0x8000 {
            Ok((-((0x1_0000 - v as i32) as i64)) as i16)
        } else {
            Ok(v as i16)
        }
    }

    /// Consumes three bytes as a little-endian signed 24-bit value,
    /// sign-extended to 32 bits.
    pub fn read_le_i24(&mut self) -> (r: Result<i32, Error>)
        requires
            old(self).wf(),
        ensures
            final(self).wf(),
            final(self).data@ == old(self).data@,
            old(self).pos <= final(self).pos,
            old(self).remaining() >= 3 ==> {
                &&& r == Result::<i32, Error>::Ok(
                    spec_i24(
                        spec_le24(
                            old(self).data@[old(self).pos as int],
                            old(self).data@[old(self).pos + 1],
                            old(self).data@[old(self).pos + 2],
                        ),
                    ),
                )
                &&& final(self).pos == old(self).pos + 3
            },
            old(self).remaining() < 3 ==> (r matches Err(e) && e.is_io()),
    {
        let v = self.read_le_u24()?;
        if v >= 0x80_0000 {
            Ok(-((0x100_0000 - v) as i32))
        } else {
            Ok(v as i32)
        }
    }

    /// Consumes four bytes as a little-endian signed 32-bit value.
    pub fn read_le_i32(&mut self) -> (r: Result<i32, Error>)
        requires
            old(self).wf(),
        ensures
            final(self).wf(),
            final(self).data@ == old(self).data@,
            old(self).pos <= final(self).pos,
            old(self).remaining() >= 4 ==> {
                &&& r == Result::<i32, Error>::Ok(
                    spec_i32(
                        spec_le32(
                            old(self).data@[old(self).pos as int],
                            old(self).data@[old(self).pos + 1],
                            old(self).data@[old(self).pos + 2],
                            old(self).data@[old(self).pos + 3],
                        ),
                    ) as i32,
                )
                &&& final(self).pos == old(self).pos + 4
            },
            old(self).remaining() < 4 ==> (r matches Err(e) && e.is_io()),
    {
        let v = self.read_le_u32()?;
        if v >= 0x8000_0000 {
            Ok((-((0x1_0000_0000i64 - v as i64))) as i32)
        } else {
            Ok(v as i32)
        }
    }

    /// Consumes `n` bytes and returns them; the CRC registers are left
    /// untouched.
    pub fn read_bytes(&mut self, n: usize) -> (r: Result<Vec<u8>, Error>)
        requires
            old(self).wf(),
        ensures
            final(self).wf(),
            final(self).data@ == old(self).data@,
            final(self).crc8 == old(self).crc8,
            final(self).crc16 == old(self).crc16,
            old(self).remaining() >= n ==> {
                &&& r matches Ok(v)
                &&& v@ == old(self).data@.subrange(old(self).pos as int, old(self).pos + n)
                &&& final(self).pos == old(self).pos + n
            },
            old(self).remaining() < n ==> r == Result::<Vec<u8>, Error>::Err(
                Error::IoError(END_OF_STREAM),
            ) && *final(self) == *old(self),
    {
        if self.data.len() - self.pos < n {
            return io_error(END_OF_STREAM);
        }
        let mut v: Vec<u8> = Vec::new();
        let mut i: usize = 0;
        while i < n
            invariant
                i <= n,
                self.pos + n <= self.data@.len(),
                self.data@.len() <= MAX_STREAM_LEN,
                v@ == self.data@.subrange(self.pos as int, self.pos + i),
            decreases n - i,
        {
            v.push(self.data[self.pos + i]);
            assert(v@ =~= self.data@.subrange(self.pos as int, self.pos + i + 1));
            i = i + 1;
        }
        self.pos = self.pos + n;
        Ok(v)
    }

    /// Skips over `n` bytes; the CRC registers are left untouched.
    pub fn skip_bytes(&mut self, n: usize) -> (r: Result<(), Error>)
        requires
            old(self).wf(),
        ensures
            final(self).wf(),
            final(self).data@ == old(self).data@,
            final(self).crc8 == old(self).crc8,
            final(self).crc16 == old(self).crc16,
            old(self).remaining() >= n ==> r == Result::<(), Error>::Ok(()) && final(self).pos
                == old(self).pos + n,
            old(self).remaining() < n ==> r == Result::<(), Error>::Err(
                Error::IoError(END_OF_STREAM),
            ) && *final(self) == *old(self),
    {
        if self.data.len() - self.pos < n {
            return io_error(END_OF_STREAM);
        }
        self.pos = self.pos + n;
        Ok(())
    }
}

} // verus!
