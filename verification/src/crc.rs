//! CRC-8 and CRC-16 accumulators used by the FLAC frame framing.
//!
//! CRC-8: polynomial 0x07, initial value 0, no reflection, no final xor.
//! CRC-16: polynomial 0x8005, initial value 0, no reflection, no final xor.

use vstd::prelude::*;

verus! {

/// One shift round of the CRC-8 register.
pub open spec fn crc8_round(c: u8) -> u8 {
    if c & 0x80 != 0 {
        (c << 1) ^ 0x07
    } else {
        c << 1
    }
}

/// `n` shift rounds of the CRC-8 register.
pub open spec fn crc8_rounds(c: u8, n: nat) -> u8
    decreases n,
{
    if n == 0 {
        c
    } else {
        crc8_round(crc8_rounds(c, (n - 1) as nat))
    }
}

/// The CRC-8 register after absorbing one byte.
pub open spec fn crc8_step(c: u8, b: u8) -> u8 {
    crc8_rounds(c ^ b, 8)
}

/// The CRC-8 register after absorbing a byte sequence, starting from `c`.
pub open spec fn crc8_fold(c: u8, s: Seq<u8>) -> u8
    decreases s.len(),
{
    if s.len() == 0 {
        c
    } else {
        crc8_fold(crc8_step(c, s[0]), s.drop_first())
    }
}

/// The CRC-8 of a byte sequence from the initial register value.
pub open spec fn crc8_seq(s: Seq<u8>) -> u8 {
    crc8_fold(0, s)
}

/// One shift round of the CRC-16 register.
pub open spec fn crc16_round(c: u16) -> u16 {
    if c & 0x8000 != 0 {
        (c << 1) ^ 0x8005
    } else {
        c << 1
    }
}

/// `n` shift rounds of the CRC-16 register.
pub open spec fn crc16_rounds(c: u16, n: nat) -> u16
    decreases n,
{
    if n == 0 {
        c
    } else {
        crc16_round(crc16_rounds(c, (n - 1) as nat))
    }
}

/// The CRC-16 register after absorbing one byte.
pub open spec fn crc16_step(c: u16, b: u8) -> u16 {
    crc16_rounds(c ^ ((b as u16) << 8), 8)
}

/// The CRC-16 register after absorbing a byte sequence, starting from `c`.
pub open spec fn crc16_fold(c: u16, s: Seq<u8>) -> u16
    decreases s.len(),
{
    if s.len() == 0 {
        c
    } else {
        crc16_fold(crc16_step(c, s[0]), s.drop_first())
    }
}

/// The CRC-16 of a byte sequence from the initial register value.
pub open spec fn crc16_seq(s: Seq<u8>) -> u16 {
    crc16_fold(0, s)
}

/// Absorbing one more byte extends a CRC-8 fold on the right.
pub proof fn lemma_crc8_fold_push(c: u8, s: Seq<u8>, b: u8)
    ensures
        crc8_fold(c, s.push(b)) == crc8_step(crc8_fold(c, s), b),
    decreases s.len(),
{
    let t = s.push(b);
    if s.len() == 0 {
        assert(t[0] == b);
        assert(t.drop_first() =~= Seq::<u8>::empty());
        assert(crc8_fold(c, t) == crc8_fold(crc8_step(c, b), t.drop_first()));
        assert(crc8_fold(crc8_step(c, b), t.drop_first()) == crc8_step(c, b));
        assert(crc8_fold(c, s) == c);
    } else {
        assert(t[0] == s[0]);
        assert(t.drop_first() =~= s.drop_first().push(b));
        assert(crc8_fold(c, t) == crc8_fold(crc8_step(c, s[0]), s.drop_first().push(b)));
        lemma_crc8_fold_push(crc8_step(c, s[0]), s.drop_first(), b);
        assert(crc8_fold(c, s) == crc8_fold(crc8_step(c, s[0]), s.drop_first()));
    }
}

/// Absorbing one more byte extends a CRC-16 fold on the right.
pub proof fn lemma_crc16_fold_push(c: u16, s: Seq<u8>, b: u8)
    ensures
        crc16_fold(c, s.push(b)) == crc16_step(crc16_fold(c, s), b),
    decreases s.len(),
{
    let t = s.push(b);
    if s.len() == 0 {
        assert(t[0] == b);
        assert(t.drop_first() =~= Seq::<u8>::empty());
        assert(crc16_fold(c, t) == crc16_fold(crc16_step(c, b), t.drop_first()));
        assert(crc16_fold(crc16_step(c, b), t.drop_first()) == crc16_step(c, b));
        assert(crc16_fold(c, s) == c);
    } else {
        assert(t[0] == s[0]);
        assert(t.drop_first() =~= s.drop_first().push(b));
        assert(crc16_fold(c, t) == crc16_fold(crc16_step(c, s[0]), s.drop_first().push(b)));
        lemma_crc16_fold_push(crc16_step(c, s[0]), s.drop_first(), b);
        assert(crc16_fold(c, s) == crc16_fold(crc16_step(c, s[0]), s.drop_first()));
    }
}

/// A CRC-8 fold over a concatenation folds the pieces in order.
pub proof fn lemma_crc8_fold_append(c: u8, s1: Seq<u8>, s2: Seq<u8>)
    ensures
        crc8_fold(c, s1 + s2) == crc8_fold(crc8_fold(c, s1), s2),
    decreases s1.len(),
{
    if s1.len() == 0 {
        assert(s1 + s2 =~= s2);
        assert(crc8_fold(c, s1) == c);
    } else {
        assert((s1 + s2)[0] == s1[0]);
        assert((s1 + s2).drop_first() =~= s1.drop_first() + s2);
        assert(crc8_fold(c, s1 + s2) == crc8_fold(crc8_step(c, s1[0]), s1.drop_first() + s2));
        lemma_crc8_fold_append(crc8_step(c, s1[0]), s1.drop_first(), s2);
        assert(crc8_fold(c, s1) == crc8_fold(crc8_step(c, s1[0]), s1.drop_first()));
    }
}

/// A CRC-16 fold over a concatenation folds the pieces in order.
pub proof fn lemma_crc16_fold_append(c: u16, s1: Seq<u8>, s2: Seq<u8>)
    ensures
        crc16_fold(c, s1 + s2) == crc16_fold(crc16_fold(c, s1), s2),
    decreases s1.len(),
{
    if s1.len() == 0 {
        assert(s1 + s2 =~= s2);
        assert(crc16_fold(c, s1) == c);
    } else {
        assert((s1 + s2)[0] == s1[0]);
        assert((s1 + s2).drop_first() =~= s1.drop_first() + s2);
        assert(crc16_fold(c, s1 + s2) == crc16_fold(crc16_step(c, s1[0]), s1.drop_first() + s2));
        lemma_crc16_fold_append(crc16_step(c, s1[0]), s1.drop_first(), s2);
        assert(crc16_fold(c, s1) == crc16_fold(crc16_step(c, s1[0]), s1.drop_first()));
    }
}

/// Computes the CRC-8 register after absorbing one byte.
pub fn crc8_update(crc: u8, byte: u8) -> (r: u8)
    ensures
        r == crc8_step(crc, byte),
{
    let mut c = crc ^ byte;
    let mut i: usize = 0;
    while i < 8
        invariant
            i <= 8,
            c == crc8_rounds((crc ^ byte), i as nat),
        decreases 8 - i,
    {
        c = if c & 0x80 != 0 {
            (c << 1u32) ^ 0x07
        } else {
            c << 1u32
        };
        i = i + 1;
    }
    c
}

/// Computes the CRC-16 register after absorbing one byte.
pub fn crc16_update(crc: u16, byte: u8) -> (r: u16)
    ensures
        r == crc16_step(crc, byte),
{
    let mut c = crc ^ ((byte as u16) << 8u32);
    let mut i: usize = 0;
    while i < 8
        invariant
            i <= 8,
            c == crc16_rounds((crc ^ ((byte as u16) << 8)), i as nat),
        decreases 8 - i,
    {
        c = if c & 0x8000 != 0 {
            (c << 1u32) ^ 0x8005
        } else {
            c << 1u32
        };
        i = i + 1;
    }
    c
}

} // verus!
