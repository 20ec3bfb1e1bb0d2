//! CRC-16/MODBUS: polynomial 0xA001 (reflected), initial value 0xFFFF.
//!
//! The checksum is defined here as a fold over the message bytes, one
//! shift-and-conditional-xor round per bit.  The module also proves the
//! error-detection fact the frame codec relies on: two equal-length
//! messages that differ in exactly one byte never share a checksum.

use vstd::prelude::*;

verus! {

/// The reflected CRC-16/MODBUS generator polynomial.
pub const CRC_POLYNOMIAL: u16 = 0xA001;

/// The initial shift-register value.
pub const CRC_INITIAL: u16 = 0xFFFF;

/// One bit round: shift right, xor with the polynomial if a one bit
/// fell out.
pub open spec fn crc_round(c: u16) -> u16 {
    if c & 1 == 1 {
        (c >> 1) ^ CRC_POLYNOMIAL
    } else {
        c >> 1
    }
}

/// `n` bit rounds applied to `c`.
pub open spec fn crc_rounds(c: u16, n: nat) -> u16
    decreases n,
{
    if n == 0 {
        c
    } else {
        crc_round(crc_rounds(c, (n - 1) as nat))
    }
}

/// Absorb one message byte into the shift register: xor it in, then
/// run eight bit rounds.
pub open spec fn crc_update(c: u16, b: u8) -> u16 {
    crc_rounds(c ^ (b as u16), 8)
}

/// Absorb a whole message, front to back.
pub open spec fn crc_fold(c: u16, s: Seq<u8>) -> u16
    decreases s.len(),
{
    if s.len() == 0 {
        c
    } else {
        crc_fold(crc_update(c, s[0]), s.subrange(1, s.len() as int))
    }
}

/// The CRC-16/MODBUS checksum of a message.
pub open spec fn spec_crc16(s: Seq<u8>) -> u16 {
    crc_fold(CRC_INITIAL, s)
}

/// Folding a concatenation is folding the parts in order.
pub proof fn lemma_crc_fold_append(c: u16, a: Seq<u8>, b: Seq<u8>)
    ensures
        crc_fold(c, a + b) == crc_fold(crc_fold(c, a), b),
    decreases a.len(),
{
    if a.len() == 0 {
        assert(a + b =~= b);
    } else {
        assert((a + b).subrange(1, (a + b).len() as int) =~= a.subrange(1, a.len() as int) + b);
        lemma_crc_fold_append(crc_update(c, a[0]), a.subrange(1, a.len() as int), b);
    }
}

/// One bit round never maps two registers to the same value.
proof fn lemma_round_injective(c1: u16, c2: u16)
    requires
        c1 != c2,
    ensures
        crc_round(c1) != crc_round(c2),
{
    assert((if c1 & 1 == 1 {
        (c1 >> 1) ^ 0xA001u16
    } else {
        c1 >> 1
    }) != (if c2 & 1 == 1 {
        (c2 >> 1) ^ 0xA001u16
    } else {
        c2 >> 1
    })) by (bit_vector)
        requires
            c1 != c2,
    ;
}

/// Bit rounds keep distinct registers distinct.
proof fn lemma_rounds_injective(c1: u16, c2: u16, n: nat)
    requires
        c1 != c2,
    ensures
        crc_rounds(c1, n) != crc_rounds(c2, n),
    decreases n,
{
    if n > 0 {
        lemma_rounds_injective(c1, c2, (n - 1) as nat);
        lemma_round_injective(crc_rounds(c1, (n - 1) as nat), crc_rounds(c2, (n - 1) as nat));
    }
}

/// Absorbing different bytes from the same register state gives
/// different states.
proof fn lemma_update_injective_byte(c: u16, b1: u8, b2: u8)
    requires
        b1 != b2,
    ensures
        crc_update(c, b1) != crc_update(c, b2),
{
    assert(c ^ (b1 as u16) != c ^ (b2 as u16)) by (bit_vector)
        requires
            b1 != b2,
    ;
    lemma_rounds_injective(c ^ (b1 as u16), c ^ (b2 as u16), 8);
}

/// Absorbing the same byte from different register states keeps them
/// different.
proof fn lemma_update_injective_state(c1: u16, c2: u16, b: u8)
    requires
        c1 != c2,
    ensures
        crc_update(c1, b) != crc_update(c2, b),
{
    assert(c1 ^ (b as u16) != c2 ^ (b as u16)) by (bit_vector)
        requires
            c1 != c2,
    ;
    lemma_rounds_injective(c1 ^ (b as u16), c2 ^ (b as u16), 8);
}

/// Folding the same message from different states keeps them
/// different.
proof fn lemma_fold_injective(c1: u16, c2: u16, s: Seq<u8>)
    requires
        c1 != c2,
    ensures
        crc_fold(c1, s) != crc_fold(c2, s),
    decreases s.len(),
{
    if s.len() > 0 {
        lemma_update_injective_state(c1, c2, s[0]);
        lemma_fold_injective(
            crc_update(c1, s[0]),
            crc_update(c2, s[0]),
            s.subrange(1, s.len() as int),
        );
    }
}

/// Two equal-length messages that differ in exactly one byte never
/// share a CRC-16/MODBUS checksum: the codec's ground for rejecting
/// single-bit corruption.
pub proof fn lemma_crc_single_byte_difference(m1: Seq<u8>, m2: Seq<u8>, i: int)
    requires
        m1.len() == m2.len(),
        0 <= i < m1.len(),
        m1[i] != m2[i],
        forall|j: int| 0 <= j < m1.len() && j != i ==> m1[j] == m2[j],
    ensures
        spec_crc16(m1) != spec_crc16(m2),
{
    let prefix = m1.subrange(0, i);
    let tail1 = m1.subrange(i, m1.len() as int);
    let tail2 = m2.subrange(i, m2.len() as int);
    assert(m2.subrange(0, i) =~= prefix);
    assert(m1 =~= prefix + tail1);
    assert(m2 =~= prefix + tail2);
    lemma_crc_fold_append(CRC_INITIAL, prefix, tail1);
    lemma_crc_fold_append(CRC_INITIAL, prefix, tail2);
    let s = crc_fold(CRC_INITIAL, prefix);
    let rest1 = tail1.subrange(1, tail1.len() as int);
    let rest2 = tail2.subrange(1, tail2.len() as int);
    assert(rest1 =~= rest2);
    assert(crc_fold(s, tail1) == crc_fold(crc_update(s, m1[i]), rest1));
    assert(crc_fold(s, tail2) == crc_fold(crc_update(s, m2[i]), rest2));
    lemma_update_injective_byte(s, m1[i], m2[i]);
    lemma_fold_injective(crc_update(s, m1[i]), crc_update(s, m2[i]), rest1);
}

/// Computes the CRC-16/MODBUS checksum of `bytes`.
pub fn crc16(bytes: &[u8]) -> (r: u16)
    ensures
        r == spec_crc16(bytes@),
{
    let mut c: u16 = CRC_INITIAL;
    let mut i: usize = 0;
    while i < bytes.len()
        invariant
            i <= bytes@.len(),
            c == crc_fold(CRC_INITIAL, bytes@.take(i as int)),
        decreases bytes@.len() - i,
    {
        let b = bytes[i];
        let mut d: u16 = c ^ (b as u16);
        let mut round: usize = 0;
        while round < 8
            invariant
                round <= 8,
                d == crc_rounds(c ^ (b as u16), round as nat),
            decreases 8 - round,
        {
            if d & 1 == 1 {
                d = (d >> 1) ^ CRC_POLYNOMIAL;
            } else {
                d = d >> 1;
            }
            round = round + 1;
        }
        proof {
            assert(bytes@.take(i + 1) =~= bytes@.take(i as int) + seq![bytes@[i as int]]);
            lemma_crc_fold_append(CRC_INITIAL, bytes@.take(i as int), seq![bytes@[i as int]]);
            assert(crc_fold(c, seq![bytes@[i as int]]) == crc_update(c, b)) by {
                reveal_with_fuel(crc_fold, 2);
                assert(seq![bytes@[i as int]].subrange(1, 1) =~= Seq::<u8>::empty());
            }
        }
        c = d;
        i = i + 1;
    }
    proof {
        assert(bytes@.take(bytes@.len() as int) =~= bytes@);
    }
    c
}

} // verus!
