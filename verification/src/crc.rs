//! CRC-16 of the motor bus: generator polynomial 0x8005, zero initial value,
//! most significant bit first, no final inversion.

use vstd::prelude::*;

verus! {

/// One step of the polynomial division: shift the register left by one bit
/// and subtract the generator when a bit falls out.
pub open spec fn crc_shift(c: u16) -> u16 {
    if c & 0x8000u16 == 0x8000u16 {
        (c << 1u16) ^ 0x8005u16
    } else {
        c << 1u16
    }
}

/// The register after one more message byte.
pub open spec fn crc_step(c: u16, b: u8) -> u16 {
    crc_shift(
        crc_shift(
            crc_shift(
                crc_shift(
                    crc_shift(crc_shift(crc_shift(crc_shift(c ^ ((b as u16) << 8u16))))),
                ),
            ),
        ),
    )
}

/// The checksum of a byte sequence.
pub open spec fn crc_of(data: Seq<u8>) -> u16
    decreases data.len(),
{
    if data.len() == 0 {
        0u16
    } else {
        crc_step(crc_of(data.drop_last()), data.last())
    }
}

/// For a fixed byte, distinct registers stay distinct.
pub proof fn lemma_step_keeps_registers_apart(c1: u16, c2: u16, b: u8)
    by (bit_vector)
    requires
        c1 != c2,
    ensures
        crc_step(c1, b) != crc_step(c2, b),
{
}

/// From one register, distinct bytes lead to distinct registers.
pub proof fn lemma_step_tells_bytes_apart(c: u16, b1: u8, b2: u8)
    by (bit_vector)
    requires
        b1 != b2,
    ensures
        crc_step(c, b1) != crc_step(c, b2),
{
}

/// Two messages of one length that differ in exactly one byte have
/// different checksums.
pub proof fn lemma_crc_detects_one_byte(a: Seq<u8>, b: Seq<u8>, i: int)
    requires
        a.len() == b.len(),
        0 <= i < a.len(),
        a[i] != b[i],
        forall|j: int| 0 <= j < a.len() && j != i ==> a[j] == b[j],
    ensures
        crc_of(a) != crc_of(b),
    decreases a.len(),
{
    if i == a.len() - 1 {
        assert(a.drop_last() =~= b.drop_last());
        lemma_step_tells_bytes_apart(crc_of(a.drop_last()), a.last(), b.last());
    } else {
        lemma_crc_detects_one_byte(a.drop_last(), b.drop_last(), i);
        lemma_step_keeps_registers_apart(crc_of(a.drop_last()), crc_of(b.drop_last()), a.last());
    }
}

fn shift(c: u16) -> (r: u16)
    ensures
        r == crc_shift(c),
{
    if c & 0x8000u16 == 0x8000u16 {
        (c << 1u16) ^ 0x8005u16
    } else {
        c << 1u16
    }
}

/// Feeds one byte to the register.
pub fn crc_update(c: u16, b: u8) -> (r: u16)
    ensures
        r == crc_step(c, b),
{
    let wide: u16 = b as u16;
    let s0: u16 = c ^ (wide << 8u16);
    let s1: u16 = shift(s0);
    let s2: u16 = shift(s1);
    let s3: u16 = shift(s2);
    let s4: u16 = shift(s3);
    let s5: u16 = shift(s4);
    let s6: u16 = shift(s5);
    let s7: u16 = shift(s6);
    shift(s7)
}

/// The checksum of `data[start..end]`.
pub fn crc16_range(data: &[u8], start: usize, end: usize) -> (r: u16)
    requires
        start <= end <= data@.len(),
    ensures
        r == crc_of(data@.subrange(start as int, end as int)),
{
    let mut acc: u16 = 0;
    let mut k: usize = start;
    while k < end
        invariant
            start <= k <= end <= data@.len(),
            acc == crc_of(data@.subrange(start as int, k as int)),
        decreases end - k,
    {
        proof {
            let next = data@.subrange(start as int, k + 1);
            assert(next.drop_last() =~= data@.subrange(start as int, k as int));
        }
        acc = crc_update(acc, data[k]);
        k = k + 1;
    }
    acc
}

/// The checksum of all of `data`.
pub fn crc16(data: &[u8]) -> (r: u16)
    ensures
        r == crc_of(data@),
{
    assert(data@.subrange(0, data@.len() as int) =~= data@);
    crc16_range(data, 0, data.len())
}

} // verus!
