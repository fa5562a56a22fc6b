//! The CRC-32 checksum of a byte string (reflected polynomial `edb88320`).
use vstd::prelude::*;
use crate::text::{hex, hex_text};

verus! {

/// One bit of the division.
pub open spec fn crc_bit(c: u32) -> u32 {
    if c & 1 == 1 {
        (c >> 1) ^ 0xedb88320
    } else {
        c >> 1
    }
}

/// `n` bits of the division.
pub open spec fn crc_bits(c: u32, n: nat) -> u32
    decreases n,
{
    if n == 0 {
        c
    } else {
        crc_bit(crc_bits(c, (n - 1) as nat))
    }
}

/// The running value after `bytes`.
pub open spec fn crc_run(bytes: Seq<u8>) -> u32
    decreases bytes.len(),
{
    if bytes.len() == 0 {
        0xffffffff
    } else {
        crc_bits(crc_run(bytes.drop_last()) ^ (bytes.last() as u32), 8)
    }
}

/// The checksum of `bytes`.
pub open spec fn crc32(bytes: Seq<u8>) -> u32 {
    crc_run(bytes) ^ 0xffffffff
}

/// The four bytes of `v`, most significant first.
pub open spec fn big_endian(v: u32) -> Seq<u8> {
    seq![
        (v / 0x1000000) as u8,
        ((v / 0x10000) % 0x100) as u8,
        ((v / 0x100) % 0x100) as u8,
        (v % 0x100) as u8,
    ]
}

/// The checksum of `bytes`.
pub fn crc32_of(bytes: &[u8]) -> (r: u32)
    ensures
        r == crc32(bytes@),
{
    let mut c: u32 = 0xffffffff;
    let mut i: usize = 0;
    while i < bytes.len()
        invariant
            i <= bytes@.len(),
            c == crc_run(bytes@.take(i as int)),
        decreases bytes.len() - i,
    {
        let ghost start = c ^ (bytes@[i as int] as u32);
        c = c ^ (bytes[i] as u32);
        let mut n: u8 = 0;
        while n < 8
            invariant
                n <= 8,
                c == crc_bits(start, n as nat),
            decreases 8 - n,
        {
            c = if c & 1 == 1 {
                (c >> 1) ^ 0xedb88320
            } else {
                c >> 1
            };
            n = n + 1;
        }
        assert(bytes@.take(i + 1).drop_last() =~= bytes@.take(i as int));
        i = i + 1;
    }
    assert(bytes@.take(i as int) =~= bytes@);
    c ^ 0xffffffff
}

/// The checksum of `bytes` as eight lower-case hexadecimal digits.
pub fn crc32_hex(bytes: &[u8]) -> (r: String)
    ensures
        r@ == hex_text(big_endian(crc32(bytes@))),
{
    let v: u32 = crc32_of(bytes);
    let digits: Vec<u8> = vec![
        (v / 0x1000000) as u8,
        ((v / 0x10000) % 0x100) as u8,
        ((v / 0x100) % 0x100) as u8,
        (v % 0x100) as u8,
    ];
    assert(digits@ =~= big_endian(v));
    hex(digits.as_slice())
}

} // verus!
