//! Byte orders: what the bytes of an integer are, and the calls that produce
//! them.

use byteorder::{BigEndian, ByteOrder, LittleEndian};
use vstd::prelude::*;

verus! {

/// The two bytes of `n`, least significant first.
pub open spec fn le16(n: u16) -> Seq<u8> {
    seq![(n % 256) as u8, (n / 256) as u8]
}

/// The four bytes of `n`, least significant first.
pub open spec fn le32(n: u32) -> Seq<u8> {
    seq![
        (n % 256) as u8,
        (n / 0x100 % 256) as u8,
        (n / 0x1_0000 % 256) as u8,
        (n / 0x100_0000) as u8,
    ]
}

/// The eight bytes of `n`, least significant first.
pub open spec fn le64(n: u64) -> Seq<u8> {
    seq![
        (n % 256) as u8,
        (n / 0x100 % 256) as u8,
        (n / 0x1_0000 % 256) as u8,
        (n / 0x100_0000 % 256) as u8,
        (n / 0x1_0000_0000 % 256) as u8,
        (n / 0x100_0000_0000 % 256) as u8,
        (n / 0x1_0000_0000_0000 % 256) as u8,
        (n / 0x100_0000_0000_0000) as u8,
    ]
}

/// `byteorder::LittleEndian::write_u16` on a buffer of two bytes: the buffer
/// then holds the two bytes of `n`, least significant first.
#[verifier::external_body]
pub(crate) fn le_bytes_u16(n: u16) -> (b: [u8; 2])
    ensures
        b@ == le16(n),
{
    let mut b = [0u8; 2];
    LittleEndian::write_u16(&mut b, n);
    b
}

/// `byteorder::LittleEndian::write_u32` on a buffer of four bytes: the buffer
/// then holds the four bytes of `n`, least significant first.
#[verifier::external_body]
pub(crate) fn le_bytes_u32(n: u32) -> (b: [u8; 4])
    ensures
        b@ == le32(n),
{
    let mut b = [0u8; 4];
    LittleEndian::write_u32(&mut b, n);
    b
}

/// `byteorder::LittleEndian::write_u64` on a buffer of eight bytes: the buffer
/// then holds the eight bytes of `n`, least significant first.
#[verifier::external_body]
pub(crate) fn le_bytes_u64(n: u64) -> (b: [u8; 8])
    ensures
        b@ == le64(n),
{
    let mut b = [0u8; 8];
    LittleEndian::write_u64(&mut b, n);
    b
}

/// The four bytes of `n`, most significant first.
pub open spec fn be32(n: u32) -> Seq<u8> {
    seq![
        (n / 0x100_0000) as u8,
        (n / 0x1_0000 % 256) as u8,
        (n / 0x100 % 256) as u8,
        (n % 256) as u8,
    ]
}

/// The number whose bytes, most significant first, are the first two of
/// `b`.
pub open spec fn be16_value(b: Seq<u8>) -> u16 {
    (b[0] * 256 + b[1]) as u16
}

/// The number whose bytes, most significant first, are the first four of
/// `b`.
pub open spec fn be32_value(b: Seq<u8>) -> u32 {
    (b[0] * 0x100_0000 + b[1] * 0x1_0000 + b[2] * 0x100 + b[3]) as u32
}

/// `byteorder::BigEndian::read_u16`: the number whose bytes, most
/// significant first, are the first two of `buf`.
#[verifier::external_body]
pub(crate) fn be_read_u16(buf: &[u8]) -> (n: u16)
    requires
        buf@.len() >= 2,
    ensures
        n == be16_value(buf@),
{
    BigEndian::read_u16(buf)
}

/// `byteorder::BigEndian::read_u32`: the number whose bytes, most
/// significant first, are the first four of `buf`.
#[verifier::external_body]
pub(crate) fn be_read_u32(buf: &[u8]) -> (n: u32)
    requires
        buf@.len() >= 4,
    ensures
        n == be32_value(buf@),
{
    BigEndian::read_u32(buf)
}

/// `byteorder::BigEndian::write_u32` on a buffer of four bytes: the buffer
/// then holds the four bytes of `n`, most significant first.
#[verifier::external_body]
pub(crate) fn be_bytes_u32(n: u32) -> (b: [u8; 4])
    ensures
        b@ == be32(n),
{
    let mut b = [0u8; 4];
    BigEndian::write_u32(&mut b, n);
    b
}

} // verus!
