//! Single bits and bit fields of a register, read and written through
//! `bitvec` views.

use bitvec::field::BitField;
use bitvec::order::{Lsb0, Msb0};
use bitvec::view::BitView;
use vstd::prelude::*;

verus! {

/// The bits `first..=last` of `bits`, counted from the least significant,
/// as a number.
pub open spec fn field_lsb0(bits: u64, first: usize, last: usize) -> u64 {
    (bits >> (first as u64)) & ((((1u64 << ((last - first) as u64)) - 1) as u64) << 1 | 1)
}

/// `bits` with the bit at `index`, counted from the most significant of 32,
/// set to `value`.
pub open spec fn with_bit_msb0_32(bits: u32, index: usize, value: bool) -> u32 {
    if value {
        bits | (1u32 << ((31 - index) as u32))
    } else {
        bits & !(1u32 << ((31 - index) as u32))
    }
}

/// `bits` with the bit at `index`, counted from the most significant of 64,
/// set to `value`.
pub open spec fn with_bit_msb0_64(bits: u64, index: usize, value: bool) -> u64 {
    if value {
        bits | (1u64 << ((63 - index) as u64))
    } else {
        bits & !(1u64 << ((63 - index) as u64))
    }
}

/// `bitvec`: indexing the `Lsb0` view of a `u64`. The bit at `bit`, counted
/// from the least significant.
#[verifier::external_body]
pub(crate) fn bit_lsb0(bits: u64, bit: usize) -> (b: bool)
    requires
        bit < 64,
    ensures
        b == ((bits >> (bit as u64)) & 1 == 1),
{
    bits.view_bits::<Lsb0>()[bit]
}

/// `bitvec`: `BitField::load` on the bits `first..=last` of the `Lsb0` view
/// of a `u64`. The field as a number, its lowest bit the bit at `first`.
#[verifier::external_body]
pub(crate) fn load_lsb0(bits: u64, first: usize, last: usize) -> (v: u64)
    requires
        first <= last < 64,
    ensures
        v == field_lsb0(bits, first, last),
{
    bits.view_bits::<Lsb0>()[first..=last].load::<u64>()
}

/// `bitvec`: `BitSlice::set` on the `Msb0` view of a `u32`. The bit at
/// `index`, counted from the most significant, becomes `value`.
#[verifier::external_body]
pub(crate) fn set_msb0_32(bits: u32, index: usize, value: bool) -> (r: u32)
    requires
        index < 32,
    ensures
        r == with_bit_msb0_32(bits, index, value),
{
    let mut bits = bits;
    bits.view_bits_mut::<Msb0>().set(index, value);
    bits
}

/// `bitvec`: `BitSlice::set` on the `Msb0` view of a `u64`. The bit at
/// `index`, counted from the most significant, becomes `value`.
#[verifier::external_body]
pub(crate) fn set_msb0_64(bits: u64, index: usize, value: bool) -> (r: u64)
    requires
        index < 64,
    ensures
        r == with_bit_msb0_64(bits, index, value),
{
    let mut bits = bits;
    bits.view_bits_mut::<Msb0>().set(index, value);
    bits
}

/// The number whose lowest `last - first + 1` bits are set.
pub open spec fn low_mask(first: usize, last: usize) -> u64 {
    (((1u64 << ((last - first) as u64)) - 1) as u64) << 1 | 1
}

/// `bits` with the bits `first..=last`, counted from the most significant of
/// 64, replaced by the lowest bits of `value`.
pub open spec fn with_field_msb0_64(bits: u64, first: usize, last: usize, value: u32) -> u64 {
    (bits & !(low_mask(first, last) << ((63 - last) as u64))) | (((value as u64) & low_mask(
        first,
        last,
    )) << ((63 - last) as u64))
}

/// `bitvec`: `BitField::store_be` on the bits `first..=last` of the `Msb0`
/// view of a `u64`. The field then holds the lowest bits of `value`, the
/// last bit of the field the least significant; the other bits stay.
#[verifier::external_body]
pub(crate) fn store_msb0_64(bits: u64, first: usize, last: usize, value: u32) -> (r: u64)
    requires
        first <= last < 64,
        last - first < 32,
    ensures
        r == with_field_msb0_64(bits, first, last, value),
{
    let mut bits = bits;
    bits.view_bits_mut::<Msb0>()[first..=last].store_be(value);
    bits
}

} // verus!
