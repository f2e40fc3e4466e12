//! LEB128, the variable-length encoding of integers.

use vstd::prelude::*;

verus! {

/// The signed LEB128 encoding of `value`: seven bits per byte, least
/// significant first, every byte but the last with its top bit set; the
/// encoding ends once the rest is the sign alone and the sign bit of the
/// last byte agrees with it.
pub open spec fn sleb128(value: int) -> Seq<u8>
    decreases
            (if value >= 0 {
                value
            } else {
                -(value + 1)
            }),
{
    let byte = value % 128;
    let rest = value / 128;
    if (rest == 0 && byte < 64) || (rest == -1 && byte >= 64) {
        seq![byte as u8]
    } else {
        seq![(byte + 128) as u8] + sleb128(rest)
    }
}

/// The unsigned LEB128 encoding of `value`: seven bits per byte, least
/// significant first, every byte but the last with its top bit set.
pub open spec fn uleb128(value: nat) -> Seq<u8>
    decreases value,
{
    if value < 128 {
        seq![value as u8]
    } else {
        seq![(value % 128 + 128) as u8] + uleb128(value / 128)
    }
}

/// How masks and shifts cut seven bits off a signed number.
pub proof fn lemma_signed_step(value: i64)
    ensures
        (value & 0x7F) == value % 128,
        (value >> 7) == value / 128,
        0 <= value & 0x7F < 128,
        (value & 0x7F) & 0x40 == 0 <==> (value & 0x7F) < 64,
        (((value & 0x7F) as u8) | 0x80) == (value & 0x7F) + 128,
        (((value & 0x7F) as u8) & 0x40) == 0 <==> (value & 0x7F) < 64,
{
    assert((value & 0x7F) == value % 128 && (value >> 7) == value / 128 && 0 <= value & 0x7F < 128)
        by (bit_vector);
    let byte = value & 0x7F;
    assert((byte & 0x40 == 0 <==> byte < 64) && ((byte as u8) | 0x80) == byte + 128 && (((
    byte as u8) & 0x40) == 0 <==> byte < 64)) by (bit_vector)
        requires
            0 <= byte < 128,
    ;
}

/// How masks and shifts cut seven bits off an unsigned number.
pub proof fn lemma_unsigned_step(value: u64)
    ensures
        (value & 0x7F) == value % 128,
        (value >> 7) == value / 128,
        (((value & 0x7F) as u8) | 0x80) == (value & 0x7F) + 128,
{
    assert((value & 0x7F) == value % 128 && (value >> 7) == value / 128) by (bit_vector);
    let byte = value & 0x7F;
    assert(((byte as u8) | 0x80) == byte + 128) by (bit_vector)
        requires
            byte < 128,
    ;
}

/// Appends the signed LEB128 encoding of `value` and tells how many bytes
/// that took.
pub fn write_i64(buf: &mut Vec<u8>, value: i64) -> (n: usize)
    ensures
        final(buf)@ == old(buf)@ + sleb128(value as int),
        n == sleb128(value as int).len(),
{
    let mut value = value;
    let written = buf.len();
    let ghost start = value;
    loop
        invariant_except_break
            buf@ + sleb128(value as int) == old(buf)@ + sleb128(start as int),
        ensures
            buf@ == old(buf)@ + sleb128(start as int),
        decreases
                (if value >= 0 {
                    value as int
                } else {
                    -(value + 1)
                }),
    {
        proof {
            lemma_signed_step(value);
        }
        let ghost before = buf@;
        let ghost current = value;
        let byte = (value & 0x7F) as u8;
        value = value >> 7;
        if (value == 0 && (byte & 0x40) == 0) || (value == -1 && (byte & 0x40) != 0) {
            buf.push(byte);
            proof {
                assert(buf@ =~= before + sleb128(current as int));
                assert(buf@ =~= old(buf)@ + sleb128(start as int));
            }
            break;
        }
        buf.push(byte | 0x80);
        proof {
            assert(buf@ + sleb128(value as int) =~= before + sleb128(current as int));
        }
    }
    buf.len() - written
}

/// Appends the signed LEB128 encoding of `value` and tells how many bytes
/// that took.
pub fn write_i32(buf: &mut Vec<u8>, value: i32) -> (n: usize)
    ensures
        final(buf)@ == old(buf)@ + sleb128(value as int),
        n == sleb128(value as int).len(),
{
    write_i64(buf, value as i64)
}

/// Appends the unsigned LEB128 encoding of `value` and tells how many bytes
/// that took.
pub fn write_u64(buf: &mut Vec<u8>, value: u64) -> (n: usize)
    ensures
        final(buf)@ == old(buf)@ + uleb128(value as nat),
        n == uleb128(value as nat).len(),
{
    let mut value = value;
    let written = buf.len();
    let ghost start = value;
    loop
        invariant_except_break
            buf@ + uleb128(value as nat) == old(buf)@ + uleb128(start as nat),
        ensures
            buf@ == old(buf)@ + uleb128(start as nat),
        decreases value,
    {
        proof {
            lemma_unsigned_step(value);
        }
        let ghost before = buf@;
        let ghost current = value;
        let byte = (value & 0x7F) as u8;
        value = value >> 7;
        if value == 0 {
            buf.push(byte);
            proof {
                assert(buf@ =~= before + uleb128(current as nat));
                assert(buf@ =~= old(buf)@ + uleb128(start as nat));
            }
            break;
        }
        buf.push(byte | 0x80);
        proof {
            assert(buf@ + uleb128(value as nat) =~= before + uleb128(current as nat));
        }
    }
    buf.len() - written
}

/// Appends the unsigned LEB128 encoding of `value` and tells how many bytes
/// that took.
pub fn write_u32(buf: &mut Vec<u8>, value: u32) -> (n: usize)
    ensures
        final(buf)@ == old(buf)@ + uleb128(value as nat),
        n == uleb128(value as nat).len(),
{
    write_u64(buf, value as u64)
}

} // verus!
