//! The checksums of both formats.
//!
//! Both are a cyclic redundancy check with the polynomial 0x1021 over a
//! sixteen-bit register: each byte is taken most significant bit first, and
//! the bytes of the buffer are taken from the last one to the first. The
//! first format starts from zero and keeps the low eight bits; the second
//! starts from the buffer's length times 0x0101, leaves its own checksum bits
//! out of the input and keeps the low eleven bits.

use vstd::prelude::*;

verus! {

/// The register after one more bit: shifted left by one, and the polynomial
/// added where the bit that left differs from the bit that came.
pub open spec fn crc16_shift(reg: u16, bit: bool) -> u16 {
    if (reg & 0x8000 != 0) != bit {
        (reg << 1) ^ 0x1021
    } else {
        reg << 1
    }
}

/// The register after the eight bits of one byte, most significant first.
pub open spec fn crc16_byte(reg: u16, byte: u8) -> u16 {
    let r1 = crc16_shift(reg, byte & 0x80 != 0);
    let r2 = crc16_shift(r1, byte & 0x40 != 0);
    let r3 = crc16_shift(r2, byte & 0x20 != 0);
    let r4 = crc16_shift(r3, byte & 0x10 != 0);
    let r5 = crc16_shift(r4, byte & 0x08 != 0);
    let r6 = crc16_shift(r5, byte & 0x04 != 0);
    let r7 = crc16_shift(r6, byte & 0x02 != 0);
    crc16_shift(r7, byte & 0x01 != 0)
}

/// The register after the bytes of `data`, first byte first, from `init`.
pub open spec fn crc16(init: u16, data: Seq<u8>) -> u16
    decreases data.len(),
{
    if data.len() == 0 {
        init
    } else {
        crc16_byte(crc16(init, data.drop_last()), data.last())
    }
}

/// The checksum of the first format over the bytes before the checksum byte.
pub open spec fn checksum_a(payload: Seq<u8>) -> u8 {
    (crc16(0, payload.reverse()) & 0xff) as u8
}

/// Whether the last byte of a buffer is the first format's checksum of the
/// bytes before it.
pub open spec fn checksum_valid_a(buffer: Seq<u8>) -> bool {
    buffer.len() > 0 && buffer.last() == checksum_a(buffer.drop_last())
}

/// The checksum bits of a buffer of the second format, in their places: the
/// top five bits of byte 0 and the low six bits of byte 8.
pub open spec fn checksum_bits_b(buffer: Seq<u8>) -> (u8, u8) {
    (buffer[0] & 0xf8, buffer[8] & 0x3f)
}

/// The buffer with `bits.0` added into byte 0 and `bits.1` into byte 8,
/// bit by bit without carry. This both clears the checksum bits and puts
/// them back.
pub open spec fn toggle_bits_b(buffer: Seq<u8>, bits: (u8, u8)) -> Seq<u8> {
    buffer.update(0, buffer[0] ^ bits.0).update(8, buffer[8] ^ bits.1)
}

/// The buffer with its checksum bits set to zero.
pub open spec fn clear_checksum_b(buffer: Seq<u8>) -> Seq<u8> {
    toggle_bits_b(buffer, checksum_bits_b(buffer))
}

/// The eleven-bit checksum that a buffer of the second format stores: the
/// top five bits of byte 0 are its high five bits, the low six bits of byte 8
/// its low six.
pub open spec fn stored_checksum_b(buffer: Seq<u8>) -> u16 {
    (((buffer[0] >> 3) as u16) << 6) | ((buffer[8] & 0x3f) as u16)
}

/// The eleven-bit checksum that the second format computes for a buffer.
pub open spec fn checksum_b(buffer: Seq<u8>) -> u16 {
    crc16((buffer.len() * 0x0101) as u16, clear_checksum_b(buffer).reverse()) & 0x07ff
}

/// Whether a buffer of the second format stores the checksum computed for
/// it. A buffer without a byte 8 stores none, and the starting value is
/// defined for at most 255 bytes.
pub open spec fn checksum_valid_b(buffer: Seq<u8>) -> bool {
    9 <= buffer.len() <= 255 && checksum_b(buffer) == stored_checksum_b(buffer)
}

/// The buffer with bit `bit` of byte `byte` inverted; bit 0 is the least
/// significant.
pub open spec fn flip_bit(buffer: Seq<u8>, byte: int, bit: u8) -> Seq<u8> {
    buffer.update(byte, buffer[byte] ^ (1u8 << bit))
}

fn shift_in(reg: u16, bit: bool) -> (r: u16)
    ensures
        r == crc16_shift(reg, bit),
{
    let shifted = reg << 1;
    if (reg & 0x8000 != 0) != bit {
        shifted ^ 0x1021
    } else {
        shifted
    }
}

/// Runs one byte through the register.
pub fn crc16_update(reg: u16, byte: u8) -> (r: u16)
    ensures
        r == crc16_byte(reg, byte),
{
    let r1 = shift_in(reg, byte & 0x80 != 0);
    let r2 = shift_in(r1, byte & 0x40 != 0);
    let r3 = shift_in(r2, byte & 0x20 != 0);
    let r4 = shift_in(r3, byte & 0x10 != 0);
    let r5 = shift_in(r4, byte & 0x08 != 0);
    let r6 = shift_in(r5, byte & 0x04 != 0);
    let r7 = shift_in(r6, byte & 0x02 != 0);
    shift_in(r7, byte & 0x01 != 0)
}

/// Runs the first `end` bytes of `data` through the register, from byte
/// `end - 1` down to byte 0.
pub fn crc16_backwards(init: u16, data: &[u8], end: usize) -> (r: u16)
    requires
        end <= data@.len(),
    ensures
        r == crc16(init, data@.take(end as int).reverse()),
{
    let mut reg = init;
    let mut i = end;
    let ghost turned = data@.take(end as int).reverse();
    while i > 0
        invariant
            i <= end <= data@.len(),
            turned == data@.take(end as int).reverse(),
            reg == crc16(init, turned.take(end - i)),
        decreases i,
    {
        proof {
            assert(turned.take(end - i + 1).drop_last() == turned.take(end - i));
            assert(turned.take(end - i + 1).last() == data@[i - 1]);
        }
        i -= 1;
        reg = crc16_update(reg, data[i]);
    }
    proof {
        assert(turned.take(end as int) == turned);
    }
    reg
}

/// Checks the checksum byte of a buffer of the first format.
pub fn verify_checksum_a(buffer: &[u8]) -> (ok: bool)
    ensures
        ok == checksum_valid_a(buffer@),
{
    let len = buffer.len();
    if len == 0 {
        return false;
    }
    let reg = crc16_backwards(0, buffer, len - 1);
    proof {
        assert(buffer@.take(len - 1) == buffer@.drop_last());
        let low = reg & 0xff;
        assert(low <= 0xff) by (bit_vector)
            requires
                low == reg & 0xff,
        ;
    }
    let expected = (reg & 0xff) as u8;
    expected == buffer[len - 1]
}

/// Adds `bits.0` into byte 0 and `bits.1` into byte 8 of a buffer of the
/// second format, bit by bit without carry.
pub fn toggle_checksum_bits(buffer: &mut Vec<u8>, bits: (u8, u8))
    requires
        old(buffer)@.len() >= 9,
    ensures
        final(buffer)@ == toggle_bits_b(old(buffer)@, bits),
{
    let first = buffer[0] ^ bits.0;
    buffer[0] = first;
    let ninth = buffer[8] ^ bits.1;
    buffer[8] = ninth;
}

/// Checks the checksum of a buffer of the second format: notes the checksum
/// bits, clears them, computes the checksum of what is left and puts the bits
/// back, so that the buffer leaves as it came.
pub fn verify_checksum_b(buffer: &mut Vec<u8>) -> (ok: bool)
    ensures
        final(buffer)@ == old(buffer)@,
        ok == checksum_valid_b(old(buffer)@),
{
    let len = buffer.len();
    if len < 9 || len > 255 {
        return false;
    }
    let saved = (buffer[0] & 0xf8, buffer[8] & 0x3f);
    let stored = (((buffer[0] >> 3) as u16) << 6) | ((buffer[8] & 0x3f) as u16);
    proof {
        lemma_restore_after_clear(buffer@);
    }
    toggle_checksum_bits(buffer, saved);
    let init = (len as u16) * 0x0101;
    let reg = crc16_backwards(init, buffer.as_slice(), len);
    proof {
        assert(buffer@.take(len as int) == buffer@);
    }
    toggle_checksum_bits(buffer, saved);
    (reg & 0x07ff) == stored
}

/// Adding the same bits twice gives the buffer back.
pub proof fn lemma_toggle_twice(buffer: Seq<u8>, bits: (u8, u8))
    requires
        buffer.len() >= 9,
    ensures
        toggle_bits_b(toggle_bits_b(buffer, bits), bits) == buffer,
{
    let x = buffer[0];
    let y = buffer[8];
    let a = bits.0;
    let b = bits.1;
    assert((x ^ a) ^ a == x) by (bit_vector);
    assert((y ^ b) ^ b == y) by (bit_vector);
    assert(toggle_bits_b(toggle_bits_b(buffer, bits), bits) =~= buffer);
}

/// Clearing the checksum bits of a buffer and then putting back the bits
/// that were noted before gives the buffer back, and the cleared buffer
/// holds no checksum bits.
pub proof fn lemma_restore_after_clear(buffer: Seq<u8>)
    requires
        buffer.len() >= 9,
    ensures
        toggle_bits_b(clear_checksum_b(buffer), checksum_bits_b(buffer)) == buffer,
        checksum_bits_b(clear_checksum_b(buffer)) == (0u8, 0u8),
        clear_checksum_b(buffer).len() == buffer.len(),
{
    lemma_toggle_twice(buffer, checksum_bits_b(buffer));
    let x = buffer[0];
    let y = buffer[8];
    assert((x ^ (x & 0xf8)) & 0xf8 == 0) by (bit_vector);
    assert((y ^ (y & 0x3f)) & 0x3f == 0) by (bit_vector);
}

} // verus!
