//! What the first format's checksum is sure to notice.
//!
//! With the register started at zero the check is linear: inverting one bit
//! of the input changes the register by a value that depends only on how
//! many bits follow the inverted one. These values are written down here for
//! the 112 bits that the checksum covers, and the low byte of none is zero.

use vstd::prelude::*;
use crate::checksum::{checksum_valid_a, crc16, crc16_byte, crc16_shift, flip_bit};

verus! {

/// The change in the register that an inverted bit has caused once `steps`
/// more bits have gone through after it.
pub open spec fn ripple(steps: nat) -> u16
    decreases steps,
{
    if steps == 0 {
        0x1021
    } else {
        crc16_shift(ripple((steps - 1) as nat), false)
    }
}

/// A change in the register after eight more bits.
pub open spec fn octet(change: u16) -> u16 {
    let c1 = crc16_shift(change, false);
    let c2 = crc16_shift(c1, false);
    let c3 = crc16_shift(c2, false);
    let c4 = crc16_shift(c3, false);
    let c5 = crc16_shift(c4, false);
    let c6 = crc16_shift(c5, false);
    let c7 = crc16_shift(c6, false);
    crc16_shift(c7, false)
}

/// Whether a change, and what it becomes after each of the next seven bits,
/// all reach the low byte of the register.
pub open spec fn shows_for_an_octet(change: u16) -> bool {
    let c1 = crc16_shift(change, false);
    let c2 = crc16_shift(c1, false);
    let c3 = crc16_shift(c2, false);
    let c4 = crc16_shift(c3, false);
    let c5 = crc16_shift(c4, false);
    let c6 = crc16_shift(c5, false);
    let c7 = crc16_shift(c6, false);
    change & 0xff != 0 && c1 & 0xff != 0 && c2 & 0xff != 0 && c3 & 0xff != 0 && c4 & 0xff != 0
        && c5 & 0xff != 0 && c6 & 0xff != 0 && c7 & 0xff != 0
}

#[verifier::rlimit(40)]
proof fn lemma_octet_table()
    by (bit_vector)
    ensures
        shows_for_an_octet(0x1021) && octet(0x1021) == 0x3331,
        shows_for_an_octet(0x3331) && octet(0x3331) == 0x3730,
        shows_for_an_octet(0x3730) && octet(0x3730) == 0x76b4,
        shows_for_an_octet(0x76b4) && octet(0x76b4) == 0xaa51,
        shows_for_an_octet(0xaa51) && octet(0xaa51) == 0x45a0,
        shows_for_an_octet(0x45a0) && octet(0x45a0) == 0xb861,
        shows_for_an_octet(0xb861) && octet(0xb861) == 0x47d3,
        shows_for_an_octet(0x47d3) && octet(0x47d3) == 0xeb23,
        shows_for_an_octet(0xeb23) && octet(0xeb23) == 0x6f45,
        shows_for_an_octet(0x6f45) && octet(0x6f45) == 0xd849,
        shows_for_an_octet(0xd849) && octet(0xd849) == 0x0375,
        shows_for_an_octet(0x0375) && octet(0x0375) == 0x4563,
        shows_for_an_octet(0x4563) && octet(0x4563) == 0x7b61,
        shows_for_an_octet(0x7b61) && octet(0x7b61) == 0xaefc,
{
}

proof fn lemma_ripple_octet(start: nat)
    ensures
        ripple(start + 8) == octet(ripple(start)),
        shows_for_an_octet(ripple(start)) ==> forall|i: nat|
            i < 8 ==> #[trigger] ripple(start + i) & 0xff != 0,
{
    let c0 = ripple(start);
    let c1 = ripple(start + 1);
    let c2 = ripple(start + 2);
    let c3 = ripple(start + 3);
    let c4 = ripple(start + 4);
    let c5 = ripple(start + 5);
    let c6 = ripple(start + 6);
    let c7 = ripple(start + 7);
    assert(c1 == crc16_shift(c0, false));
    assert(c2 == crc16_shift(c1, false));
    assert(c3 == crc16_shift(c2, false));
    assert(c4 == crc16_shift(c3, false));
    assert(c5 == crc16_shift(c4, false));
    assert(c6 == crc16_shift(c5, false));
    assert(c7 == crc16_shift(c6, false));
    assert(ripple(start + 8) == crc16_shift(c7, false));
    if shows_for_an_octet(c0) {
        assert forall|i: nat| i < 8 implies #[trigger] ripple(start + i) & 0xff != 0 by {
            assert(i == 0 || i == 1 || i == 2 || i == 3 || i == 4 || i == 5 || i == 6 || i == 7);
        }
    }
}

proof fn lemma_ripple_table()
    ensures
        ripple(0) == 0x1021,
        ripple(8) == 0x3331,
        ripple(16) == 0x3730,
        ripple(24) == 0x76b4,
        ripple(32) == 0xaa51,
        ripple(40) == 0x45a0,
        ripple(48) == 0xb861,
        ripple(56) == 0x47d3,
        ripple(64) == 0xeb23,
        ripple(72) == 0x6f45,
        ripple(80) == 0xd849,
        ripple(88) == 0x0375,
        ripple(96) == 0x4563,
        ripple(104) == 0x7b61,
{
    lemma_octet_table();
    lemma_ripple_octet(0);
    lemma_ripple_octet(8);
    lemma_ripple_octet(16);
    lemma_ripple_octet(24);
    lemma_ripple_octet(32);
    lemma_ripple_octet(40);
    lemma_ripple_octet(48);
    lemma_ripple_octet(56);
    lemma_ripple_octet(64);
    lemma_ripple_octet(72);
    lemma_ripple_octet(80);
    lemma_ripple_octet(88);
    lemma_ripple_octet(96);
}

/// An inverted bit that at most 111 bits follow changes the low byte of the
/// register.
pub proof fn lemma_ripple_shows(steps: nat)
    requires
        steps < 112,
    ensures
        ripple(steps) & 0xff != 0,
{
    lemma_octet_table();
    lemma_ripple_table();
    let start = (steps / 8 * 8) as nat;
    let i = (steps % 8) as nat;
    lemma_ripple_octet(start);
    assert(start == 0 || start == 8 || start == 16 || start == 24 || start == 32 || start == 40
        || start == 48 || start == 56 || start == 64 || start == 72 || start == 80 || start == 88
        || start == 96 || start == 104);
    assert(shows_for_an_octet(ripple(start)));
    assert(ripple(start + i) & 0xff != 0);
}

proof fn lemma_first_octet()
    by (bit_vector)
    ensures
        crc16_shift(0x1021, false) == 0x2042,
        crc16_shift(0x2042, false) == 0x4084,
        crc16_shift(0x4084, false) == 0x8108,
        crc16_shift(0x8108, false) == 0x1231,
        crc16_shift(0x1231, false) == 0x2462,
        crc16_shift(0x2462, false) == 0x48c4,
        crc16_shift(0x48c4, false) == 0x9188,
{
}

#[verifier::rlimit(40)]
proof fn lemma_lone_bit_table()
    by (bit_vector)
    ensures
        crc16_byte(0, 0x01) == 0x1021,
        crc16_byte(0, 0x02) == 0x2042,
        crc16_byte(0, 0x04) == 0x4084,
        crc16_byte(0, 0x08) == 0x8108,
        crc16_byte(0, 0x10) == 0x1231,
        crc16_byte(0, 0x20) == 0x2462,
        crc16_byte(0, 0x40) == 0x48c4,
        crc16_byte(0, 0x80) == 0x9188,
{
}

proof fn lemma_one_shifted(bit: u8)
    by (bit_vector)
    requires
        bit < 8,
    ensures
        bit == 0 ==> 1u8 << bit == 0x01,
        bit == 1 ==> 1u8 << bit == 0x02,
        bit == 2 ==> 1u8 << bit == 0x04,
        bit == 3 ==> 1u8 << bit == 0x08,
        bit == 4 ==> 1u8 << bit == 0x10,
        bit == 5 ==> 1u8 << bit == 0x20,
        bit == 6 ==> 1u8 << bit == 0x40,
        bit == 7 ==> 1u8 << bit == 0x80,
{
}

proof fn lemma_lone_bit(bit: u8)
    requires
        bit < 8,
    ensures
        bit == 0 ==> crc16_byte(0, 1u8 << bit) == 0x1021,
        bit == 1 ==> crc16_byte(0, 1u8 << bit) == 0x2042,
        bit == 2 ==> crc16_byte(0, 1u8 << bit) == 0x4084,
        bit == 3 ==> crc16_byte(0, 1u8 << bit) == 0x8108,
        bit == 4 ==> crc16_byte(0, 1u8 << bit) == 0x1231,
        bit == 5 ==> crc16_byte(0, 1u8 << bit) == 0x2462,
        bit == 6 ==> crc16_byte(0, 1u8 << bit) == 0x48c4,
        bit == 7 ==> crc16_byte(0, 1u8 << bit) == 0x9188,
{
    lemma_lone_bit_table();
    lemma_one_shifted(bit);
}

proof fn lemma_shift_linear(a: u16, b: u16, x: bool, y: bool)
    by (bit_vector)
    ensures
        crc16_shift(a ^ b, x != y) == crc16_shift(a, x) ^ crc16_shift(b, y),
{
}

proof fn lemma_bits_of_sum(x: u8, y: u8)
    by (bit_vector)
    ensures
        ((x ^ y) & 0x80 != 0) == ((x & 0x80 != 0) != (y & 0x80 != 0)),
        ((x ^ y) & 0x40 != 0) == ((x & 0x40 != 0) != (y & 0x40 != 0)),
        ((x ^ y) & 0x20 != 0) == ((x & 0x20 != 0) != (y & 0x20 != 0)),
        ((x ^ y) & 0x10 != 0) == ((x & 0x10 != 0) != (y & 0x10 != 0)),
        ((x ^ y) & 0x08 != 0) == ((x & 0x08 != 0) != (y & 0x08 != 0)),
        ((x ^ y) & 0x04 != 0) == ((x & 0x04 != 0) != (y & 0x04 != 0)),
        ((x ^ y) & 0x02 != 0) == ((x & 0x02 != 0) != (y & 0x02 != 0)),
        ((x ^ y) & 0x01 != 0) == ((x & 0x01 != 0) != (y & 0x01 != 0)),
{
}

proof fn lemma_sum_with_zero(a: u16, x: u8)
    by (bit_vector)
    ensures
        a ^ 0 == a,
        x ^ 0 == x,
        0u8 & 0x80 == 0,
        0u8 & 0x40 == 0,
        0u8 & 0x20 == 0,
        0u8 & 0x10 == 0,
        0u8 & 0x08 == 0,
        0u8 & 0x04 == 0,
        0u8 & 0x02 == 0,
        0u8 & 0x01 == 0,
{
}

/// The check is linear: the register after the sum of two inputs, from the
/// sum of two starting values, is the sum of the two registers.
proof fn lemma_byte_linear(a: u16, b: u16, x: u8, y: u8)
    ensures
        crc16_byte(a ^ b, x ^ y) == crc16_byte(a, x) ^ crc16_byte(b, y),
{
    lemma_bits_of_sum(x, y);
    let a1 = crc16_shift(a, x & 0x80 != 0);
    let b1 = crc16_shift(b, y & 0x80 != 0);
    lemma_shift_linear(a, b, x & 0x80 != 0, y & 0x80 != 0);
    let a2 = crc16_shift(a1, x & 0x40 != 0);
    let b2 = crc16_shift(b1, y & 0x40 != 0);
    lemma_shift_linear(a1, b1, x & 0x40 != 0, y & 0x40 != 0);
    let a3 = crc16_shift(a2, x & 0x20 != 0);
    let b3 = crc16_shift(b2, y & 0x20 != 0);
    lemma_shift_linear(a2, b2, x & 0x20 != 0, y & 0x20 != 0);
    let a4 = crc16_shift(a3, x & 0x10 != 0);
    let b4 = crc16_shift(b3, y & 0x10 != 0);
    lemma_shift_linear(a3, b3, x & 0x10 != 0, y & 0x10 != 0);
    let a5 = crc16_shift(a4, x & 0x08 != 0);
    let b5 = crc16_shift(b4, y & 0x08 != 0);
    lemma_shift_linear(a4, b4, x & 0x08 != 0, y & 0x08 != 0);
    let a6 = crc16_shift(a5, x & 0x04 != 0);
    let b6 = crc16_shift(b5, y & 0x04 != 0);
    lemma_shift_linear(a5, b5, x & 0x04 != 0, y & 0x04 != 0);
    let a7 = crc16_shift(a6, x & 0x02 != 0);
    let b7 = crc16_shift(b6, y & 0x02 != 0);
    lemma_shift_linear(a6, b6, x & 0x02 != 0, y & 0x02 != 0);
    lemma_shift_linear(a7, b7, x & 0x01 != 0, y & 0x01 != 0);
}

proof fn lemma_flip_in_byte(reg: u16, byte: u8, bit: u8)
    requires
        bit < 8,
    ensures
        crc16_byte(reg, byte ^ (1u8 << bit)) == crc16_byte(reg, byte) ^ crc16_byte(0, 1u8 << bit),
{
    lemma_sum_with_zero(reg, byte);
    lemma_byte_linear(reg, 0, byte, 1u8 << bit);
}

proof fn lemma_change_through_byte(reg: u16, change: u16, byte: u8)
    ensures
        crc16_byte(reg ^ change, byte) == crc16_byte(reg, byte) ^ octet(change),
{
    lemma_sum_with_zero(reg, byte);
    lemma_byte_linear(reg, change, byte, 0);
    assert(crc16_byte(change, 0) == octet(change));
}

proof fn lemma_low_byte_differs(reg: u16, change: u16)
    by (bit_vector)
    requires
        change & 0xff != 0,
    ensures
        ((reg ^ change) & 0xff) as u8 != (reg & 0xff) as u8,
{
}

/// One inverted bit in the input changes the register, at the end, by the
/// value that belongs to the number of bits after it.
pub proof fn lemma_flip_in_data(init: u16, data: Seq<u8>, at: int, bit: u8)
    requires
        0 <= at < data.len(),
        bit < 8,
    ensures
        crc16(init, flip_bit(data, at, bit)) == crc16(init, data) ^ ripple(
            (8 * (data.len() - 1 - at) + bit) as nat,
        ),
    decreases data.len(),
{
    let flipped = flip_bit(data, at, bit);
    let before = crc16(init, data.drop_last());
    if at == data.len() - 1 {
        assert(flipped.drop_last() == data.drop_last());
        lemma_flip_in_byte(before, data[at], bit);
        lemma_lone_bit(bit);
        lemma_first_octet();
        assert(ripple(1) == crc16_shift(ripple(0), false));
        assert(ripple(2) == crc16_shift(ripple(1), false));
        assert(ripple(3) == crc16_shift(ripple(2), false));
        assert(ripple(4) == crc16_shift(ripple(3), false));
        assert(ripple(5) == crc16_shift(ripple(4), false));
        assert(ripple(6) == crc16_shift(ripple(5), false));
        assert(ripple(7) == crc16_shift(ripple(6), false));
    } else {
        assert(flipped.drop_last() == flip_bit(data.drop_last(), at, bit));
        lemma_flip_in_data(init, data.drop_last(), at, bit);
        let steps = (8 * (data.len() - 2 - at) + bit) as nat;
        lemma_change_through_byte(before, ripple(steps), data.last());
        lemma_ripple_octet(steps);
    }
}

/// In a buffer of the first format with a correct checksum byte, inverting
/// any one bit of the fourteen bytes before that byte makes the checksum
/// wrong.
pub proof fn lemma_flipped_bit_is_noticed(buffer: Seq<u8>, byte: int, bit: u8)
    requires
        buffer.len() == 15,
        checksum_valid_a(buffer),
        0 <= byte < 14,
        bit < 8,
    ensures
        !checksum_valid_a(flip_bit(buffer, byte, bit)),
{
    let payload = buffer.drop_last();
    let turned = payload.reverse();
    let flipped = flip_bit(buffer, byte, bit);
    assert(flipped.drop_last() == flip_bit(payload, byte, bit));
    assert(flipped.drop_last().reverse() == flip_bit(turned, 13 - byte, bit));
    lemma_flip_in_data(0, turned, 13 - byte, bit);
    let steps = (8 * byte + bit) as nat;
    lemma_ripple_shows(steps);
    lemma_low_byte_differs(crc16(0, turned), ripple(steps));
}

} // verus!
