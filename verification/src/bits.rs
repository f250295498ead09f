//! Bytes as sequences of bits, most significant bit first.
//!
//! A buffer is read and written through these functions: bit 0 of a buffer
//! is the top bit of its first byte, and a field of several bits holds its
//! most significant bit first.

use vstd::prelude::*;
use vstd::arithmetic::power2::{lemma2_to64, lemma_pow2_pos, lemma_pow2_unfold, pow2};

verus! {

/// Bit `k` of `byte`, where bit 0 is the most significant and bit 7 the least.
pub open spec fn bit_of_byte(byte: u8, k: int) -> bool {
    (byte as nat / pow2((7 - k) as nat)) % 2 == 1
}

/// The bits of a buffer: eight for each byte, in the order of the bytes.
pub open spec fn bits_of_bytes(bytes: Seq<u8>) -> Seq<bool> {
    Seq::new(8 * bytes.len(), |i: int| bit_of_byte(bytes[i / 8], i % 8))
}

/// The number that a run of bits spells, most significant bit first.
pub open spec fn value_of_bits(bits: Seq<bool>) -> nat
    decreases bits.len(),
{
    if bits.len() == 0 {
        0
    } else {
        2 * value_of_bits(bits.drop_last()) + if bits.last() { 1nat } else { 0nat }
    }
}

/// The `width` low bits of `value`, most significant bit first.
pub open spec fn bits_of_value(value: nat, width: nat) -> Seq<bool> {
    Seq::new(width, |i: int| (value / pow2((width - 1 - i) as nat)) % 2 == 1)
}

/// The bytes that a run of bits fills, eight bits to a byte; bits after the
/// last full byte are left out.
pub open spec fn bytes_of_bits(bits: Seq<bool>) -> Seq<u8> {
    Seq::new(bits.len() / 8, |j: int| value_of_bits(bits.subrange(8 * j, 8 * j + 8)) as u8)
}

/// How many zero bits bring a run of `len` bits to a whole number of bytes.
pub open spec fn padding_len(len: nat) -> nat {
    ((8 - len % 8) % 8) as nat
}

/// `bits`, followed by as many zero bits as fill its last byte.
pub open spec fn pad_to_byte(bits: Seq<bool>) -> Seq<bool> {
    bits + Seq::new(padding_len(bits.len()), |i: int| false)
}

/// A run of `n` bits spells a number below two to the `n`.
pub proof fn lemma_value_of_bits_bound(bits: Seq<bool>)
    ensures
        value_of_bits(bits) < pow2(bits.len()),
    decreases bits.len(),
{
    if bits.len() == 0 {
        lemma_pow2_pos(0);
    } else {
        lemma_value_of_bits_bound(bits.drop_last());
        lemma_pow2_unfold(bits.len());
    }
}

proof fn lemma_low_bits_of_byte(x: u8)
    by (bit_vector)
    ensures
        x % 2 == 2 * ((x / 2) % 1) + x % 2,
        x % 4 == 2 * ((x / 2) % 2) + x % 2,
        x % 8 == 2 * ((x / 2) % 4) + x % 2,
        x % 16 == 2 * ((x / 2) % 8) + x % 2,
        x % 32 == 2 * ((x / 2) % 16) + x % 2,
        x % 64 == 2 * ((x / 2) % 32) + x % 2,
        x % 128 == 2 * ((x / 2) % 64) + x % 2,
        x == 2 * ((x / 2) % 128) + x % 2,
{
}

/// The low `n` bits of a number are twice the low `n - 1` bits of its half,
/// and its lowest bit.
proof fn lemma_low_bits_step(x: nat, n: nat)
    requires
        1 <= n <= 8,
        x < 256,
    ensures
        x % pow2(n) == 2 * ((x / 2) % pow2((n - 1) as nat)) + x % 2,
{
    lemma2_to64();
    let b = x as u8;
    assert(b as nat == x);
    lemma_low_bits_of_byte(b);
    if n == 1 {
        assert(pow2(1) == 2 && pow2(0) == 1);
        assert(x % 2 == 2 * ((x / 2) % 1) + x % 2);
    } else if n == 2 {
        assert(pow2(2) == 4 && pow2(1) == 2);
        assert(x % 4 == 2 * ((x / 2) % 2) + x % 2);
    } else if n == 3 {
        assert(pow2(3) == 8 && pow2(2) == 4);
        assert(x % 8 == 2 * ((x / 2) % 4) + x % 2);
    } else if n == 4 {
        assert(pow2(4) == 16 && pow2(3) == 8);
        assert(x % 16 == 2 * ((x / 2) % 8) + x % 2);
    } else if n == 5 {
        assert(pow2(5) == 32 && pow2(4) == 16);
        assert(x % 32 == 2 * ((x / 2) % 16) + x % 2);
    } else if n == 6 {
        assert(pow2(6) == 64 && pow2(5) == 32);
        assert(x % 64 == 2 * ((x / 2) % 32) + x % 2);
    } else if n == 7 {
        assert(pow2(7) == 128 && pow2(6) == 64);
        assert(x % 128 == 2 * ((x / 2) % 64) + x % 2);
    } else {
        assert(pow2(8) == 256 && pow2(7) == 128);
        assert(x == 2 * ((x / 2) % 128) + x % 2);
    }
}

/// Halving after dropping `k` low bits drops `k + 1` low bits.
proof fn lemma_shift_step(byte: nat, k: nat)
    requires
        k < 8,
        byte < 256,
    ensures
        (byte / pow2(k)) / 2 == byte / pow2(k + 1),
        byte / pow2(k) < 256,
{
    lemma2_to64();
    if k == 0 {
        assert(pow2(0) == 1 && pow2(1) == 2);
        assert((byte / 1) / 2 == byte / 2);
    } else if k == 1 {
        assert(pow2(1) == 2 && pow2(2) == 4);
        assert((byte / 2) / 2 == byte / 4);
    } else if k == 2 {
        assert(pow2(2) == 4 && pow2(3) == 8);
        assert((byte / 4) / 2 == byte / 8);
    } else if k == 3 {
        assert(pow2(3) == 8 && pow2(4) == 16);
        assert((byte / 8) / 2 == byte / 16);
    } else if k == 4 {
        assert(pow2(4) == 16 && pow2(5) == 32);
        assert((byte / 16) / 2 == byte / 32);
    } else if k == 5 {
        assert(pow2(5) == 32 && pow2(6) == 64);
        assert((byte / 32) / 2 == byte / 64);
    } else if k == 6 {
        assert(pow2(6) == 64 && pow2(7) == 128);
        assert((byte / 64) / 2 == byte / 128);
    } else {
        assert(pow2(7) == 128 && pow2(8) == 256);
        assert((byte / 128) / 2 == byte / 256);
    }
}

/// A field that lies within one byte of a buffer, from bit `from` up to but
/// not including bit `to` of byte `j`, spells the byte without its low
/// `8 - to` bits, taken modulo two to the width of the field.
pub proof fn lemma_field_in_byte(bytes: Seq<u8>, j: int, from: int, to: int)
    requires
        0 <= j < bytes.len(),
        0 <= from <= to <= 8,
    ensures
        value_of_bits(bits_of_bytes(bytes).subrange(8 * j + from, 8 * j + to)) == (bytes[j] as nat
            / pow2((8 - to) as nat)) % pow2((to - from) as nat),
    decreases to - from,
{
    let bits = bits_of_bytes(bytes);
    let field = bits.subrange(8 * j + from, 8 * j + to);
    lemma2_to64();
    if from < to {
        lemma_field_in_byte(bytes, j, from, to - 1);
        assert(field.drop_last() == bits.subrange(8 * j + from, 8 * j + to - 1));
        assert(field.last() == bit_of_byte(bytes[j], to - 1)) by {
            assert(field.last() == bits[8 * j + to - 1]);
            assert((8 * j + to - 1) / 8 == j);
            assert((8 * j + to - 1) % 8 == to - 1);
        }
        let x = bytes[j] as nat / pow2((8 - to) as nat);
        lemma_shift_step(bytes[j] as nat, (8 - to) as nat);
        lemma_low_bits_step(x, (to - from) as nat);
        assert(x / 2 == bytes[j] as nat / pow2((9 - to) as nat));
        assert(bit_of_byte(bytes[j], to - 1) == (x % 2 == 1));
    }
}

/// A run of bits followed by another spells the number of the first, times
/// two to the length of the second, plus the number of the second.
pub proof fn lemma_value_of_joined_bits(first: Seq<bool>, second: Seq<bool>)
    ensures
        value_of_bits(first + second) == value_of_bits(first) * pow2(second.len()) + value_of_bits(
            second,
        ),
    decreases second.len(),
{
    if second.len() == 0 {
        assert(first + second =~= first);
        lemma2_to64();
    } else {
        lemma_value_of_joined_bits(first, second.drop_last());
        assert((first + second).drop_last() =~= first + second.drop_last());
        lemma_pow2_unfold(second.len());
        let a = value_of_bits(first) as int;
        let p = pow2((second.len() - 1) as nat) as int;
        let b = value_of_bits(second.drop_last()) as int;
        assert((first + second).last() == second.last());
        assert(pow2(second.len()) as int == 2 * p);
        assert(a * (pow2(second.len()) as int) == a * (2 * p));
        assert(2 * (a * p + b) == a * (2 * p) + 2 * b) by (nonlinear_arith);
    }
}

/// The eight bits of a byte of a buffer spell the byte.
pub proof fn lemma_byte_of_bits(bytes: Seq<u8>, j: int)
    requires
        0 <= j < bytes.len(),
    ensures
        value_of_bits(bits_of_bytes(bytes).subrange(8 * j, 8 * j + 8)) == bytes[j],
{
    lemma_field_in_byte(bytes, j, 0, 8);
    lemma2_to64();
}

/// The bytes that the bits of a buffer fill are the buffer.
pub proof fn lemma_bytes_of_their_bits(bytes: Seq<u8>)
    ensures
        bytes_of_bits(bits_of_bytes(bytes)) == bytes,
{
    let back = bytes_of_bits(bits_of_bytes(bytes));
    assert(back.len() == bytes.len());
    assert forall|j: int| 0 <= j < bytes.len() implies back[j] == bytes[j] by {
        lemma_byte_of_bits(bytes, j);
    }
    assert(back =~= bytes);
}

} // verus!
