//! Packing six-bit values into a buffer.

use vstd::prelude::*;
use vstd::arithmetic::power2::lemma2_to64;
use crate::bits::{bits_of_value, bytes_of_bits, pad_to_byte, padding_len};
use crate::bitstream::{align_sink, finish_sink, new_sink, put_bits, written_bits};

verus! {

/// The bits of a run of six-bit values, each most significant bit first.
pub open spec fn sextet_bits(values: Seq<u8>) -> Seq<bool>
    decreases values.len(),
{
    if values.len() == 0 {
        Seq::empty()
    } else {
        sextet_bits(values.drop_last()) + bits_of_value(values.last() as nat, 6)
    }
}

/// The buffer that a run of six-bit values packs into: their bits end to
/// end, and zero bits to fill the last byte.
pub open spec fn packed(values: Seq<u8>) -> Seq<u8> {
    bytes_of_bits(pad_to_byte(sextet_bits(values)))
}

/// How many bytes `count` six-bit values pack into.
pub open spec fn packed_len(count: nat) -> nat {
    (6 * count + 7) / 8
}

/// A run of six-bit values has six bits for each value.
pub proof fn lemma_sextet_bits_len(values: Seq<u8>)
    ensures
        sextet_bits(values).len() == 6 * values.len(),
    decreases values.len(),
{
    if values.len() > 0 {
        lemma_sextet_bits_len(values.drop_last());
    }
}

/// Filling up the last byte of `len` bits gives `len / 8` bytes, rounded up.
proof fn lemma_padded_len(len: nat)
    ensures
        (len + padding_len(len)) % 8 == 0,
        (len + padding_len(len)) / 8 == (len + 7) / 8,
{
    let q = len / 8;
    let r = len % 8;
    assert(len == 8 * q + r);
    if r == 0 {
        assert(padding_len(len) == 0);
    } else {
        assert(padding_len(len) == 8 - r);
        assert(len + padding_len(len) == 8 * (q + 1));
        assert(len + 7 == 8 * (q + 1) + (r - 1));
    }
}

/// A packed buffer has one byte for every eight bits, the last one filled up.
pub proof fn lemma_packed_len(values: Seq<u8>)
    ensures
        packed(values).len() == packed_len(values.len()),
{
    lemma_sextet_bits_len(values);
    lemma_padded_len(sextet_bits(values).len());
}

/// Packs six-bit values into bytes, most significant bit first, and fills
/// the last byte with zero bits.
pub fn pack_sextets(values: &[u8]) -> (bytes: Vec<u8>)
    requires
        forall|i: int| 0 <= i < values@.len() ==> values@[i] < 64,
    ensures
        bytes@ == packed(values@),
        bytes@.len() == packed_len(values@.len()),
{
    let mut sink = new_sink();
    let mut i: usize = 0;
    while i < values.len()
        invariant
            i <= values.len(),
            forall|j: int| 0 <= j < values@.len() ==> values@[j] < 64,
            written_bits(sink) == sextet_bits(values@.take(i as int)),
        decreases values.len() - i,
    {
        proof {
            lemma2_to64();
            assert(values@.take(i + 1).drop_last() == values@.take(i as int));
        }
        put_bits(&mut sink, 6, values[i]);
        i += 1;
    }
    proof {
        assert(values@.take(values@.len() as int) == values@);
        lemma_packed_len(values@);
    }
    align_sink(&mut sink);
    finish_sink(sink)
}

} // verus!
